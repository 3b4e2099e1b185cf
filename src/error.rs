//! Failures reported by the parsers of this crate.
use vstd::prelude::*;

verus! {

/// What a parser expected to find where it failed.
#[derive(Clone, Copy, Debug, PartialEq, Eq, Structural)]
pub enum Expected {
    /// The ASCII character with this code.
    Character(u8),
    /// A digit of this radix.
    Digit(u8),
    /// A digit of this radix other than `0`.
    NonZeroDigit(u8),
    /// A minus sign, or (when the flag is set) a plus or minus sign.
    Sign(bool),
    /// A number that fits the target type.
    NotTooLarge,
    /// The first character of an identifier.
    Identifier,
    /// The end of the input.
    End,
}

/// A failed parse: where it failed, and what was expected there.
///
/// For `Expected::NotTooLarge` the position is the one after the whole run
/// of digits, which the parser consumed before it gave up.
#[derive(Clone, Copy, Debug, PartialEq, Eq, Structural)]
pub struct ParseError {
    pub position: usize,
    pub expected: Expected,
}

impl ParseError {
    pub fn new(position: usize, expected: Expected) -> (r: ParseError)
        ensures
            r.position == position,
            r.expected == expected,
    {
        ParseError { position, expected }
    }
}

/// A parse that has to take the whole input of length `len`: what remains
/// after the value is a failure that expected the end there.
pub open spec fn complete<T>(r: Result<(T, usize), ParseError>, len: int) -> Result<T, ParseError> {
    match r {
        Ok((v, end)) => if end == len {
            Ok(v)
        } else {
            Err(ParseError { position: end, expected: Expected::End })
        },
        Err(e) => Err(e),
    }
}

/// Takes the value of `r` if it ends at `len`.
pub fn finish<T>(r: Result<(T, usize), ParseError>, len: usize) -> (out: Result<T, ParseError>)
    ensures
        out == complete(r, len as int),
{
    match r {
        Ok((v, end)) => if end == len {
            Ok(v)
        } else {
            Err(ParseError::new(end, Expected::End))
        },
        Err(e) => Err(e),
    }
}

} // verus!
