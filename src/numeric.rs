//! Parsers for numeric literals: digits, signs, integers and floats.
//!
//! Every parser reads a slice of characters from a position. On success it
//! hands back what it read and the position after it; on failure, a
//! [`ParseError`] that says where it failed and what it expected there.
use vstd::prelude::*;

use crate::character::{is_digit_of, valid_radix, Character, MINUS, PLUS, ZERO};
use crate::error::{complete, finish, Expected, ParseError};

pub mod checked;
pub mod float;
pub mod integer;
pub mod radix;

verus! {

/// The end of the longest run of digits of `radix` that starts at `i`.
pub open spec fn run_end<C: Character>(s: Seq<C>, i: int, radix: nat) -> int
    decreases s.len() - i,
{
    if 0 <= i < s.len() && is_digit_of(s[i], radix) {
        run_end(s, i + 1, radix)
    } else {
        i
    }
}

/// The end of a canonical run of digits at `pos`: a lone `0`, or a digit
/// other than `0` followed by any number of digits.
pub open spec fn canonical_end<C: Character>(s: Seq<C>, pos: int, radix: nat) -> Option<int> {
    if 0 <= pos < s.len() && is_digit_of(s[pos], radix) {
        if s[pos].code() == 48 {
            Some(pos + 1)
        } else {
            Some(run_end(s, pos + 1, radix))
        }
    } else {
        None
    }
}

/// The end of a non-empty run of digits at `pos`, zeros allowed anywhere.
pub open spec fn free_end<C: Character>(s: Seq<C>, pos: int, radix: nat) -> Option<int> {
    if 0 <= pos < s.len() && is_digit_of(s[pos], radix) {
        Some(run_end(s, pos, radix))
    } else {
        None
    }
}

/// What [`digits`] returns: the end of the canonical run at `pos`, or a
/// failure there.
pub open spec fn canonical_span<C: Character>(s: Seq<C>, pos: int, radix: u8) -> Result<usize, ParseError> {
    match canonical_end(s, pos, radix as nat) {
        Some(end) => Ok(end as usize),
        None => Err(ParseError { position: pos as usize, expected: Expected::Digit(radix) }),
    }
}

/// What [`digits_trailing_zeros`] returns.
pub open spec fn free_span<C: Character>(s: Seq<C>, pos: int, radix: u8) -> Result<usize, ParseError> {
    match free_end(s, pos, radix as nat) {
        Some(end) => Ok(end as usize),
        None => Err(ParseError { position: pos as usize, expected: Expected::Digit(radix) }),
    }
}

/// What [`digits_fixed`] returns: `length` digits, or a failure at the first
/// place among them that holds none.
pub open spec fn fixed_span<C: Character>(s: Seq<C>, pos: int, length: nat, radix: u8) -> Result<usize, ParseError> {
    if run_end(s, pos, radix as nat) >= pos + length {
        Ok((pos + length) as usize)
    } else {
        Err(ParseError { position: run_end(s, pos, radix as nat) as usize, expected: Expected::Digit(radix) })
    }
}

/// Whether `c` is a sign that is accepted: `-` always, `+` when `plus_sign`.
pub open spec fn is_sign<C: Character>(c: C, plus_sign: bool) -> bool {
    c.code() == 45 || (plus_sign && c.code() == 43)
}

/// The outcome of reading an optional sign at `pos`: the position after it
/// and whether it was a minus.
pub open spec fn after_sign<C: Character>(s: Seq<C>, pos: int, plus_sign: bool) -> (int, bool) {
    if 0 <= pos < s.len() && is_sign(s[pos], plus_sign) {
        (pos + 1, s[pos].code() == 45)
    } else {
        (pos, false)
    }
}

/// A run of digits lies within the input, holds only digits, and stops at
/// the end of the input or before a character that is no digit.
pub proof fn lemma_run_end<C: Character>(s: Seq<C>, i: int, radix: nat)
    requires
        0 <= i <= s.len(),
    ensures
        i <= run_end(s, i, radix) <= s.len(),
        forall|k: int| i <= k < run_end(s, i, radix) ==> is_digit_of(#[trigger] s[k], radix),
        run_end(s, i, radix) == s.len() || !is_digit_of(s[run_end(s, i, radix)], radix),
    decreases s.len() - i,
{
    if i < s.len() && is_digit_of(s[i], radix) {
        lemma_run_end(s, i + 1, radix);
    }
}

/// Whatever a digit matcher accepts is a non-empty run of digits within
/// the input.
pub proof fn lemma_spans<C: Character>(s: Seq<C>, pos: int, length: nat, radix: u8)
    requires
        0 <= pos <= s.len() <= usize::MAX,
    ensures
        canonical_span(s, pos, radix) is Ok ==> {
            let end = canonical_span(s, pos, radix)->Ok_0 as int;
            &&& pos < end <= s.len()
            &&& forall|k: int| pos <= k < end ==> is_digit_of(#[trigger] s[k], radix as nat)
        },
        free_span(s, pos, radix) is Ok ==> {
            let end = free_span(s, pos, radix)->Ok_0 as int;
            &&& pos < end <= s.len()
            &&& forall|k: int| pos <= k < end ==> is_digit_of(#[trigger] s[k], radix as nat)
        },
        fixed_span(s, pos, length, radix) is Ok ==> {
            let end = fixed_span(s, pos, length, radix)->Ok_0 as int;
            &&& end == pos + length <= s.len()
            &&& forall|k: int| pos <= k < end ==> is_digit_of(#[trigger] s[k], radix as nat)
        },
{
    lemma_run_end(s, pos, radix as nat);
    if pos < s.len() {
        lemma_run_end(s, pos + 1, radix as nat);
    }
}

/// A literal that a sign can stand in front of: it is parsed with a flag
/// that says whether its value is to be negated.
pub trait Literal<C: Character, T> {
    /// Whether the configuration is usable (radixes in range and such).
    spec fn well_formed(&self) -> bool;

    /// The outcome of parsing `s` from `pos`, negated when `neg`: the value
    /// and the position after it, or a failure.
    spec fn spec_parse(&self, s: Seq<C>, pos: int, neg: bool) -> Result<(T, usize), ParseError>;

    fn parse(&self, input: &[C], pos: usize, neg: bool) -> (r: Result<(T, usize), ParseError>)
        requires
            self.well_formed(),
            pos <= input@.len(),
        ensures
            r == self.spec_parse(input@, pos as int, neg),
            r is Ok ==> pos < (r->Ok_0).1 <= input@.len(),
    ;
}

/// Parses a digit of `radix` at `pos`.
pub fn digit<C: Character>(input: &[C], pos: usize, radix: u8) -> (r: Result<C, ParseError>)
    requires
        pos <= input@.len(),
        valid_radix(radix as nat),
    ensures
        r == (if pos < input@.len() && is_digit_of(input@[pos as int], radix as nat) {
            Ok::<C, ParseError>(input@[pos as int])
        } else {
            Err(ParseError { position: pos, expected: Expected::Digit(radix) })
        }),
{
    if pos < input.len() && input[pos].is_digit(radix) {
        Ok(input[pos])
    } else {
        Err(ParseError::new(pos, Expected::Digit(radix)))
    }
}

/// Parses a digit of `radix` other than `0` at `pos`.
pub fn non_zero_digit<C: Character>(input: &[C], pos: usize, radix: u8) -> (r: Result<C, ParseError>)
    requires
        pos <= input@.len(),
        valid_radix(radix as nat),
    ensures
        r == (if pos < input@.len() && is_digit_of(input@[pos as int], radix as nat)
            && input@[pos as int].code() != 48 {
            Ok::<C, ParseError>(input@[pos as int])
        } else {
            Err(ParseError { position: pos, expected: Expected::NonZeroDigit(radix) })
        }),
{
    if pos < input.len() && input[pos].is_digit(radix) && !input[pos].eq_byte(ZERO) {
        Ok(input[pos])
    } else {
        Err(ParseError::new(pos, Expected::NonZeroDigit(radix)))
    }
}

/// The end of the run of digits of `radix` that starts at `pos` (`pos`
/// itself when there is none).
pub fn scan_digits<C: Character>(input: &[C], pos: usize, radix: u8) -> (r: usize)
    requires
        pos <= input@.len(),
        valid_radix(radix as nat),
    ensures
        r as int == run_end(input@, pos as int, radix as nat),
{
    let mut i: usize = pos;
    while i < input.len() && input[i].is_digit(radix)
        invariant
            pos <= i <= input@.len(),
            valid_radix(radix as nat),
            run_end(input@, pos as int, radix as nat) == run_end(input@, i as int, radix as nat),
        decreases input@.len() - i,
    {
        i = i + 1;
    }
    i
}

/// Parses digits of `radix` without a leading zero: a lone `0`, or a digit
/// other than `0` followed by any digits. Returns the position after them.
pub fn digits<C: Character>(input: &[C], pos: usize, radix: u8) -> (r: Result<usize, ParseError>)
    requires
        pos <= input@.len(),
        valid_radix(radix as nat),
    ensures
        r == canonical_span(input@, pos as int, radix),
{
    if pos < input.len() && input[pos].is_digit(radix) {
        if input[pos].eq_byte(ZERO) {
            Ok(pos + 1)
        } else {
            Ok(scan_digits(input, pos + 1, radix))
        }
    } else {
        Err(ParseError::new(pos, Expected::Digit(radix)))
    }
}

/// Parses one or more digits of `radix`, leading zeros allowed. Returns the
/// position after them.
pub fn digits_trailing_zeros<C: Character>(input: &[C], pos: usize, radix: u8) -> (r: Result<usize, ParseError>)
    requires
        pos <= input@.len(),
        valid_radix(radix as nat),
    ensures
        r == free_span(input@, pos as int, radix),
{
    if pos < input.len() && input[pos].is_digit(radix) {
        Ok(scan_digits(input, pos, radix))
    } else {
        Err(ParseError::new(pos, Expected::Digit(radix)))
    }
}

/// Parses exactly `length` digits of `radix`. Returns the position after
/// them; fails at the first place within them that holds no digit.
pub fn digits_fixed<C: Character>(input: &[C], pos: usize, length: usize, radix: u8) -> (r: Result<usize, ParseError>)
    requires
        pos <= input@.len(),
        valid_radix(radix as nat),
    ensures
        r == fixed_span(input@, pos as int, length as nat, radix),
{
    proof {
        lemma_run_end(input@, pos as int, radix as nat);
    }
    let len = input.len();
    let mut n: usize = 0;
    while n < length
        invariant
            len == input@.len(),
            pos <= input@.len(),
            valid_radix(radix as nat),
            n <= length,
            pos + n <= run_end(input@, pos as int, radix as nat),
            run_end(input@, pos as int, radix as nat) == run_end(input@, pos + n, radix as nat),
            run_end(input@, pos as int, radix as nat) <= input@.len(),
        decreases length - n,
    {
        let i = pos + n;
        if i < len && input[i].is_digit(radix) {
            proof {
                lemma_run_end(input@, i + 1, radix as nat);
            }
            n = n + 1;
        } else {
            return Err(ParseError::new(i, Expected::Digit(radix)));
        }
    }
    Ok(pos + length)
}

/// Parses a sign at `pos` and tells whether it is a minus. A minus is always
/// accepted, a plus only when `plus_sign`.
pub fn sign<C: Character>(input: &[C], pos: usize, plus_sign: bool) -> (r: Result<bool, ParseError>)
    requires
        pos <= input@.len(),
    ensures
        r == (if pos < input@.len() && is_sign(input@[pos as int], plus_sign) {
            Ok::<bool, ParseError>(input@[pos as int].code() == 45)
        } else {
            Err(ParseError { position: pos, expected: Expected::Sign(plus_sign) })
        }),
{
    if pos < input.len() {
        if input[pos].eq_byte(MINUS) {
            return Ok(true);
        } else if plus_sign && input[pos].eq_byte(PLUS) {
            return Ok(false);
        }
    }
    Err(ParseError::new(pos, Expected::Sign(plus_sign)))
}

/// Parses `literal` after an optional sign: a minus negates it, and a plus
/// (accepted only when `plus_sign`) leaves it as it is.
pub fn signed<C: Character, T, L: Literal<C, T>>(literal: &L, input: &[C], pos: usize, plus_sign: bool) -> (r: Result<(T, usize), ParseError>)
    requires
        literal.well_formed(),
        pos <= input@.len(),
    ensures
        r == literal.spec_parse(
            input@,
            after_sign(input@, pos as int, plus_sign).0,
            after_sign(input@, pos as int, plus_sign).1,
        ),
        r is Ok ==> pos < (r->Ok_0).1 <= input@.len(),
{
    if pos < input.len() {
        if let Ok(neg) = sign(input, pos, plus_sign) {
            return literal.parse(input, pos + 1, neg);
        }
    }
    literal.parse(input, pos, false)
}

/// Parses `literal` with no sign in front of it.
pub fn unsigned<C: Character, T, L: Literal<C, T>>(literal: &L, input: &[C], pos: usize) -> (r: Result<(T, usize), ParseError>)
    requires
        literal.well_formed(),
        pos <= input@.len(),
    ensures
        r == literal.spec_parse(input@, pos as int, false),
        r is Ok ==> pos < (r->Ok_0).1 <= input@.len(),
{
    literal.parse(input, pos, false)
}

/// Parses the whole of `input` as `literal` after an optional sign.
pub fn parse_complete<C: Character, T, L: Literal<C, T>>(literal: &L, input: &[C], plus_sign: bool) -> (r: Result<T, ParseError>)
    requires
        literal.well_formed(),
    ensures
        r == complete(
            literal.spec_parse(input@, after_sign(input@, 0, plus_sign).0, after_sign(input@, 0, plus_sign).1),
            input@.len() as int,
        ),
{
    finish(signed(literal, input, 0, plus_sign), input.len())
}

} // verus!
