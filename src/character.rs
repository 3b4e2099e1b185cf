//! Character classes over character-like values (`char`, `u8`).
use vstd::prelude::*;

use crate::error::{Expected, ParseError};

verus! {

/// ASCII code of `0`.
pub const ZERO: u8 = 48;

/// ASCII code of `-`.
pub const MINUS: u8 = 45;

/// ASCII code of `+`.
pub const PLUS: u8 = 43;

/// ASCII code of `.`.
pub const DECIMAL_POINT: u8 = 46;

/// ASCII code of `e`.
pub const LOWER_E: u8 = 101;

/// ASCII code of `E`.
pub const UPPER_E: u8 = 69;

/// ASCII code of `_`.
pub const UNDERSCORE: u8 = 95;

/// The value of an ASCII alphanumeric code as a digit of the largest radix:
/// `0`-`9` are 0-9, `A`-`Z` and `a`-`z` are 10-35.
pub open spec fn alnum_value(code: nat) -> Option<nat> {
    if 48 <= code <= 57 {
        Some((code - 48) as nat)
    } else if 65 <= code <= 90 {
        Some((code - 55) as nat)
    } else if 97 <= code <= 122 {
        Some((code - 87) as nat)
    } else {
        None
    }
}

/// The digit that `code` stands for under `radix`, if it is one.
pub open spec fn digit_value(code: nat, radix: nat) -> Option<nat> {
    if alnum_value(code) is Some && alnum_value(code)->0 < radix {
        alnum_value(code)
    } else {
        None
    }
}

/// Whether `code` is an ASCII letter.
pub open spec fn is_letter_code(code: nat) -> bool {
    (65 <= code <= 90) || (97 <= code <= 122)
}

/// Whether `radix` is one that digits can be read in: 2 to 36.
pub open spec fn valid_radix(radix: nat) -> bool {
    2 <= radix <= 36
}

/// Whether `c` is a digit of `radix`.
pub open spec fn is_digit_of<C: Character>(c: C, radix: nat) -> bool {
    digit_value(c.code(), radix) is Some
}

/// The digit that `c` stands for under `radix` (meaningful when it is one).
pub open spec fn digit_of<C: Character>(c: C, radix: nat) -> nat {
    digit_value(c.code(), radix)->0
}

/// A character-like value whose code can be tested against ASCII classes.
pub trait Character: Copy {
    /// The code of the character (its Unicode scalar value, or the byte).
    spec fn code(&self) -> nat;

    /// Whether the character is the ASCII character `byte`.
    fn eq_byte(&self, byte: u8) -> (r: bool)
        ensures
            r == (self.code() == byte as nat),
    ;

    /// Whether the character is an ASCII letter.
    fn is_letter(&self) -> (r: bool)
        ensures
            r == is_letter_code(self.code()),
    ;

    /// Whether the character is a digit of `radix`.
    fn is_digit(&self, radix: u8) -> (r: bool)
        requires
            valid_radix(radix as nat),
        ensures
            r == (digit_value(self.code(), radix as nat) is Some),
    ;

    /// The digit that the character stands for under `radix`, if any.
    fn to_digit(&self, radix: u8) -> (r: Option<u8>)
        requires
            valid_radix(radix as nat),
        ensures
            r is Some == (digit_value(self.code(), radix as nat) is Some),
            r is Some ==> digit_value(self.code(), radix as nat) == Some(r->0 as nat),
    ;
}

/// The digit that `code` stands for under `radix`.
fn code_to_digit(code: u32, radix: u8) -> (r: Option<u8>)
    requires
        valid_radix(radix as nat),
    ensures
        r is Some == (digit_value(code as nat, radix as nat) is Some),
        r is Some ==> digit_value(code as nat, radix as nat) == Some(r->0 as nat),
{
    let d: u32 = if 48 <= code && code <= 57 {
        code - 48
    } else if 65 <= code && code <= 90 {
        code - 55
    } else if 97 <= code && code <= 122 {
        code - 87
    } else {
        return None;
    };
    if d < radix as u32 {
        Some(d as u8)
    } else {
        None
    }
}

fn code_is_letter(code: u32) -> (r: bool)
    ensures
        r == is_letter_code(code as nat),
{
    (65 <= code && code <= 90) || (97 <= code && code <= 122)
}

impl Character for char {
    open spec fn code(&self) -> nat {
        (*self as u32) as nat
    }

    fn eq_byte(&self, byte: u8) -> (r: bool) {
        *self as u32 == byte as u32
    }

    fn is_letter(&self) -> (r: bool) {
        code_is_letter(*self as u32)
    }

    fn is_digit(&self, radix: u8) -> (r: bool) {
        code_to_digit(*self as u32, radix).is_some()
    }

    fn to_digit(&self, radix: u8) -> (r: Option<u8>) {
        code_to_digit(*self as u32, radix)
    }
}

impl Character for u8 {
    open spec fn code(&self) -> nat {
        *self as nat
    }

    fn eq_byte(&self, byte: u8) -> (r: bool) {
        *self == byte
    }

    fn is_letter(&self) -> (r: bool) {
        code_is_letter(*self as u32)
    }

    fn is_digit(&self, radix: u8) -> (r: bool) {
        code_to_digit(*self as u32, radix).is_some()
    }

    fn to_digit(&self, radix: u8) -> (r: Option<u8>) {
        code_to_digit(*self as u32, radix)
    }
}

/// Parses the ASCII character `byte` at `pos`; on success the parser stands
/// at `pos + 1`.
pub fn character<C: Character>(input: &[C], pos: usize, byte: u8) -> (r: Result<usize, ParseError>)
    requires
        pos <= input@.len(),
        byte < 128,
    ensures
        r == (if pos < input@.len() && input@[pos as int].code() == byte as nat {
            Ok::<usize, ParseError>((pos + 1) as usize)
        } else {
            Err(ParseError { position: pos, expected: Expected::Character(byte) })
        }),
{
    if pos < input.len() && input[pos].eq_byte(byte) {
        Ok(pos + 1)
    } else {
        Err(ParseError::new(pos, Expected::Character(byte)))
    }
}

} // verus!
