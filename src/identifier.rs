//! Identifiers: a first character of one class, then any number of
//! characters of another.
use vstd::prelude::*;

use crate::character::{is_letter_code, Character, UNDERSCORE};
use crate::error::{Expected, ParseError};

verus! {

/// A class of ASCII characters: the letters, the decimal digits, and any
/// other characters listed.
#[derive(Debug)]
pub struct CharClass {
    pub letters: bool,
    pub digits: bool,
    pub others: Vec<u8>,
}

pub open spec fn in_class<C: Character>(cls: CharClass, c: C) -> bool {
    ||| cls.letters && is_letter_code(c.code())
    ||| cls.digits && 48 <= c.code() <= 57
    ||| exists|j: int| 0 <= j < cls.others@.len() && #[trigger] cls.others@[j] as nat == c.code()
}

/// The end of the longest run from `i` of characters that satisfy `p`.
pub open spec fn run_while<C>(s: Seq<C>, i: int, p: spec_fn(C) -> bool) -> int
    decreases s.len() - i,
{
    if 0 <= i < s.len() && p(s[i]) {
        run_while(s, i + 1, p)
    } else {
        i
    }
}

/// What [`identifier`] returns: the characters of the identifier at `pos`
/// and the position after it, or a failure at `pos`.
pub open spec fn identifier_spec<C: Character>(s: Seq<C>, pos: int, start: spec_fn(C) -> bool, rest: spec_fn(C) -> bool) -> Result<(Seq<C>, int), ParseError> {
    if 0 <= pos < s.len() && start(s[pos]) {
        let end = run_while(s, pos + 1, rest);
        Ok((s.subrange(pos, end), end))
    } else {
        Err(ParseError { position: pos as usize, expected: Expected::Identifier })
    }
}

/// Whether `c` can start a standard identifier: an ASCII letter.
pub open spec fn standard_start<C: Character>(c: C) -> bool {
    is_letter_code(c.code())
}

/// Whether `c` can continue a standard identifier: an ASCII letter, a
/// decimal digit or `_`.
pub open spec fn standard_rest<C: Character>(c: C) -> bool {
    is_letter_code(c.code()) || (48 <= c.code() <= 57) || c.code() == 95
}

fn class_contains<C: Character>(cls: &CharClass, c: &C) -> (r: bool)
    ensures
        r == in_class(*cls, *c),
{
    if cls.letters && c.is_letter() {
        return true;
    }
    if cls.digits && c.is_digit(10) {
        return true;
    }
    let mut j: usize = 0;
    while j < cls.others.len()
        invariant
            j <= cls.others@.len(),
            !(cls.letters && is_letter_code(c.code())),
            !(cls.digits && 48 <= c.code() <= 57),
            forall|i: int| 0 <= i < j ==> cls.others@[i] as nat != c.code(),
        decreases cls.others@.len() - j,
    {
        if c.eq_byte(cls.others[j]) {
            return true;
        }
        j = j + 1;
    }
    false
}

/// Parses an identifier at `pos`: one character of `start`, then any number
/// of characters of `rest`. Returns its characters and the position after it.
pub fn identifier<C: Character>(input: &[C], pos: usize, start: &CharClass, rest: &CharClass) -> (r: Result<(Vec<C>, usize), ParseError>)
    requires
        pos <= input@.len(),
    ensures
        match identifier_spec(input@, pos as int, |c: C| in_class(*start, c), |c: C| in_class(*rest, c)) {
            Ok((text, end)) => r is Ok && (r->Ok_0).0@ == text && (r->Ok_0).1 == end,
            Err(e) => r == Err::<(Vec<C>, usize), ParseError>(e),
        },
{
    let ghost p = |c: C| in_class(*rest, c);
    if pos >= input.len() || !class_contains(start, &input[pos]) {
        return Err(ParseError::new(pos, Expected::Identifier));
    }
    let mut text: Vec<C> = Vec::new();
    text.push(input[pos]);
    let mut i = pos + 1;
    proof {
        assert(text@ =~= input@.subrange(pos as int, i as int));
    }
    while i < input.len() && class_contains(rest, &input[i])
        invariant
            pos < i <= input@.len(),
            text@ == input@.subrange(pos as int, i as int),
            run_while(input@, pos + 1, p) == run_while(input@, i as int, p),
            p == (|c: C| in_class(*rest, c)),
        decreases input@.len() - i,
    {
        text.push(input[i]);
        i = i + 1;
        proof {
            assert(text@ =~= input@.subrange(pos as int, i as int));
        }
    }
    Ok((text, i))
}

/// Parses a standard identifier at `pos`: an ASCII letter, then any number
/// of ASCII letters, decimal digits and `_`.
pub fn standard_identifier<C: Character>(input: &[C], pos: usize) -> (r: Result<(Vec<C>, usize), ParseError>)
    requires
        pos <= input@.len(),
    ensures
        match identifier_spec(input@, pos as int, |c: C| standard_start(c), |c: C| standard_rest(c)) {
            Ok((text, end)) => r is Ok && (r->Ok_0).0@ == text && (r->Ok_0).1 == end,
            Err(e) => r == Err::<(Vec<C>, usize), ParseError>(e),
        },
{
    let start = CharClass { letters: true, digits: false, others: Vec::new() };
    let rest = CharClass { letters: true, digits: true, others: vec![UNDERSCORE] };
    proof {
        assert((|c: C| in_class(start, c)) =~= (|c: C| standard_start(c)));
        assert forall|c: C| in_class(rest, c) == standard_rest(c) by {
            if c.code() == 95 {
                assert(rest.others@[0] as nat == c.code());
            }
        }
        assert((|c: C| in_class(rest, c)) =~= (|c: C| standard_rest(c)));
    }
    identifier(input, pos, &start, &rest)
}

} // verus!
