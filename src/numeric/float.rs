//! Decimal floating-point literals, read into a mantissa and a power of ten.
use vstd::prelude::*;

use crate::character::{Character, DECIMAL_POINT, LOWER_E, UPPER_E};
use crate::error::ParseError;
use crate::character::is_digit_of;
use crate::numeric::integer::{
    all_digits, digits_value, fold_digits, fold_spec, lemma_fold_concat, lemma_fold_overflow,
    lemma_digits_value_bounds, lemma_fold_sound, lemma_fold_sticky,
};
use crate::numeric::{
    after_sign, canonical_span, digits, digits_trailing_zeros, free_span, lemma_spans, sign, Literal,
};

verus! {

/// `v`, clamped to the range of `i32`.
pub open spec fn saturate_i32(v: int) -> int {
    if v < i32::MIN {
        i32::MIN as int
    } else if v > i32::MAX {
        i32::MAX as int
    } else {
        v
    }
}

/// The end of a fraction (a `.` and at least one digit) at `e1`, if one
/// stands there.
pub open spec fn fraction_end<C: Character>(s: Seq<C>, e1: int) -> Option<int> {
    if 0 <= e1 < s.len() && s[e1].code() == 46 && free_span(s, e1 + 1, 10) is Ok {
        Some(free_span(s, e1 + 1, 10)->Ok_0 as int)
    } else {
        None
    }
}

/// The digits of the integer part at `pos` and of the fraction after it,
/// as one run.
pub open spec fn mantissa_digits<C: Character>(s: Seq<C>, pos: int) -> Seq<C> {
    let e1 = canonical_span(s, pos, 10)->Ok_0 as int;
    match fraction_end(s, e1) {
        Some(e2) => s.subrange(pos, e1) + s.subrange(e1 + 1, e2),
        None => s.subrange(pos, e1),
    }
}

/// The number of fraction digits after the integer part at `pos`.
pub open spec fn fraction_len<C: Character>(s: Seq<C>, pos: int) -> nat {
    let e1 = canonical_span(s, pos, 10)->Ok_0 as int;
    match fraction_end(s, e1) {
        Some(e2) => (e2 - e1 - 1) as nat,
        None => 0,
    }
}

/// The position after the integer part at `pos` and its fraction.
pub open spec fn mantissa_end<C: Character>(s: Seq<C>, pos: int) -> int {
    let e1 = canonical_span(s, pos, 10)->Ok_0 as int;
    match fraction_end(s, e1) {
        Some(e2) => e2,
        None => e1,
    }
}

/// Reading the integer part and an optional fraction at `pos`: the mantissa
/// reached, the number of fraction digits taken into it, whether it
/// overflowed, and the position after what was read. A fraction is a `.`
/// followed by at least one digit; it is not read after an integer part
/// that already overflowed.
pub open spec fn mantissa_spec<C: Character>(s: Seq<C>, pos: int) -> Result<(int, nat, bool, int), ParseError> {
    match canonical_span(s, pos, 10) {
        Err(e) => Err(e),
        Ok(e1) => {
            let whole = fold_spec::<u64, C>(0, s.subrange(pos, e1 as int), 10, false);
            if whole.2 {
                Ok((whole.0, 0, true, e1 as int))
            } else {
                match fraction_end(s, e1 as int) {
                    Some(e2) => {
                        let all = fold_spec::<u64, C>(whole.0, s.subrange(e1 + 1, e2), 10, false);
                        Ok((all.0, all.1, all.2, e2))
                    },
                    None => Ok((whole.0, 0, false, e1 as int)),
                }
            }
        }
    }
}

/// Reading an optional exponent at `q`: `e` or `E`, an optional sign (plus
/// or minus) and at least one digit. Gives the value reached, whether it
/// overflowed `i32`, whether it was negative, and the position after it.
/// Without a complete exponent nothing is read.
pub open spec fn exponent_spec<C: Character>(s: Seq<C>, q: int) -> (int, bool, bool, int) {
    if 0 <= q < s.len() && (s[q].code() == 101 || s[q].code() == 69) {
        let p = after_sign(s, q + 1, true).0;
        let neg = after_sign(s, q + 1, true).1;
        match free_span(s, p, 10) {
            Ok(e3) => {
                let f = fold_spec::<i32, C>(0, s.subrange(p, e3 as int), 10, neg);
                (f.0, f.2, neg, e3 as int)
            },
            Err(_) => (0, false, false, q),
        }
    } else {
        (0, false, false, q)
    }
}

/// What [`float_parts`] returns: the mantissa (`u64::MAX` after an
/// overflow), the power of ten, and the position after the literal. The
/// power is the exponent less the number of fraction digits, clamped to
/// `i32`; an exponent that itself overflowed gives `i32::MIN` when it was
/// negative and `i32::MAX` otherwise.
pub open spec fn float_spec<C: Character>(s: Seq<C>, pos: int) -> Result<(u64, i32, usize), ParseError> {
    match mantissa_spec(s, pos) {
        Err(e) => Err(e),
        Ok(m) => {
            let x = exponent_spec(s, m.3);
            let mantissa = if m.2 {
                u64::MAX as int
            } else {
                m.0
            };
            let exponent = if x.1 {
                if x.2 {
                    i32::MIN as int
                } else {
                    i32::MAX as int
                }
            } else {
                saturate_i32(x.0 - m.1)
            };
            Ok((mantissa as u64, exponent as i32, x.3 as usize))
        },
    }
}

/// Parses a decimal floating-point literal at `pos`: an integer part without
/// leading zeros, an optional fraction and an optional exponent. Returns the
/// mantissa, the power of ten it is to be scaled by, and the position after
/// the literal.
pub fn float_parts<C: Character>(input: &[C], pos: usize) -> (r: Result<(u64, i32, usize), ParseError>)
    requires
        pos <= input@.len(),
    ensures
        r == float_spec(input@, pos as int),
        r is Ok ==> pos < (r->Ok_0).2 <= input@.len(),
{
    let len = input.len();
    proof {
        lemma_spans(input@, pos as int, 0, 10);
    }
    let e1 = match digits(input, pos, 10) {
        Ok(e) => e,
        Err(e) => return Err(e),
    };
    let (whole, _, whole_overflowed) = fold_digits::<u64, C>(input, pos, e1, 0, 10, false);
    let mut mantissa = whole;
    let mut count: usize = 0;
    let mut overflowed = whole_overflowed;
    let mut q = e1;
    if !whole_overflowed && e1 < len && input[e1].eq_byte(DECIMAL_POINT) {
        proof {
            lemma_spans(input@, e1 + 1, 0, 10);
        }
        if let Ok(e2) = digits_trailing_zeros(input, e1 + 1, 10) {
            let (all, n, o) = fold_digits::<u64, C>(input, e1 + 1, e2, whole, 10, false);
            mantissa = all;
            count = n;
            overflowed = o;
            q = e2;
        }
    }
    let mut exp_value: i32 = 0;
    let mut exp_overflowed = false;
    let mut exp_negative = false;
    let mut end = q;
    if q < len && (input[q].eq_byte(LOWER_E) || input[q].eq_byte(UPPER_E)) {
        let mut p = q + 1;
        let mut neg = false;
        if p < len {
            if let Ok(n) = sign(input, p, true) {
                neg = n;
                p = p + 1;
            }
        }
        proof {
            lemma_spans(input@, p as int, 0, 10);
        }
        if let Ok(e3) = digits_trailing_zeros(input, p, 10) {
            let (v, _, o) = fold_digits::<i32, C>(input, p, e3, 0, 10, neg);
            exp_value = v;
            exp_overflowed = o;
            exp_negative = neg;
            end = e3;
        }
    }
    let m = if overflowed {
        u64::MAX
    } else {
        mantissa
    };
    let exponent = if exp_overflowed {
        if exp_negative {
            i32::MIN
        } else {
            i32::MAX
        }
    } else {
        let diff: i128 = exp_value as i128 - count as i128;
        if diff < i32::MIN as i128 {
            i32::MIN
        } else if diff > i32::MAX as i128 {
            i32::MAX
        } else {
            diff as i32
        }
    };
    Ok((m, exponent, end))
}

/// Fraction digits extend the mantissa: when the digits of the integer part
/// and of the fraction, read as one number, fit `u64`, the mantissa is that
/// number, and each fraction digit takes one off the power of ten.
pub proof fn lemma_float_mantissa<C: Character>(s: Seq<C>, pos: int)
    requires
        0 <= pos <= s.len() <= usize::MAX,
        canonical_span(s, pos, 10) is Ok,
        digits_value(mantissa_digits(s, pos), 10) <= u64::MAX,
    ensures
        mantissa_spec(s, pos) == Ok::<(int, nat, bool, int), ParseError>(
            (digits_value(mantissa_digits(s, pos), 10), fraction_len(s, pos), false, mantissa_end(s, pos)),
        ),
        float_spec(s, pos) is Ok,
        (float_spec(s, pos)->Ok_0).0 as int == digits_value(mantissa_digits(s, pos), 10),
        !exponent_spec(s, mantissa_end(s, pos)).1 ==> (float_spec(s, pos)->Ok_0).1 as int
            == saturate_i32(exponent_spec(s, mantissa_end(s, pos)).0 - fraction_len(s, pos)),
{
    lemma_spans(s, pos, 0, 10);
    let e1 = canonical_span(s, pos, 10)->Ok_0 as int;
    let a = s.subrange(pos, e1);
    assert(all_digits(a, 10)) by {
        assert forall|k: int| 0 <= k < a.len() implies is_digit_of(#[trigger] a[k], 10) by {
            assert(a[k] == s[pos + k]);
        }
    }
    match fraction_end(s, e1) {
        Some(e2) => {
            lemma_spans(s, e1 + 1, 0, 10);
            let b = s.subrange(e1 + 1, e2);
            assert(all_digits(b, 10)) by {
                assert forall|k: int| 0 <= k < b.len() implies is_digit_of(#[trigger] b[k], 10) by {
                    assert(b[k] == s[e1 + 1 + k]);
                }
            }
            assert(all_digits(a + b, 10)) by {
                assert forall|k: int| 0 <= k < (a + b).len() implies is_digit_of(#[trigger] (a + b)[k], 10) by {
                    if k < a.len() {
                        assert((a + b)[k] == a[k]);
                    } else {
                        assert((a + b)[k] == b[k - a.len()]);
                    }
                }
            }
            lemma_digits_value_bounds(a + b, 10);
            lemma_fold_overflow::<u64, C>(a + b, 10, false);
            lemma_fold_sound::<u64, C>(a + b, 10, false);
            lemma_fold_sound::<u64, C>(a, 10, false);
            lemma_fold_sticky::<u64, C>(0, a, b, 10, false);
            lemma_fold_concat::<u64, C>(0, a, b, 10, false);
        },
        None => {
            lemma_digits_value_bounds(a, 10);
            lemma_fold_overflow::<u64, C>(a, 10, false);
            lemma_fold_sound::<u64, C>(a, 10, false);
        },
    }
}

/// The parts of a decimal floating-point literal: its value is
/// `(-1 if negative) * mantissa * 10^exponent`.
#[derive(Clone, Copy, Debug, PartialEq, Eq, Structural)]
pub struct FloatParts {
    pub negative: bool,
    pub mantissa: u64,
    pub exponent: i32,
}

/// What [`float`] returns: the parts of the literal at `pos`, negative when
/// `neg`, and the position after it.
pub open spec fn float_literal_spec<C: Character>(s: Seq<C>, pos: int, neg: bool) -> Result<(FloatParts, usize), ParseError> {
    match float_spec(s, pos) {
        Ok(f) => Ok((FloatParts { negative: neg, mantissa: f.0, exponent: f.1 }, f.2)),
        Err(e) => Err(e),
    }
}

/// Parses a decimal floating-point literal at `pos` into its parts, negative
/// when `neg`. Infinities and NaNs are not literals.
pub fn float<C: Character>(input: &[C], pos: usize, neg: bool) -> (r: Result<(FloatParts, usize), ParseError>)
    requires
        pos <= input@.len(),
    ensures
        r == float_literal_spec(input@, pos as int, neg),
        r is Ok ==> pos < (r->Ok_0).1 <= input@.len(),
{
    match float_parts(input, pos) {
        Ok((mantissa, exponent, end)) => Ok((FloatParts { negative: neg, mantissa, exponent }, end)),
        Err(e) => Err(e),
    }
}

/// The decimal floating-point literal of [`float`], as a [`Literal`] that a
/// sign can stand in front of.
#[derive(Clone, Copy, Debug)]
pub struct FloatLiteral;

impl<C: Character> Literal<C, FloatParts> for FloatLiteral {
    open spec fn well_formed(&self) -> bool {
        true
    }

    open spec fn spec_parse(&self, s: Seq<C>, pos: int, neg: bool) -> Result<(FloatParts, usize), ParseError> {
        float_literal_spec(s, pos, neg)
    }

    fn parse(&self, input: &[C], pos: usize, neg: bool) -> (r: Result<(FloatParts, usize), ParseError>) {
        float(input, pos, neg)
    }
}

} // verus!
