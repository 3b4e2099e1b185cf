//! Integers: accumulation of digits with sticky overflow, and the parsers
//! built on it.
use vstd::prelude::*;

use crate::character::{digit_of, is_digit_of, valid_radix, Character};
use crate::error::{Expected, ParseError};
use crate::numeric::checked::CheckedInteger;
use crate::numeric::{
    canonical_span, digits, digits_fixed, digits_trailing_zeros, fixed_span, free_span, lemma_spans,
    Literal,
};

verus! {

/// Whether `v` lies in the range of `N`.
pub open spec fn fits<N: CheckedInteger>(v: int) -> bool {
    N::min_int() <= v <= N::max_int()
}

/// `d`, negated when `neg`.
pub open spec fn with_sign(d: int, neg: bool) -> int {
    if neg {
        -d
    } else {
        d
    }
}

/// The value of a run of digits of `radix`, most significant first.
pub open spec fn digits_value<C: Character>(ds: Seq<C>, radix: nat) -> int
    decreases ds.len(),
{
    if ds.len() == 0 {
        0
    } else {
        digits_value(ds.drop_last(), radix) * radix + digit_of(ds.last(), radix)
    }
}

/// Whether `acc * radix + (±d)` can be computed in `N` with checked steps:
/// the product, the digit, the signed digit and the sum all fit.
pub open spec fn step_fits<N: CheckedInteger>(acc: int, d: nat, radix: nat, neg: bool) -> bool {
    &&& fits::<N>(acc * radix)
    &&& fits::<N>(d as int)
    &&& fits::<N>(with_sign(d as int, neg))
    &&& fits::<N>(acc * radix + with_sign(d as int, neg))
}

/// Accumulating the digits `ds` into `acc` in `N`: the value reached, the
/// number of digits taken into it, and whether it overflowed. Overflow is
/// sticky: once set, the value and count stay as they were. A radix that
/// `N` cannot hold overflows before any digit.
pub open spec fn fold_spec<N: CheckedInteger, C: Character>(acc: int, ds: Seq<C>, radix: nat, neg: bool) -> (int, nat, bool)
    decreases ds.len(),
{
    if ds.len() == 0 {
        (acc, 0, !fits::<N>(radix as int))
    } else {
        let prev = fold_spec::<N, C>(acc, ds.drop_last(), radix, neg);
        let d = digit_of(ds.last(), radix);
        if prev.2 {
            prev
        } else if step_fits::<N>(prev.0, d, radix, neg) {
            (prev.0 * radix + with_sign(d as int, neg), prev.1 + 1, false)
        } else {
            (prev.0, prev.1, true)
        }
    }
}

/// Whether every character of `ds` is a digit of `radix`.
pub open spec fn all_digits<C: Character>(ds: Seq<C>, radix: nat) -> bool {
    forall|k: int| 0 <= k < ds.len() ==> is_digit_of(#[trigger] ds[k], radix)
}

/// The value of a run of digits is not negative, and it is at least the
/// value of any run that it extends by one digit.
pub proof fn lemma_digits_value_bounds<C: Character>(ds: Seq<C>, radix: nat)
    requires
        valid_radix(radix),
        all_digits(ds, radix),
    ensures
        0 <= digits_value(ds, radix),
        ds.len() > 0 ==> digits_value(ds.drop_last(), radix) <= digits_value(ds, radix),
        ds.len() > 0 ==> digit_of(ds.last(), radix) <= digits_value(ds, radix),
        ds.len() > 0 ==> digit_of(ds.last(), radix) < radix,
        ds.len() > 0 ==> digits_value(ds.drop_last(), radix) * radix <= digits_value(ds, radix),
    decreases ds.len(),
{
    if ds.len() > 0 {
        let pre = ds.drop_last();
        assert(all_digits(pre, radix)) by {
            assert forall|k: int| 0 <= k < pre.len() implies is_digit_of(#[trigger] pre[k], radix) by {
                assert(pre[k] == ds[k]);
            }
        }
        assert(is_digit_of(ds[ds.len() - 1], radix));
        lemma_digits_value_bounds(pre, radix);
        let v = digits_value(pre, radix);
        assert(v * radix >= v) by (nonlinear_arith)
            requires
                v >= 0,
                radix >= 2,
        ;
    }
}

/// Accumulating digits from zero never loses track of the number: when it
/// does not overflow, the value is the digits' value with its sign.
pub proof fn lemma_fold_sound<N: CheckedInteger, C: Character>(ds: Seq<C>, radix: nat, neg: bool)
    requires
        valid_radix(radix),
        all_digits(ds, radix),
    ensures
        !fold_spec::<N, C>(0, ds, radix, neg).2 ==> fold_spec::<N, C>(0, ds, radix, neg).0
            == with_sign(digits_value(ds, radix), neg),
        !fold_spec::<N, C>(0, ds, radix, neg).2 ==> fold_spec::<N, C>(0, ds, radix, neg).1
            == ds.len(),
        !fold_spec::<N, C>(0, ds, radix, neg).2 ==> fits::<N>(with_sign(digits_value(ds, radix), neg)),
    decreases ds.len(),
{
    N::lemma_bounds();
    if ds.len() > 0 {
        let pre = ds.drop_last();
        assert(all_digits(pre, radix)) by {
            assert forall|k: int| 0 <= k < pre.len() implies is_digit_of(#[trigger] pre[k], radix) by {
                assert(pre[k] == ds[k]);
            }
        }
        lemma_fold_sound::<N, C>(pre, radix, neg);
        let v = digits_value(pre, radix);
        let r = radix as int;
        assert(with_sign(v, neg) * r == with_sign(v * r, neg)) by (nonlinear_arith);
    }
}

/// Accumulating digits from zero is exact on every number that `N` holds:
/// no overflow, every digit taken, and the digits' value with its sign.
pub proof fn lemma_fold_exact<N: CheckedInteger, C: Character>(ds: Seq<C>, radix: nat, neg: bool)
    requires
        valid_radix(radix),
        all_digits(ds, radix),
        fits::<N>(with_sign(digits_value(ds, radix), neg)),
    ensures
        fold_spec::<N, C>(0, ds, radix, neg) == (with_sign(digits_value(ds, radix), neg), ds.len(), false),
    decreases ds.len(),
{
    N::lemma_bounds();
    lemma_digits_value_bounds(ds, radix);
    if ds.len() > 0 {
        let pre = ds.drop_last();
        assert(all_digits(pre, radix)) by {
            assert forall|k: int| 0 <= k < pre.len() implies is_digit_of(#[trigger] pre[k], radix) by {
                assert(pre[k] == ds[k]);
            }
        }
        lemma_digits_value_bounds(pre, radix);
        lemma_fold_exact::<N, C>(pre, radix, neg);
        let v = digits_value(pre, radix);
        let r = radix as int;
        assert(with_sign(v, neg) * r == with_sign(v * r, neg)) by (nonlinear_arith);
    }
}

/// Whether accumulating `ds` into `acc` overflowed tells whether `radix`
/// fits `N`, and overflow is never undone by more digits: the value and
/// count stay where it happened.
pub proof fn lemma_fold_sticky<N: CheckedInteger, C: Character>(acc: int, a: Seq<C>, b: Seq<C>, radix: nat, neg: bool)
    ensures
        !fold_spec::<N, C>(acc, a, radix, neg).2 ==> fits::<N>(radix as int),
        fold_spec::<N, C>(acc, a, radix, neg).2 ==> fold_spec::<N, C>(acc, a + b, radix, neg)
            == fold_spec::<N, C>(acc, a, radix, neg),
    decreases a.len() + b.len(),
{
    if a.len() > 0 {
        lemma_fold_sticky::<N, C>(acc, a.drop_last(), Seq::empty(), radix, neg);
    }
    if b.len() == 0 {
        assert(a + b =~= a);
    } else {
        assert((a + b).drop_last() =~= a + b.drop_last());
        lemma_fold_sticky::<N, C>(acc, a, b.drop_last(), radix, neg);
    }
}

/// Accumulating `a + b` is accumulating `a`, then `b` from where `a` left
/// off, as long as `a` did not overflow.
pub proof fn lemma_fold_concat<N: CheckedInteger, C: Character>(acc: int, a: Seq<C>, b: Seq<C>, radix: nat, neg: bool)
    requires
        !fold_spec::<N, C>(acc, a, radix, neg).2,
    ensures
        ({
            let first = fold_spec::<N, C>(acc, a, radix, neg);
            let second = fold_spec::<N, C>(first.0, b, radix, neg);
            fold_spec::<N, C>(acc, a + b, radix, neg) == (second.0, first.1 + second.1, second.2)
        }),
    decreases b.len(),
{
    lemma_fold_sticky::<N, C>(acc, a, Seq::empty(), radix, neg);
    if b.len() == 0 {
        assert(a + b =~= a);
    } else {
        assert((a + b).drop_last() =~= a + b.drop_last());
        assert((a + b).last() == b.last());
        lemma_fold_concat::<N, C>(acc, a, b.drop_last(), radix, neg);
    }
}

/// Overflow happens exactly on the numbers that `N` does not hold.
pub proof fn lemma_fold_overflow<N: CheckedInteger, C: Character>(ds: Seq<C>, radix: nat, neg: bool)
    requires
        valid_radix(radix),
        all_digits(ds, radix),
    ensures
        fold_spec::<N, C>(0, ds, radix, neg).2 == !fits::<N>(with_sign(digits_value(ds, radix), neg)),
{
    lemma_fold_sound::<N, C>(ds, radix, neg);
    if fits::<N>(with_sign(digits_value(ds, radix), neg)) {
        lemma_fold_exact::<N, C>(ds, radix, neg);
    }
}

/// One step of accumulation: `acc * radix + (±d)`, or `None` where a
/// checked operation leaves the range of `N`.
fn step<N: CheckedInteger>(acc: &N, n_radix: &N, d: u8, neg: bool) -> (r: Option<N>)
    requires
        n_radix.as_int() >= 2,
    ensures
        r is Some == step_fits::<N>(acc.as_int(), d as nat, n_radix.as_int() as nat, neg),
        r is Some ==> r->0.as_int() == acc.as_int() * n_radix.as_int() + with_sign(d as int, neg),
{
    proof {
        N::lemma_bounds();
    }
    let product = match acc.mul_checked(n_radix) {
        Some(p) => p,
        None => return None,
    };
    let digit = match N::from_small(d) {
        Some(x) => x,
        None => return None,
    };
    let signed_digit = if neg {
        match digit.neg_checked() {
            Some(x) => x,
            None => return None,
        }
    } else {
        digit
    };
    product.add_checked(&signed_digit)
}

/// Accumulates the digits of `input[start..end]` into `acc` under `radix`,
/// negating each digit when `neg`. Returns the value reached, the number of
/// digits taken into it and whether it overflowed; after an overflow the
/// remaining digits are passed over.
pub fn fold_digits<N: CheckedInteger, C: Character>(
    input: &[C],
    start: usize,
    end: usize,
    acc: N,
    radix: u8,
    neg: bool,
) -> (r: (N, usize, bool))
    requires
        start <= end <= input@.len(),
        valid_radix(radix as nat),
        all_digits(input@.subrange(start as int, end as int), radix as nat),
    ensures
        (r.0.as_int(), r.1 as nat, r.2) == fold_spec::<N, C>(
            acc.as_int(),
            input@.subrange(start as int, end as int),
            radix as nat,
            neg,
        ),
{
    proof {
        N::lemma_bounds();
    }
    let n_radix = N::from_small(radix);
    let mut value = acc;
    let mut count: usize = 0;
    let mut overflowed = n_radix.is_none();
    let mut i = start;
    proof {
        assert(input@.subrange(start as int, start as int) =~= Seq::<C>::empty());
    }
    while i < end
        invariant
            start <= i <= end <= input@.len(),
            valid_radix(radix as nat),
            all_digits(input@.subrange(start as int, end as int), radix as nat),
            N::min_int() <= 0,
            n_radix is Some == fits::<N>(radix as int),
            n_radix is Some ==> n_radix->0.as_int() == radix as int,
            n_radix is None ==> overflowed,
            count <= i - start,
            (value.as_int(), count as nat, overflowed) == fold_spec::<N, C>(
                acc.as_int(),
                input@.subrange(start as int, i as int),
                radix as nat,
                neg,
            ),
        decreases end - i,
    {
        proof {
            assert(input@.subrange(start as int, i + 1).drop_last() =~= input@.subrange(start as int, i as int));
            assert(input@.subrange(start as int, i + 1).last() == input@[i as int]);
            assert(input@.subrange(start as int, end as int)[i - start] == input@[i as int]);
            assert(is_digit_of(input@[i as int], radix as nat));
        }
        if !overflowed {
            if let Some(nr) = &n_radix {
                if let Some(d) = input[i].to_digit(radix) {
                    assert(digit_of(input@[i as int], radix as nat) == d as nat);
                    match step(&value, nr, d, neg) {
                        Some(v) => {
                            value = v;
                            count = count + 1;
                        },
                        None => {
                            overflowed = true;
                        },
                    }
                }
            }
        }
        i = i + 1;
    }
    (value, count, overflowed)
}

/// What an integer parser returns once its digit matcher has given `span`
/// from `pos`: the matcher's failure, or the signed value of the digits
/// with the position after them, or, where `N` cannot hold that value, a
/// failure at the position after the digits.
pub open spec fn integer_result<N: CheckedInteger, C: Character>(
    s: Seq<C>,
    pos: int,
    span: Result<usize, ParseError>,
    radix: u8,
    neg: bool,
) -> Result<(N, usize), ParseError> {
    match span {
        Err(e) => Err(e),
        Ok(end) => {
            let v = with_sign(digits_value(s.subrange(pos, end as int), radix as nat), neg);
            if fits::<N>(v) {
                Ok((N::from_int(v), end))
            } else {
                Err(ParseError { position: end, expected: Expected::NotTooLarge })
            }
        },
    }
}

/// Accumulates the digits of `input[pos..end]` from zero and reports an
/// overflow as a failure at `end`.
fn accumulate<N: CheckedInteger, C: Character>(input: &[C], pos: usize, end: usize, radix: u8, neg: bool) -> (r: Result<(N, usize), ParseError>)
    requires
        pos <= end <= input@.len(),
        valid_radix(radix as nat),
        forall|k: int| pos <= k < end ==> is_digit_of(#[trigger] input@[k], radix as nat),
    ensures
        r == integer_result::<N, C>(input@, pos as int, Ok(end), radix, neg),
{
    let ghost ds = input@.subrange(pos as int, end as int);
    proof {
        assert(all_digits(ds, radix as nat)) by {
            assert forall|k: int| 0 <= k < ds.len() implies is_digit_of(#[trigger] ds[k], radix as nat) by {
                assert(ds[k] == input@[pos + k]);
            }
        }
        lemma_fold_overflow::<N, C>(ds, radix as nat, neg);
        lemma_fold_sound::<N, C>(ds, radix as nat, neg);
    }
    let (value, _count, overflowed) = fold_digits(input, pos, end, N::zero(), radix, neg);
    proof {
        if !overflowed {
            let v = with_sign(digits_value(ds, radix as nat), neg);
            N::lemma_from_int(v);
            N::lemma_as_int_injective(&value, &N::from_int(v));
        }
    }
    if overflowed {
        Err(ParseError::new(end, Expected::NotTooLarge))
    } else {
        Ok((value, end))
    }
}

/// Parses an integer of `radix` without leading zeros (a lone `0`, or a
/// digit other than `0` followed by digits), negated when `neg`.
pub fn integer<N: CheckedInteger, C: Character>(input: &[C], pos: usize, radix: u8, neg: bool) -> (r: Result<(N, usize), ParseError>)
    requires
        pos <= input@.len(),
        valid_radix(radix as nat),
    ensures
        r == integer_result::<N, C>(input@, pos as int, canonical_span(input@, pos as int, radix), radix, neg),
        r is Ok ==> pos < (r->Ok_0).1 <= input@.len(),
{
    proof {
        assert(input@.len() == input.len());
        lemma_spans(input@, pos as int, 0, radix);
    }
    match digits(input, pos, radix) {
        Ok(end) => accumulate(input, pos, end, radix, neg),
        Err(e) => Err(e),
    }
}

/// Parses an integer of `radix` whose digits may start with zeros, as after
/// a radix prefix, negated when `neg`.
pub fn integer_trailing_zeros<N: CheckedInteger, C: Character>(input: &[C], pos: usize, radix: u8, neg: bool) -> (r: Result<(N, usize), ParseError>)
    requires
        pos <= input@.len(),
        valid_radix(radix as nat),
    ensures
        r == integer_result::<N, C>(input@, pos as int, free_span(input@, pos as int, radix), radix, neg),
        r is Ok ==> pos < (r->Ok_0).1 <= input@.len(),
{
    proof {
        assert(input@.len() == input.len());
        lemma_spans(input@, pos as int, 0, radix);
    }
    match digits_trailing_zeros(input, pos, radix) {
        Ok(end) => accumulate(input, pos, end, radix, neg),
        Err(e) => Err(e),
    }
}

/// Parses an integer of exactly `length` digits of `radix`, negated when
/// `neg`.
pub fn integer_fixed<N: CheckedInteger, C: Character>(input: &[C], pos: usize, length: usize, radix: u8, neg: bool) -> (r: Result<(N, usize), ParseError>)
    requires
        pos <= input@.len(),
        valid_radix(radix as nat),
    ensures
        r == integer_result::<N, C>(input@, pos as int, fixed_span(input@, pos as int, length as nat, radix), radix, neg),
        r is Ok ==> (r->Ok_0).1 == pos + length <= input@.len(),
{
    proof {
        assert(input@.len() == input.len());
        lemma_spans(input@, pos as int, length as nat, radix);
    }
    match digits_fixed(input, pos, length, radix) {
        Ok(end) => accumulate(input, pos, end, radix, neg),
        Err(e) => Err(e),
    }
}

/// Parsing an integer is exact in every radix: on a run of digits whose
/// value `N` holds, the parser without `neg` returns that value, and with
/// `neg` (where `N` holds the negation) returns its negation; either way it
/// stands after the run.
pub proof fn lemma_integer_exact<N: CheckedInteger, C: Character>(s: Seq<C>, pos: int, radix: u8)
    requires
        valid_radix(radix as nat),
        canonical_span(s, pos, radix) is Ok,
        fits::<N>(digits_value(s.subrange(pos, canonical_span(s, pos, radix)->Ok_0 as int), radix as nat)),
    ensures
        ({
            let span = canonical_span(s, pos, radix);
            let v = digits_value(s.subrange(pos, span->Ok_0 as int), radix as nat);
            let plain = integer_result::<N, C>(s, pos, span, radix, false);
            let negated = integer_result::<N, C>(s, pos, span, radix, true);
            &&& plain is Ok
            &&& (plain->Ok_0).0.as_int() == v
            &&& (plain->Ok_0).1 == span->Ok_0
            &&& fits::<N>(-v) ==> negated is Ok && (negated->Ok_0).0.as_int() == -v && (negated->Ok_0).1
                == span->Ok_0
        }),
{
    let span = canonical_span(s, pos, radix);
    let v = digits_value(s.subrange(pos, span->Ok_0 as int), radix as nat);
    N::lemma_from_int(v);
    if fits::<N>(-v) {
        N::lemma_from_int(-v);
    }
}

/// An integer literal of one radix, without leading zeros.
#[derive(Clone, Copy, Debug, PartialEq, Eq)]
pub struct IntegerLiteral {
    pub radix: u8,
}

impl<C: Character, N: CheckedInteger> Literal<C, N> for IntegerLiteral {
    open spec fn well_formed(&self) -> bool {
        valid_radix(self.radix as nat)
    }

    open spec fn spec_parse(&self, s: Seq<C>, pos: int, neg: bool) -> Result<(N, usize), ParseError> {
        integer_result::<N, C>(s, pos, canonical_span(s, pos, self.radix), self.radix, neg)
    }

    fn parse(&self, input: &[C], pos: usize, neg: bool) -> (r: Result<(N, usize), ParseError>) {
        integer(input, pos, self.radix, neg)
    }
}

} // verus!
