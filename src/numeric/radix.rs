//! Integer literals whose radix is chosen by a prefix such as `0x`.
use vstd::prelude::*;

use crate::character::{valid_radix, Character};
use crate::error::ParseError;
use crate::numeric::checked::CheckedInteger;
use crate::numeric::integer::{integer, integer_result, integer_trailing_zeros};
use crate::numeric::{canonical_span, free_span, Literal};

verus! {

/// Whether the ASCII text `tag` stands in `s` at `pos`.
pub open spec fn has_tag<C: Character>(s: Seq<C>, pos: int, tag: Seq<u8>) -> bool {
    &&& 0 <= pos
    &&& pos + tag.len() <= s.len()
    &&& forall|k: int| 0 <= k < tag.len() ==> (#[trigger] s[pos + k]).code() == tag[k] as nat
}

/// The index of the first entry of `table`, from `i` on, whose prefix
/// stands in `s` at `pos`.
pub open spec fn first_prefix<C: Character>(s: Seq<C>, pos: int, table: Seq<(Vec<u8>, u8)>, i: int) -> Option<int>
    decreases table.len() - i,
{
    if i < 0 || i >= table.len() {
        None
    } else if has_tag(s, pos, table[i].0@) {
        Some(i)
    } else {
        first_prefix(s, pos, table, i + 1)
    }
}

/// Whether the ASCII text `tag` stands in `input` at `pos`.
fn starts_with_tag<C: Character>(input: &[C], pos: usize, tag: &Vec<u8>) -> (r: bool)
    requires
        pos <= input@.len(),
    ensures
        r == has_tag(input@, pos as int, tag@),
{
    let len = input.len();
    if tag.len() > len - pos {
        return false;
    }
    let mut k: usize = 0;
    while k < tag.len()
        invariant
            len == input@.len(),
            pos + tag@.len() <= input@.len(),
            k <= tag@.len(),
            forall|j: int| 0 <= j < k ==> (#[trigger] input@[pos + j]).code() == tag@[j] as nat,
        decreases tag@.len() - k,
    {
        if !input[pos + k].eq_byte(tag[k]) {
            assert(!((input@[pos + k as int]).code() == tag@[k as int] as nat));
            return false;
        }
        k = k + 1;
    }
    true
}

/// An integer literal whose radix is chosen by the first prefix of a table
/// that the input starts with; the digits after a prefix may start with
/// zeros. Without any of the prefixes, the literal is read in the default
/// radix, without leading zeros.
#[derive(Debug)]
pub struct RadixTable {
    pub prefixes: Vec<(Vec<u8>, u8)>,
    pub default_radix: u8,
}

impl<C: Character, N: CheckedInteger> Literal<C, N> for RadixTable {
    open spec fn well_formed(&self) -> bool {
        &&& valid_radix(self.default_radix as nat)
        &&& forall|i: int| 0 <= i < self.prefixes@.len() ==> valid_radix((#[trigger] self.prefixes@[i]).1 as nat)
    }

    open spec fn spec_parse(&self, s: Seq<C>, pos: int, neg: bool) -> Result<(N, usize), ParseError> {
        match first_prefix(s, pos, self.prefixes@, 0) {
            Some(i) => {
                let (tag, radix) = self.prefixes@[i];
                let start = pos + tag@.len();
                integer_result::<N, C>(s, start, free_span(s, start, radix), radix, neg)
            },
            None => integer_result::<N, C>(
                s,
                pos,
                canonical_span(s, pos, self.default_radix),
                self.default_radix,
                neg,
            ),
        }
    }

    fn parse(&self, input: &[C], pos: usize, neg: bool) -> (r: Result<(N, usize), ParseError>) {
        proof {
            assert(input@.len() == input.len());
        }
        let mut i: usize = 0;
        while i < self.prefixes.len()
            invariant
                input@.len() <= usize::MAX,
                valid_radix(self.default_radix as nat),
                forall|j: int| 0 <= j < self.prefixes@.len() ==> valid_radix((#[trigger] self.prefixes@[j]).1 as nat),
                pos <= input@.len(),
                i <= self.prefixes@.len(),
                first_prefix(input@, pos as int, self.prefixes@, 0) == first_prefix(input@, pos as int, self.prefixes@, i as int),
            decreases self.prefixes@.len() - i,
        {
            let entry = &self.prefixes[i];
            if starts_with_tag(input, pos, &entry.0) {
                return integer_trailing_zeros(input, pos + entry.0.len(), entry.1, neg);
            }
            i = i + 1;
        }
        integer(input, pos, self.default_radix, neg)
    }
}

} // verus!
