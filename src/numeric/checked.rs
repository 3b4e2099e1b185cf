//! Integer types that a run of digits can be accumulated into.
use vstd::prelude::*;

verus! {

/// A bounded integer type with checked arithmetic.
///
/// Its range holds zero and every value a single digit can take.
pub trait CheckedInteger: Copy {
    /// The mathematical value.
    spec fn as_int(&self) -> int;

    /// The least value of the type.
    spec fn min_int() -> int;

    /// The greatest value of the type.
    spec fn max_int() -> int;

    /// The value of the type that stands for `v` (meaningful when it fits).
    spec fn from_int(v: int) -> Self;

    proof fn lemma_from_int(v: int)
        requires
            Self::min_int() <= v <= Self::max_int(),
        ensures
            Self::from_int(v).as_int() == v,
    ;

    proof fn lemma_as_int_injective(a: &Self, b: &Self)
        ensures
            a.as_int() == b.as_int() ==> *a == *b,
    ;

    proof fn lemma_bounds()
        ensures
            Self::min_int() <= 0,
            Self::max_int() >= 127,
    ;

    proof fn lemma_range(v: &Self)
        ensures
            Self::min_int() <= v.as_int() <= Self::max_int(),
    ;

    fn zero() -> (r: Self)
        ensures
            r.as_int() == 0,
    ;

    /// The value `d`, if the type holds it.
    fn from_small(d: u8) -> (r: Option<Self>)
        ensures
            r is Some == (d as int <= Self::max_int()),
            r is Some ==> r->0.as_int() == d as int,
    ;

    fn mul_checked(&self, other: &Self) -> (r: Option<Self>)
        ensures
            r is Some == (Self::min_int() <= self.as_int() * other.as_int() <= Self::max_int()),
            r is Some ==> r->0.as_int() == self.as_int() * other.as_int(),
    ;

    fn add_checked(&self, other: &Self) -> (r: Option<Self>)
        ensures
            r is Some == (Self::min_int() <= self.as_int() + other.as_int() <= Self::max_int()),
            r is Some ==> r->0.as_int() == self.as_int() + other.as_int(),
    ;

    fn neg_checked(&self) -> (r: Option<Self>)
        ensures
            r is Some == (Self::min_int() <= -self.as_int() <= Self::max_int()),
            r is Some ==> r->0.as_int() == -self.as_int(),
    ;
}

impl CheckedInteger for i8 {
    open spec fn as_int(&self) -> int {
        *self as int
    }

    open spec fn min_int() -> int {
        i8::MIN as int
    }

    open spec fn max_int() -> int {
        i8::MAX as int
    }

    open spec fn from_int(v: int) -> Self {
        v as i8
    }

    proof fn lemma_from_int(v: int) {
    }

    proof fn lemma_as_int_injective(a: &Self, b: &Self) {
    }

    proof fn lemma_bounds() {
    }

    proof fn lemma_range(v: &Self) {
    }

    fn zero() -> (r: Self) {
        0
    }

    fn from_small(d: u8) -> (r: Option<Self>) {
        if d as u128 <= i8::MAX as u128 {
            Some(d as i8)
        } else {
            None
        }
    }

    fn mul_checked(&self, other: &Self) -> (r: Option<Self>) {
        i8::checked_mul(*self, *other)
    }

    fn add_checked(&self, other: &Self) -> (r: Option<Self>) {
        i8::checked_add(*self, *other)
    }

    fn neg_checked(&self) -> (r: Option<Self>) {
        if *self == i8::MIN {
            None
        } else {
            Some(-*self)
        }
    }
}

impl CheckedInteger for u8 {
    open spec fn as_int(&self) -> int {
        *self as int
    }

    open spec fn min_int() -> int {
        u8::MIN as int
    }

    open spec fn max_int() -> int {
        u8::MAX as int
    }

    open spec fn from_int(v: int) -> Self {
        v as u8
    }

    proof fn lemma_from_int(v: int) {
    }

    proof fn lemma_as_int_injective(a: &Self, b: &Self) {
    }

    proof fn lemma_bounds() {
    }

    proof fn lemma_range(v: &Self) {
    }

    fn zero() -> (r: Self) {
        0
    }

    fn from_small(d: u8) -> (r: Option<Self>) {
        if d as u128 <= u8::MAX as u128 {
            Some(d as u8)
        } else {
            None
        }
    }

    fn mul_checked(&self, other: &Self) -> (r: Option<Self>) {
        u8::checked_mul(*self, *other)
    }

    fn add_checked(&self, other: &Self) -> (r: Option<Self>) {
        u8::checked_add(*self, *other)
    }

    fn neg_checked(&self) -> (r: Option<Self>) {
        if *self == 0 {
            Some(0)
        } else {
            None
        }
    }
}

impl CheckedInteger for i16 {
    open spec fn as_int(&self) -> int {
        *self as int
    }

    open spec fn min_int() -> int {
        i16::MIN as int
    }

    open spec fn max_int() -> int {
        i16::MAX as int
    }

    open spec fn from_int(v: int) -> Self {
        v as i16
    }

    proof fn lemma_from_int(v: int) {
    }

    proof fn lemma_as_int_injective(a: &Self, b: &Self) {
    }

    proof fn lemma_bounds() {
    }

    proof fn lemma_range(v: &Self) {
    }

    fn zero() -> (r: Self) {
        0
    }

    fn from_small(d: u8) -> (r: Option<Self>) {
        if d as u128 <= i16::MAX as u128 {
            Some(d as i16)
        } else {
            None
        }
    }

    fn mul_checked(&self, other: &Self) -> (r: Option<Self>) {
        i16::checked_mul(*self, *other)
    }

    fn add_checked(&self, other: &Self) -> (r: Option<Self>) {
        i16::checked_add(*self, *other)
    }

    fn neg_checked(&self) -> (r: Option<Self>) {
        if *self == i16::MIN {
            None
        } else {
            Some(-*self)
        }
    }
}

impl CheckedInteger for u16 {
    open spec fn as_int(&self) -> int {
        *self as int
    }

    open spec fn min_int() -> int {
        u16::MIN as int
    }

    open spec fn max_int() -> int {
        u16::MAX as int
    }

    open spec fn from_int(v: int) -> Self {
        v as u16
    }

    proof fn lemma_from_int(v: int) {
    }

    proof fn lemma_as_int_injective(a: &Self, b: &Self) {
    }

    proof fn lemma_bounds() {
    }

    proof fn lemma_range(v: &Self) {
    }

    fn zero() -> (r: Self) {
        0
    }

    fn from_small(d: u8) -> (r: Option<Self>) {
        if d as u128 <= u16::MAX as u128 {
            Some(d as u16)
        } else {
            None
        }
    }

    fn mul_checked(&self, other: &Self) -> (r: Option<Self>) {
        u16::checked_mul(*self, *other)
    }

    fn add_checked(&self, other: &Self) -> (r: Option<Self>) {
        u16::checked_add(*self, *other)
    }

    fn neg_checked(&self) -> (r: Option<Self>) {
        if *self == 0 {
            Some(0)
        } else {
            None
        }
    }
}

impl CheckedInteger for i32 {
    open spec fn as_int(&self) -> int {
        *self as int
    }

    open spec fn min_int() -> int {
        i32::MIN as int
    }

    open spec fn max_int() -> int {
        i32::MAX as int
    }

    open spec fn from_int(v: int) -> Self {
        v as i32
    }

    proof fn lemma_from_int(v: int) {
    }

    proof fn lemma_as_int_injective(a: &Self, b: &Self) {
    }

    proof fn lemma_bounds() {
    }

    proof fn lemma_range(v: &Self) {
    }

    fn zero() -> (r: Self) {
        0
    }

    fn from_small(d: u8) -> (r: Option<Self>) {
        if d as u128 <= i32::MAX as u128 {
            Some(d as i32)
        } else {
            None
        }
    }

    fn mul_checked(&self, other: &Self) -> (r: Option<Self>) {
        i32::checked_mul(*self, *other)
    }

    fn add_checked(&self, other: &Self) -> (r: Option<Self>) {
        i32::checked_add(*self, *other)
    }

    fn neg_checked(&self) -> (r: Option<Self>) {
        if *self == i32::MIN {
            None
        } else {
            Some(-*self)
        }
    }
}

impl CheckedInteger for u32 {
    open spec fn as_int(&self) -> int {
        *self as int
    }

    open spec fn min_int() -> int {
        u32::MIN as int
    }

    open spec fn max_int() -> int {
        u32::MAX as int
    }

    open spec fn from_int(v: int) -> Self {
        v as u32
    }

    proof fn lemma_from_int(v: int) {
    }

    proof fn lemma_as_int_injective(a: &Self, b: &Self) {
    }

    proof fn lemma_bounds() {
    }

    proof fn lemma_range(v: &Self) {
    }

    fn zero() -> (r: Self) {
        0
    }

    fn from_small(d: u8) -> (r: Option<Self>) {
        if d as u128 <= u32::MAX as u128 {
            Some(d as u32)
        } else {
            None
        }
    }

    fn mul_checked(&self, other: &Self) -> (r: Option<Self>) {
        u32::checked_mul(*self, *other)
    }

    fn add_checked(&self, other: &Self) -> (r: Option<Self>) {
        u32::checked_add(*self, *other)
    }

    fn neg_checked(&self) -> (r: Option<Self>) {
        if *self == 0 {
            Some(0)
        } else {
            None
        }
    }
}

impl CheckedInteger for i64 {
    open spec fn as_int(&self) -> int {
        *self as int
    }

    open spec fn min_int() -> int {
        i64::MIN as int
    }

    open spec fn max_int() -> int {
        i64::MAX as int
    }

    open spec fn from_int(v: int) -> Self {
        v as i64
    }

    proof fn lemma_from_int(v: int) {
    }

    proof fn lemma_as_int_injective(a: &Self, b: &Self) {
    }

    proof fn lemma_bounds() {
    }

    proof fn lemma_range(v: &Self) {
    }

    fn zero() -> (r: Self) {
        0
    }

    fn from_small(d: u8) -> (r: Option<Self>) {
        if d as u128 <= i64::MAX as u128 {
            Some(d as i64)
        } else {
            None
        }
    }

    fn mul_checked(&self, other: &Self) -> (r: Option<Self>) {
        i64::checked_mul(*self, *other)
    }

    fn add_checked(&self, other: &Self) -> (r: Option<Self>) {
        i64::checked_add(*self, *other)
    }

    fn neg_checked(&self) -> (r: Option<Self>) {
        if *self == i64::MIN {
            None
        } else {
            Some(-*self)
        }
    }
}

impl CheckedInteger for u64 {
    open spec fn as_int(&self) -> int {
        *self as int
    }

    open spec fn min_int() -> int {
        u64::MIN as int
    }

    open spec fn max_int() -> int {
        u64::MAX as int
    }

    open spec fn from_int(v: int) -> Self {
        v as u64
    }

    proof fn lemma_from_int(v: int) {
    }

    proof fn lemma_as_int_injective(a: &Self, b: &Self) {
    }

    proof fn lemma_bounds() {
    }

    proof fn lemma_range(v: &Self) {
    }

    fn zero() -> (r: Self) {
        0
    }

    fn from_small(d: u8) -> (r: Option<Self>) {
        if d as u128 <= u64::MAX as u128 {
            Some(d as u64)
        } else {
            None
        }
    }

    fn mul_checked(&self, other: &Self) -> (r: Option<Self>) {
        u64::checked_mul(*self, *other)
    }

    fn add_checked(&self, other: &Self) -> (r: Option<Self>) {
        u64::checked_add(*self, *other)
    }

    fn neg_checked(&self) -> (r: Option<Self>) {
        if *self == 0 {
            Some(0)
        } else {
            None
        }
    }
}

impl CheckedInteger for i128 {
    open spec fn as_int(&self) -> int {
        *self as int
    }

    open spec fn min_int() -> int {
        i128::MIN as int
    }

    open spec fn max_int() -> int {
        i128::MAX as int
    }

    open spec fn from_int(v: int) -> Self {
        v as i128
    }

    proof fn lemma_from_int(v: int) {
    }

    proof fn lemma_as_int_injective(a: &Self, b: &Self) {
    }

    proof fn lemma_bounds() {
    }

    proof fn lemma_range(v: &Self) {
    }

    fn zero() -> (r: Self) {
        0
    }

    fn from_small(d: u8) -> (r: Option<Self>) {
        if d as u128 <= i128::MAX as u128 {
            Some(d as i128)
        } else {
            None
        }
    }

    fn mul_checked(&self, other: &Self) -> (r: Option<Self>) {
        i128::checked_mul(*self, *other)
    }

    fn add_checked(&self, other: &Self) -> (r: Option<Self>) {
        i128::checked_add(*self, *other)
    }

    fn neg_checked(&self) -> (r: Option<Self>) {
        if *self == i128::MIN {
            None
        } else {
            Some(-*self)
        }
    }
}

impl CheckedInteger for u128 {
    open spec fn as_int(&self) -> int {
        *self as int
    }

    open spec fn min_int() -> int {
        u128::MIN as int
    }

    open spec fn max_int() -> int {
        u128::MAX as int
    }

    open spec fn from_int(v: int) -> Self {
        v as u128
    }

    proof fn lemma_from_int(v: int) {
    }

    proof fn lemma_as_int_injective(a: &Self, b: &Self) {
    }

    proof fn lemma_bounds() {
    }

    proof fn lemma_range(v: &Self) {
    }

    fn zero() -> (r: Self) {
        0
    }

    fn from_small(d: u8) -> (r: Option<Self>) {
        if d as u128 <= u128::MAX as u128 {
            Some(d as u128)
        } else {
            None
        }
    }

    fn mul_checked(&self, other: &Self) -> (r: Option<Self>) {
        u128::checked_mul(*self, *other)
    }

    fn add_checked(&self, other: &Self) -> (r: Option<Self>) {
        u128::checked_add(*self, *other)
    }

    fn neg_checked(&self) -> (r: Option<Self>) {
        if *self == 0 {
            Some(0)
        } else {
            None
        }
    }
}

impl CheckedInteger for isize {
    open spec fn as_int(&self) -> int {
        *self as int
    }

    open spec fn min_int() -> int {
        isize::MIN as int
    }

    open spec fn max_int() -> int {
        isize::MAX as int
    }

    open spec fn from_int(v: int) -> Self {
        v as isize
    }

    proof fn lemma_from_int(v: int) {
    }

    proof fn lemma_as_int_injective(a: &Self, b: &Self) {
    }

    proof fn lemma_bounds() {
    }

    proof fn lemma_range(v: &Self) {
    }

    fn zero() -> (r: Self) {
        0
    }

    fn from_small(d: u8) -> (r: Option<Self>) {
        if d as u128 <= isize::MAX as u128 {
            Some(d as isize)
        } else {
            None
        }
    }

    fn mul_checked(&self, other: &Self) -> (r: Option<Self>) {
        isize::checked_mul(*self, *other)
    }

    fn add_checked(&self, other: &Self) -> (r: Option<Self>) {
        isize::checked_add(*self, *other)
    }

    fn neg_checked(&self) -> (r: Option<Self>) {
        if *self == isize::MIN {
            None
        } else {
            Some(-*self)
        }
    }
}

impl CheckedInteger for usize {
    open spec fn as_int(&self) -> int {
        *self as int
    }

    open spec fn min_int() -> int {
        usize::MIN as int
    }

    open spec fn max_int() -> int {
        usize::MAX as int
    }

    open spec fn from_int(v: int) -> Self {
        v as usize
    }

    proof fn lemma_from_int(v: int) {
    }

    proof fn lemma_as_int_injective(a: &Self, b: &Self) {
    }

    proof fn lemma_bounds() {
    }

    proof fn lemma_range(v: &Self) {
    }

    fn zero() -> (r: Self) {
        0
    }

    fn from_small(d: u8) -> (r: Option<Self>) {
        if d as u128 <= usize::MAX as u128 {
            Some(d as usize)
        } else {
            None
        }
    }

    fn mul_checked(&self, other: &Self) -> (r: Option<Self>) {
        usize::checked_mul(*self, *other)
    }

    fn add_checked(&self, other: &Self) -> (r: Option<Self>) {
        usize::checked_add(*self, *other)
    }

    fn neg_checked(&self) -> (r: Option<Self>) {
        if *self == 0 {
            Some(0)
        } else {
            None
        }
    }
}

} // verus!
