//! The machine integers `u64` and `i64` as ring elements and exponents.
//!
//! The plain operations are the machine's own and ask that the result fits.
//! The modular ones widen to 128 bits, so that no sum or product leaves the
//! type before it is reduced.
use crate::algebra::{
    AdditiveGroup,
    Element,
    EuclideanDomain,
    Exponent,
    MultiplicativeGroup,
    One,
    Ring,
    Zero,
};
use crate::arith::{lemma_mod_add, lemma_mod_magnitude, lemma_rem_trunc_bound, rem_trunc};
use crate::Index;
use vstd::prelude::*;

verus! {

impl Element for u64 {
    open spec fn value(&self) -> int {
        *self as int
    }

    open spec fn fits(v: int) -> bool {
        0 <= v <= u64::MAX
    }

    proof fn lemma_value_fits(&self) {
    }

    proof fn lemma_fits_between(lo: int, v: int, hi: int) {
    }

    proof fn lemma_clone_value(a: Self, b: Self) {
    }

    fn is_equal(&self, rhs: &Self) -> (b: bool) {
        *self == *rhs
    }
}

impl Zero for u64 {
    fn zero() -> (r: Self) {
        0
    }

    fn is_zero(&self) -> (b: bool) {
        *self == 0
    }
}

impl One for u64 {
    fn one() -> (r: Self) {
        1
    }

    fn is_one(&self) -> (b: bool) {
        *self == 1
    }
}

impl AdditiveGroup for u64 {
    fn add(&self, rhs: &Self) -> (r: Self) {
        *self + *rhs
    }

    fn sub(&self, rhs: &Self) -> (r: Self) {
        *self - *rhs
    }
}

impl MultiplicativeGroup for u64 {
    fn mul(&self, rhs: &Self) -> (r: Self) {
        *self * *rhs
    }
}

impl Ring for u64 {

}

impl EuclideanDomain for u64 {
    fn rem(&self, m: &Self) -> (r: Self) {
        *self % *m
    }

    fn add_rem(&self, rhs: &Self, m: &Self) -> (r: Self) {
        let wide: u128 = *self as u128 + *rhs as u128;
        let r: u128 = wide % (*m as u128);
        r as u64
    }

    fn dot_rem(a: &Self, b: &Self, c: &Self, d: &Self, m: &Self) -> (r: Self) {
        proof {
            lemma_product_u64(*a, *b);
            lemma_product_u64(*c, *d);
        }
        let wide_m: u128 = *m as u128;
        let p: u128 = (*a as u128) * (*b as u128);
        let q: u128 = (*c as u128) * (*d as u128);
        let r: u128 = ((p % wide_m) + (q % wide_m)) % wide_m;
        proof {
            lemma_mod_add(p as int, q as int, wide_m as int);
        }
        r as u64
    }
}

impl Exponent for u64 {
    fn and_one(&self) -> (r: Self) {
        let x: u64 = *self;
        assert(x & 1 == x % 2) by (bit_vector);
        x & 1
    }

    fn shr_one(&self) -> (r: Self) {
        let x: u64 = *self;
        assert(x >> 1 == x / 2) by (bit_vector);
        x >> 1
    }
}

impl Element for i64 {
    open spec fn value(&self) -> int {
        *self as int
    }

    open spec fn fits(v: int) -> bool {
        i64::MIN <= v <= i64::MAX
    }

    proof fn lemma_value_fits(&self) {
    }

    proof fn lemma_fits_between(lo: int, v: int, hi: int) {
    }

    proof fn lemma_clone_value(a: Self, b: Self) {
    }

    fn is_equal(&self, rhs: &Self) -> (b: bool) {
        *self == *rhs
    }
}

impl Zero for i64 {
    fn zero() -> (r: Self) {
        0
    }

    fn is_zero(&self) -> (b: bool) {
        *self == 0
    }
}

impl One for i64 {
    fn one() -> (r: Self) {
        1
    }

    fn is_one(&self) -> (b: bool) {
        *self == 1
    }
}

impl AdditiveGroup for i64 {
    fn add(&self, rhs: &Self) -> (r: Self) {
        *self + *rhs
    }

    fn sub(&self, rhs: &Self) -> (r: Self) {
        *self - *rhs
    }
}

impl MultiplicativeGroup for i64 {
    fn mul(&self, rhs: &Self) -> (r: Self) {
        *self * *rhs
    }
}

impl Ring for i64 {

}

impl EuclideanDomain for i64 {
    fn rem(&self, m: &Self) -> (r: Self) {
        proof {
            lemma_rem_trunc_bound(*self as int, *m as int);
        }
        if *m == -1 {
            0
        } else {
            *self % *m
        }
    }

    fn add_rem(&self, rhs: &Self, m: &Self) -> (r: Self) {
        let wide: i128 = *self as i128 + *rhs as i128;
        rem_i128(wide, *m)
    }

    fn dot_rem(a: &Self, b: &Self, c: &Self, d: &Self, m: &Self) -> (r: Self) {
        proof {
            lemma_product_i64(*a, *b);
            lemma_product_i64(*c, *d);
        }
        let p: i128 = (*a as i128) * (*b as i128);
        let q: i128 = (*c as i128) * (*d as i128);
        if p == 0x4000_0000_0000_0000_0000_0000_0000_0000 && q
            == 0x4000_0000_0000_0000_0000_0000_0000_0000 {
            // The one sum that leaves 128 bits: 2^127, reduced as unsigned.
            let wide_m: i128 = *m as i128;
            let mag: u128 = if wide_m < 0 {
                (-wide_m) as u128
            } else {
                wide_m as u128
            };
            let r: u128 = 0x8000_0000_0000_0000_0000_0000_0000_0000u128 % mag;
            proof {
                lemma_mod_magnitude(0x8000_0000_0000_0000_0000_0000_0000_0000int, *m as int);
            }
            r as i64
        } else {
            rem_i128(p + q, *m)
        }
    }
}

impl Exponent for i64 {
    fn and_one(&self) -> (r: Self) {
        let x: i64 = *self;
        assert(x & 1 == x % 2) by (bit_vector);
        x & 1
    }

    fn shr_one(&self) -> (r: Self) {
        let x: i64 = *self;
        assert(x >> 1 == x / 2) by (bit_vector);
        x >> 1
    }
}

impl Index for i64 {
    proof fn lemma_fits_negated(v: int) {
    }

    fn less_than(&self, rhs: &Self) -> (b: bool) {
        *self < *rhs
    }

    fn neg(&self) -> (r: Self) {
        -*self
    }
}

/// The truncated remainder of a 128-bit value by a non-zero 64-bit modulus.
fn rem_i128(wide: i128, m: i64) -> (r: i64)
    requires
        m != 0,
    ensures
        r == rem_trunc(wide as int, m as int),
{
    proof {
        lemma_rem_trunc_bound(wide as int, m as int);
    }
    if m == -1 {
        0
    } else {
        let r: i128 = wide % (m as i128);
        r as i64
    }
}

/// The product of two `u64` fits in 128 bits.
proof fn lemma_product_u64(a: u64, b: u64)
    ensures
        0 <= a * b <= u128::MAX,
{
    assert(0 <= a * b <= 0xffff_ffff_ffff_ffff * 0xffff_ffff_ffff_ffff) by (nonlinear_arith)
        requires
            0 <= a <= 0xffff_ffff_ffff_ffff,
            0 <= b <= 0xffff_ffff_ffff_ffff,
    ;
}

/// The product of two `i64` has magnitude at most 2^126.
proof fn lemma_product_i64(a: i64, b: i64)
    ensures
        -0x4000_0000_0000_0000_0000_0000_0000_0000 <= a * b
            <= 0x4000_0000_0000_0000_0000_0000_0000_0000,
{
    assert(-0x8000_0000_0000_0000 * 0x8000_0000_0000_0000 <= a * b <= 0x8000_0000_0000_0000
        * 0x8000_0000_0000_0000) by (nonlinear_arith)
        requires
            -0x8000_0000_0000_0000 <= a <= 0x8000_0000_0000_0000,
            -0x8000_0000_0000_0000 <= b <= 0x8000_0000_0000_0000,
    ;
}

} // verus!
