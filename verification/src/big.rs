//! The arbitrary-precision integers of `num_bigint` as ring elements and
//! exponents.
//!
//! `BigUint` and `BigInt` are opaque here. What a value stands for is read off
//! its base-2^32 digits, which are named but not computed; every operation is
//! a call into `num_bigint` whose effect on that integer is taken on trust, as
//! its doc comment says. The trait implementations below are verified against
//! those statements.
use crate::algebra::{
    AdditiveGroup,
    Element,
    EuclideanDomain,
    Exponent,
    MultiplicativeGroup,
    One,
    Ring,
    Zero,
};
use crate::arith::{magnitude, rem_trunc};
use crate::Index;
use num_bigint::{BigInt, BigUint};
use vstd::arithmetic::power2::{lemma2_to64, pow2};
use vstd::prelude::*;

verus! {

/// `num_bigint::BigUint`, an unsigned integer of any size, taken as opaque.
#[verifier::external_type_specification]
#[verifier::external_body]
pub struct ExBigUint(num_bigint::BigUint);

/// `num_bigint::BigInt`, a signed integer of any size, taken as opaque.
#[verifier::external_type_specification]
#[verifier::external_body]
pub struct ExBigInt(num_bigint::BigInt);

/// The base-2^32 digits of `x`, least significant first, as
/// `BigUint::to_u32_digits` returns them.
pub uninterp spec fn biguint_digits(x: BigUint) -> Seq<u32>;

/// The base-2^32 digits of the magnitude of `x`, least significant first, as
/// `BigInt::to_u32_digits` returns them.
pub uninterp spec fn bigint_digits(x: BigInt) -> Seq<u32>;

/// Whether `x` is below zero, as `BigInt::sign` tells by `Sign::Minus`.
pub uninterp spec fn bigint_negative(x: BigInt) -> bool;

/// The number that base-2^32 digits stand for, least significant first.
pub open spec fn digits_value(digits: Seq<u32>) -> nat
    decreases digits.len(),
{
    if digits.len() == 0 {
        0
    } else {
        digits[0] as nat + 0x1_0000_0000 * digits_value(digits.drop_first())
    }
}

/// The integer that `x` stands for.
pub open spec fn biguint_value(x: BigUint) -> int {
    digits_value(biguint_digits(x)) as int
}

/// The integer that `x` stands for.
pub open spec fn bigint_value(x: BigInt) -> int {
    if bigint_negative(x) {
        -(digits_value(bigint_digits(x)) as int)
    } else {
        digits_value(bigint_digits(x)) as int
    }
}

/// Bitwise AND of two integers in two's complement with the sign extended
/// without end: bit by bit from the lowest, a negative number ending in ones.
pub open spec fn bit_and(a: int, b: int) -> int
    decreases magnitude(a),
{
    if a == 0 || b == 0 {
        0
    } else if a == -1 {
        b
    } else {
        (a % 2) * (b % 2) + 2 * bit_and(a / 2, b / 2)
    }
}

/// ANDing with 1 leaves the lowest bit.
pub proof fn lemma_bit_and_one(a: int)
    ensures
        bit_and(a, 1) == a % 2,
{
    if a != 0 && a != -1 {
        assert(bit_and(a / 2, 0) == 0);
    }
}

/// `BigUint::clone`: the clone has the same digits.
pub assume_specification[ <BigUint as Clone>::clone ](a: &BigUint) -> (r: BigUint)
    ensures
        biguint_digits(r) == biguint_digits(*a),
;

/// `BigInt::clone`: the clone has the same sign and the same digits.
pub assume_specification[ <BigInt as Clone>::clone ](a: &BigInt) -> (r: BigInt)
    ensures
        bigint_negative(r) == bigint_negative(*a),
        bigint_digits(r) == bigint_digits(*a),
;

/// `<BigUint as num_traits::Zero>::zero`: the value 0.
#[verifier::external_body]
fn biguint_zero() -> (r: BigUint)
    ensures
        biguint_value(r) == 0,
{
    num_traits::Zero::zero()
}

/// `<BigUint as num_traits::Zero>::is_zero`: whether the value is 0.
#[verifier::external_body]
fn biguint_is_zero(a: &BigUint) -> (b: bool)
    ensures
        b == (biguint_value(*a) == 0),
{
    num_traits::Zero::is_zero(a)
}

/// `<BigUint as num_traits::One>::one`: the value 1.
#[verifier::external_body]
fn biguint_one() -> (r: BigUint)
    ensures
        biguint_value(r) == 1,
{
    num_traits::One::one()
}

/// `<BigUint as num_traits::One>::is_one`: whether the value is 1.
#[verifier::external_body]
fn biguint_is_one(a: &BigUint) -> (b: bool)
    ensures
        b == (biguint_value(*a) == 1),
{
    num_traits::One::is_one(a)
}

/// `==` on `BigUint`: equal exactly when the values are.
#[verifier::external_body]
fn biguint_eq(a: &BigUint, b: &BigUint) -> (r: bool)
    ensures
        r == (biguint_value(*a) == biguint_value(*b)),
{
    a == b
}

/// `+` on `&BigUint`: the sum.
#[verifier::external_body]
fn biguint_add(a: &BigUint, b: &BigUint) -> (r: BigUint)
    ensures
        biguint_value(r) == biguint_value(*a) + biguint_value(*b),
{
    a + b
}

/// `-` on `&BigUint`: the difference. It panics where `b` is the larger.
#[verifier::external_body]
fn biguint_sub(a: &BigUint, b: &BigUint) -> (r: BigUint)
    requires
        biguint_value(*a) >= biguint_value(*b),
    ensures
        biguint_value(r) == biguint_value(*a) - biguint_value(*b),
{
    a - b
}

/// `*` on `&BigUint`: the product.
#[verifier::external_body]
fn biguint_mul(a: &BigUint, b: &BigUint) -> (r: BigUint)
    ensures
        biguint_value(r) == biguint_value(*a) * biguint_value(*b),
{
    a * b
}

/// `%` on `&BigUint`: the remainder. It panics where `m` is zero.
#[verifier::external_body]
fn biguint_rem(a: &BigUint, m: &BigUint) -> (r: BigUint)
    requires
        biguint_value(*m) != 0,
    ensures
        biguint_value(r) == biguint_value(*a) % biguint_value(*m),
{
    a % m
}

/// `&` on `&BigUint`: the bitwise AND.
#[verifier::external_body]
fn biguint_and(a: &BigUint, b: &BigUint) -> (r: BigUint)
    ensures
        biguint_value(r) == bit_and(biguint_value(*a), biguint_value(*b)),
{
    a & b
}

/// `>>` on `&BigUint` by a `u8`: the value divided by `2^k`, rounded down.
#[verifier::external_body]
fn biguint_shr(a: &BigUint, k: u8) -> (r: BigUint)
    ensures
        biguint_value(r) == biguint_value(*a) / (pow2(k as nat) as int),
{
    a >> k
}

/// `<BigInt as num_traits::Zero>::zero`: the value 0.
#[verifier::external_body]
fn bigint_zero() -> (r: BigInt)
    ensures
        bigint_value(r) == 0,
{
    num_traits::Zero::zero()
}

/// `<BigInt as num_traits::Zero>::is_zero`: whether the value is 0.
#[verifier::external_body]
fn bigint_is_zero(a: &BigInt) -> (b: bool)
    ensures
        b == (bigint_value(*a) == 0),
{
    num_traits::Zero::is_zero(a)
}

/// `<BigInt as num_traits::One>::one`: the value 1.
#[verifier::external_body]
fn bigint_one() -> (r: BigInt)
    ensures
        bigint_value(r) == 1,
{
    num_traits::One::one()
}

/// `<BigInt as num_traits::One>::is_one`: whether the value is 1.
#[verifier::external_body]
fn bigint_is_one(a: &BigInt) -> (b: bool)
    ensures
        b == (bigint_value(*a) == 1),
{
    num_traits::One::is_one(a)
}

/// `==` on `BigInt`: equal exactly when the values are.
#[verifier::external_body]
fn bigint_eq(a: &BigInt, b: &BigInt) -> (r: bool)
    ensures
        r == (bigint_value(*a) == bigint_value(*b)),
{
    a == b
}

/// `<` on `BigInt`: the order of the values.
#[verifier::external_body]
fn bigint_lt(a: &BigInt, b: &BigInt) -> (r: bool)
    ensures
        r == (bigint_value(*a) < bigint_value(*b)),
{
    a < b
}

/// `-` on `&BigInt`, with one operand: the negation.
#[verifier::external_body]
fn bigint_neg(a: &BigInt) -> (r: BigInt)
    ensures
        bigint_value(r) == -bigint_value(*a),
{
    -a
}

/// `+` on `&BigInt`: the sum.
#[verifier::external_body]
fn bigint_add(a: &BigInt, b: &BigInt) -> (r: BigInt)
    ensures
        bigint_value(r) == bigint_value(*a) + bigint_value(*b),
{
    a + b
}

/// `-` on `&BigInt`: the difference.
#[verifier::external_body]
fn bigint_sub(a: &BigInt, b: &BigInt) -> (r: BigInt)
    ensures
        bigint_value(r) == bigint_value(*a) - bigint_value(*b),
{
    a - b
}

/// `*` on `&BigInt`: the product.
#[verifier::external_body]
fn bigint_mul(a: &BigInt, b: &BigInt) -> (r: BigInt)
    ensures
        bigint_value(r) == bigint_value(*a) * bigint_value(*b),
{
    a * b
}

/// `%` on `&BigInt`: the remainder of truncated division, with the sign of
/// `a`. It panics where `m` is zero.
#[verifier::external_body]
fn bigint_rem(a: &BigInt, m: &BigInt) -> (r: BigInt)
    requires
        bigint_value(*m) != 0,
    ensures
        bigint_value(r) == rem_trunc(bigint_value(*a), bigint_value(*m)),
{
    a % m
}

/// `&` on `&BigInt`: the bitwise AND in two's complement.
#[verifier::external_body]
fn bigint_and(a: &BigInt, b: &BigInt) -> (r: BigInt)
    ensures
        bigint_value(r) == bit_and(bigint_value(*a), bigint_value(*b)),
{
    a & b
}

/// `>>` on `&BigInt` by a `u8`: the value divided by `2^k`, rounded towards
/// negative infinity.
#[verifier::external_body]
fn bigint_shr(a: &BigInt, k: u8) -> (r: BigInt)
    ensures
        bigint_value(r) == bigint_value(*a) / (pow2(k as nat) as int),
{
    a >> k
}

impl Element for BigUint {
    open spec fn value(&self) -> int {
        biguint_value(*self)
    }

    open spec fn fits(v: int) -> bool {
        v >= 0
    }

    proof fn lemma_value_fits(&self) {
    }

    proof fn lemma_fits_between(lo: int, v: int, hi: int) {
    }

    proof fn lemma_clone_value(a: Self, b: Self) {
    }

    fn is_equal(&self, rhs: &Self) -> (b: bool) {
        biguint_eq(self, rhs)
    }
}

impl Zero for BigUint {
    fn zero() -> (r: Self) {
        biguint_zero()
    }

    fn is_zero(&self) -> (b: bool) {
        biguint_is_zero(self)
    }
}

impl One for BigUint {
    fn one() -> (r: Self) {
        biguint_one()
    }

    fn is_one(&self) -> (b: bool) {
        biguint_is_one(self)
    }
}

impl AdditiveGroup for BigUint {
    fn add(&self, rhs: &Self) -> (r: Self) {
        biguint_add(self, rhs)
    }

    fn sub(&self, rhs: &Self) -> (r: Self) {
        biguint_sub(self, rhs)
    }
}

impl MultiplicativeGroup for BigUint {
    fn mul(&self, rhs: &Self) -> (r: Self) {
        biguint_mul(self, rhs)
    }
}

impl Ring for BigUint {

}

impl EuclideanDomain for BigUint {
    fn rem(&self, m: &Self) -> (r: Self) {
        biguint_rem(self, m)
    }

    fn add_rem(&self, rhs: &Self, m: &Self) -> (r: Self) {
        biguint_rem(&biguint_add(self, rhs), m)
    }

    fn dot_rem(a: &Self, b: &Self, c: &Self, d: &Self, m: &Self) -> (r: Self) {
        let p = biguint_mul(a, b);
        let q = biguint_mul(c, d);
        biguint_rem(&biguint_add(&p, &q), m)
    }
}

impl Exponent for BigUint {
    fn and_one(&self) -> (r: Self) {
        proof {
            lemma_bit_and_one(self.value());
        }
        biguint_and(self, &biguint_one())
    }

    fn shr_one(&self) -> (r: Self) {
        proof {
            lemma2_to64();
        }
        biguint_shr(self, 1u8)
    }
}

impl Element for BigInt {
    open spec fn value(&self) -> int {
        bigint_value(*self)
    }

    open spec fn fits(v: int) -> bool {
        true
    }

    proof fn lemma_value_fits(&self) {
    }

    proof fn lemma_fits_between(lo: int, v: int, hi: int) {
    }

    proof fn lemma_clone_value(a: Self, b: Self) {
    }

    fn is_equal(&self, rhs: &Self) -> (b: bool) {
        bigint_eq(self, rhs)
    }
}

impl Zero for BigInt {
    fn zero() -> (r: Self) {
        bigint_zero()
    }

    fn is_zero(&self) -> (b: bool) {
        bigint_is_zero(self)
    }
}

impl One for BigInt {
    fn one() -> (r: Self) {
        bigint_one()
    }

    fn is_one(&self) -> (b: bool) {
        bigint_is_one(self)
    }
}

impl AdditiveGroup for BigInt {
    fn add(&self, rhs: &Self) -> (r: Self) {
        bigint_add(self, rhs)
    }

    fn sub(&self, rhs: &Self) -> (r: Self) {
        bigint_sub(self, rhs)
    }
}

impl MultiplicativeGroup for BigInt {
    fn mul(&self, rhs: &Self) -> (r: Self) {
        bigint_mul(self, rhs)
    }
}

impl Ring for BigInt {

}

impl EuclideanDomain for BigInt {
    fn rem(&self, m: &Self) -> (r: Self) {
        bigint_rem(self, m)
    }

    fn add_rem(&self, rhs: &Self, m: &Self) -> (r: Self) {
        bigint_rem(&bigint_add(self, rhs), m)
    }

    fn dot_rem(a: &Self, b: &Self, c: &Self, d: &Self, m: &Self) -> (r: Self) {
        let p = bigint_mul(a, b);
        let q = bigint_mul(c, d);
        bigint_rem(&bigint_add(&p, &q), m)
    }
}

impl Exponent for BigInt {
    fn and_one(&self) -> (r: Self) {
        proof {
            lemma_bit_and_one(self.value());
        }
        bigint_and(self, &bigint_one())
    }

    fn shr_one(&self) -> (r: Self) {
        proof {
            lemma2_to64();
        }
        bigint_shr(self, 1u8)
    }
}

impl Index for BigInt {
    proof fn lemma_fits_negated(v: int) {
    }

    fn less_than(&self, rhs: &Self) -> (b: bool) {
        bigint_lt(self, rhs)
    }

    fn neg(&self) -> (r: Self) {
        bigint_neg(self)
    }
}

} // verus!
