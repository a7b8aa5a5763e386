//! The capabilities a numeric type needs to take part in modular arithmetic
//! and in binary exponentiation.
//!
//! Every type is modelled by the integer it stands for ([`Element::value`]) and
//! by the set of integers it can hold ([`Element::fits`]). The operations say
//! what they compute on those integers; the ones that could leave the type
//! (`add`, `sub`, `mul`) ask that the result fits, the modular ones
//! (`add_rem`, `dot_rem`) are total for a non-zero modulus because the
//! implementor widens or reduces on the way.
use crate::arith::rem_trunc;
use vstd::prelude::*;

verus! {

/// A value that stands for an integer.
pub trait Element: Sized + Clone {
    /// The integer this value stands for.
    spec fn value(&self) -> int;

    /// Whether the type has a value that stands for `v`.
    spec fn fits(v: int) -> bool;

    /// Every value stands for an integer the type can hold.
    proof fn lemma_value_fits(&self)
        ensures
            Self::fits(self.value()),
    ;

    /// The type holds 0 and 1, and with two integers all those between them.
    proof fn lemma_fits_between(lo: int, v: int, hi: int)
        ensures
            Self::fits(0),
            Self::fits(1),
            Self::fits(lo) && Self::fits(hi) && lo <= v <= hi ==> Self::fits(v),
    ;

    /// A clone stands for the same integer.
    proof fn lemma_clone_value(a: Self, b: Self)
        requires
            cloned::<Self>(a, b),
        ensures
            a.value() == b.value(),
    ;

    /// Equality test.
    fn is_equal(&self, rhs: &Self) -> (b: bool)
        ensures
            b == (self.value() == rhs.value()),
    ;
}

/// Types with an additive identity.
pub trait Zero: Element {
    fn zero() -> (r: Self)
        ensures
            r.value() == 0,
    ;

    fn is_zero(&self) -> (b: bool)
        ensures
            b == (self.value() == 0),
    ;
}

/// Types with a multiplicative identity.
pub trait One: Element {
    fn one() -> (r: Self)
        ensures
            r.value() == 1,
    ;

    fn is_one(&self) -> (b: bool)
        ensures
            b == (self.value() == 1),
    ;
}

/// Zero, addition and subtraction.
pub trait AdditiveGroup: Zero {
    fn add(&self, rhs: &Self) -> (r: Self)
        requires
            Self::fits(self.value() + rhs.value()),
        ensures
            r.value() == self.value() + rhs.value(),
    ;

    fn sub(&self, rhs: &Self) -> (r: Self)
        requires
            Self::fits(self.value() - rhs.value()),
        ensures
            r.value() == self.value() - rhs.value(),
    ;
}

/// One and multiplication.
pub trait MultiplicativeGroup: One {
    fn mul(&self, rhs: &Self) -> (r: Self)
        requires
            Self::fits(self.value() * rhs.value()),
        ensures
            r.value() == self.value() * rhs.value(),
    ;
}

/// Both groups at once.
pub trait Ring: AdditiveGroup + MultiplicativeGroup {

}

/// A ring with a remainder. The remainder is the truncated one: its sign
/// follows the dividend.
pub trait EuclideanDomain: Ring {
    /// `self % m`.
    fn rem(&self, m: &Self) -> (r: Self)
        requires
            m.value() != 0,
        ensures
            r.value() == rem_trunc(self.value(), m.value()),
    ;

    /// `(self + rhs) % m`, whether or not the sum fits.
    fn add_rem(&self, rhs: &Self, m: &Self) -> (r: Self)
        requires
            m.value() != 0,
        ensures
            r.value() == rem_trunc(self.value() + rhs.value(), m.value()),
    ;

    /// `(a * b + c * d) % m`, whether or not the products and their sum fit.
    fn dot_rem(a: &Self, b: &Self, c: &Self, d: &Self, m: &Self) -> (r: Self)
        requires
            m.value() != 0,
        ensures
            r.value() == rem_trunc(a.value() * b.value() + c.value() * d.value(), m.value()),
    ;
}

/// What binary exponentiation asks of an exponent: a test for zero, its lowest
/// bit and its half.
pub trait Exponent: Zero + One {
    /// `self & 1`: 1 if the value is odd, else 0.
    fn and_one(&self) -> (r: Self)
        ensures
            r.value() == self.value() % 2,
    ;

    /// `self >> 1`: the value halved, rounded down.
    fn shr_one(&self) -> (r: Self)
        ensures
            r.value() == self.value() / 2,
    ;
}

/// A copy of `x`.
pub fn duplicate<T: Element>(x: &T) -> (r: T)
    ensures
        r.value() == x.value(),
{
    let r = x.clone();
    proof {
        T::lemma_clone_value(*x, r);
    }
    r
}

} // verus!
