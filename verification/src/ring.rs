//! Residues modulo `m` that carry their modulus with them.
use crate::algebra::{duplicate, Element, EuclideanDomain, Zero};
use crate::arith::{lemma_mod_magnitude, lemma_mod_small};
use num_bigint::BigUint;
use vstd::prelude::*;

verus! {

/// An element of the integers modulo `m`: a residue `v` in `0 .. m`, held
/// together with `m`.
pub struct IntegerRingBigUint {
    v: BigUint,
    m: BigUint,
}

impl IntegerRingBigUint {
    /// The residue.
    pub closed spec fn residue(&self) -> int {
        self.v.value()
    }

    /// The modulus.
    pub closed spec fn modulus(&self) -> int {
        self.m.value()
    }

    /// The residue is reduced: it lies in `0 .. m`.
    pub open spec fn wf(&self) -> bool {
        0 <= self.residue() < self.modulus()
    }

    /// The residue of `v` modulo `m`.
    pub fn new(v: BigUint, m: BigUint) -> (r: Self)
        requires
            m.value() != 0,
        ensures
            r.wf(),
            r.modulus() == m.value(),
            r.residue() == v.value() % m.value(),
    {
        proof {
            lemma_mod_magnitude(v.value(), m.value());
        }
        IntegerRingBigUint { v: v.rem(&m), m }
    }

    /// The sum of two residues of one modulus.
    pub fn add(self, other: Self) -> (r: Self)
        requires
            self.wf(),
            other.wf(),
            self.modulus() == other.modulus(),
        ensures
            r.wf(),
            r.modulus() == self.modulus(),
            r.residue() == (self.residue() + other.residue()) % self.modulus(),
    {
        proof {
            lemma_mod_magnitude(self.residue() + other.residue(), self.modulus());
        }
        IntegerRingBigUint { v: self.v.add_rem(&other.v, &self.m), m: self.m }
    }

    /// The zero of the same modulus.
    pub fn zero(&self) -> (r: Self)
        requires
            self.wf(),
        ensures
            r.wf(),
            r.modulus() == self.modulus(),
            r.residue() == 0,
    {
        proof {
            lemma_mod_small(0, self.modulus());
        }
        Self::new(BigUint::zero(), duplicate(&self.m))
    }

    /// Whether the residue is zero.
    pub fn is_zero(&self) -> (b: bool)
        ensures
            b == (self.residue() == 0),
    {
        self.v.is_zero()
    }
}

} // verus!
