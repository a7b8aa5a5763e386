//! Integer remainder as the machine computes it, and the congruence facts the
//! rest of the crate leans on.
//!
//! In specifications `a % m` is the Euclidean remainder: for every non-zero
//! `m`, positive or negative, it lies in `0 .. |m|`. The lemmas of `vstd` about
//! it ask for a positive modulus; the ones below lift them to any non-zero one.
use vstd::arithmetic::div_mod::{
    lemma_add_mod_noop,
    lemma_fundamental_div_mod,
    lemma_fundamental_div_mod_converse,
    lemma_mod_bound,
    lemma_mod_twice,
    lemma_mul_mod_noop_general,
    lemma_small_mod,
};
use vstd::prelude::*;

verus! {

/// The remainder of truncated division: its sign is that of the dividend `a`,
/// its magnitude is `|a|` reduced by `|m|`. This is what `%` computes on the
/// machine integers and on the arbitrary-precision ones.
pub open spec fn rem_trunc(a: int, m: int) -> int {
    if a >= 0 {
        a % m
    } else {
        -((-a) % m)
    }
}

/// The magnitude of `m`.
pub open spec fn magnitude(m: int) -> int {
    if m < 0 {
        -m
    } else {
        m
    }
}

/// Reducing by `m` and reducing by `|m|` are the same, and the result lies in
/// `0 .. |m|`.
pub proof fn lemma_mod_magnitude(a: int, m: int)
    requires
        m != 0,
    ensures
        a % m == a % magnitude(m),
        0 <= a % m < magnitude(m),
{
    if m < 0 {
        let d = -m;
        lemma_fundamental_div_mod(a, m);
        assert(0 <= a % m < d) by (nonlinear_arith)
            requires
                m < 0,
                d == -m,
        ;
        assert(a == (-(a / m)) * d + a % m) by (nonlinear_arith)
            requires
                a == m * (a / m) + a % m,
                d == -m,
        ;
        lemma_fundamental_div_mod_converse(a, d, -(a / m), a % m);
    } else {
        lemma_mod_bound(a, m);
    }
}

/// A value already in `0 .. |m|` is its own remainder.
pub proof fn lemma_mod_small(a: int, m: int)
    requires
        0 <= a < magnitude(m),
    ensures
        a % m == a,
{
    lemma_mod_magnitude(a, m);
    lemma_small_mod(a as nat, magnitude(m) as nat);
}

/// Reducing twice is reducing once.
pub proof fn lemma_mod_idempotent(a: int, m: int)
    requires
        m != 0,
    ensures
        (a % m) % m == a % m,
{
    lemma_mod_magnitude(a, m);
    lemma_mod_magnitude(a % m, m);
    lemma_mod_twice(a, magnitude(m));
}

/// A sum may be reduced term by term.
pub proof fn lemma_mod_add(a: int, b: int, m: int)
    requires
        m != 0,
    ensures
        ((a % m) + (b % m)) % m == (a + b) % m,
        ((a % m) + b) % m == (a + b) % m,
        (a + (b % m)) % m == (a + b) % m,
{
    let d = magnitude(m);
    lemma_mod_magnitude(a, m);
    lemma_mod_magnitude(b, m);
    lemma_mod_magnitude(a + b, m);
    lemma_mod_magnitude((a % m) + (b % m), m);
    lemma_mod_magnitude((a % m) + b, m);
    lemma_mod_magnitude(a + (b % m), m);
    lemma_add_mod_noop(a, b, d);
    lemma_add_mod_noop(a % d, b, d);
    lemma_add_mod_noop(a, b % d, d);
    lemma_mod_twice(a, d);
    lemma_mod_twice(b, d);
}

/// A product may be reduced factor by factor.
pub proof fn lemma_mod_mul(a: int, b: int, m: int)
    requires
        m != 0,
    ensures
        ((a % m) * (b % m)) % m == (a * b) % m,
        ((a % m) * b) % m == (a * b) % m,
        (a * (b % m)) % m == (a * b) % m,
{
    let d = magnitude(m);
    lemma_mod_magnitude(a, m);
    lemma_mod_magnitude(b, m);
    lemma_mod_magnitude(a * b, m);
    lemma_mod_magnitude((a % m) * (b % m), m);
    lemma_mod_magnitude((a % m) * b, m);
    lemma_mod_magnitude(a * (b % m), m);
    lemma_mul_mod_noop_general(a, b, d);
}

/// The truncated remainder never reaches the magnitude of the modulus, and
/// on a non-negative dividend it is the Euclidean one.
pub proof fn lemma_rem_trunc_bound(a: int, m: int)
    requires
        m != 0,
    ensures
        -magnitude(m) < rem_trunc(a, m) < magnitude(m),
        a >= 0 ==> rem_trunc(a, m) == a % m && rem_trunc(a, m) >= 0,
        a <= 0 ==> rem_trunc(a, m) <= 0,
{
    lemma_mod_magnitude(a, m);
    lemma_mod_magnitude(-a, m);
    if a == 0 {
        lemma_mod_small(0, m);
    }
}

} // verus!
