//! 2×2 matrices over a Euclidean domain: the product modulo `m` and its power,
//! by recursive and by iterative halving of the exponent.
//!
//! A matrix is modelled by the matrix of the integers its entries stand for,
//! a `Mat<int>`. On those the module defines the product, the reduction of
//! every entry and the power, and the contracts of the executable functions
//! are stated over them.
//!
//! The remainder of the element types is the truncated one, so with negative
//! entries the result of a power depends on the order of its products. The
//! two executable powers are therefore specified twice: for every matrix by
//! the halving each of them performs (`power_halving`, `power_iterative`),
//! and for matrices without negative entries by the power modulo `m`
//! (`power_mod`), on which they agree.
use crate::algebra::{duplicate, Element};
pub use crate::algebra::{AdditiveGroup, EuclideanDomain, Exponent, MultiplicativeGroup, Ring};
use crate::arith::{
    lemma_mod_add,
    lemma_mod_idempotent,
    lemma_mod_magnitude,
    lemma_mod_mul,
    lemma_rem_trunc_bound,
    rem_trunc,
};
use vstd::prelude::*;

verus! {

/// The matrix
/// ```text
/// | a b |
/// | c d |
/// ```
/// held as the pair of its rows, `Mat((a, b), (c, d))`.
#[derive(Debug, PartialEq)]
pub struct Mat<T>(pub (T, T), pub (T, T));

impl<T: Element> View for Mat<T> {
    type V = Mat<int>;

    open spec fn view(&self) -> Mat<int> {
        Mat((self.0.0.value(), self.0.1.value()), (self.1.0.value(), self.1.1.value()))
    }
}

impl<T: Element> Clone for Mat<T> {
    fn clone(&self) -> (r: Self)
        ensures
            r@ == self@,
    {
        Mat(
            (duplicate(&self.0.0), duplicate(&self.0.1)),
            (duplicate(&self.1.0), duplicate(&self.1.1)),
        )
    }
}

impl Mat<int> {
    /// The identity matrix.
    pub open spec fn identity() -> Mat<int> {
        Mat((1, 0), (0, 1))
    }

    /// The Q-matrix, whose powers hold consecutive Fibonacci numbers.
    pub open spec fn q() -> Mat<int> {
        Mat((0, 1), (1, 1))
    }

    /// No entry is negative.
    pub open spec fn nonneg(self) -> bool {
        self.0.0 >= 0 && self.0.1 >= 0 && self.1.0 >= 0 && self.1.1 >= 0
    }

    /// The matrix product over the integers.
    pub open spec fn times(self, rhs: Mat<int>) -> Mat<int> {
        Mat(
            (
                self.0.0 * rhs.0.0 + self.0.1 * rhs.1.0,
                self.0.0 * rhs.0.1 + self.0.1 * rhs.1.1,
            ),
            (
                self.1.0 * rhs.0.0 + self.1.1 * rhs.1.0,
                self.1.0 * rhs.0.1 + self.1.1 * rhs.1.1,
            ),
        )
    }

    /// Every entry replaced by its truncated remainder by `m`.
    pub open spec fn rem(self, m: int) -> Mat<int> {
        Mat(
            (rem_trunc(self.0.0, m), rem_trunc(self.0.1, m)),
            (rem_trunc(self.1.0, m), rem_trunc(self.1.1, m)),
        )
    }

    /// Every entry replaced by its residue in `0 .. |m|`.
    pub open spec fn reduce(self, m: int) -> Mat<int> {
        Mat((self.0.0 % m, self.0.1 % m), (self.1.0 % m, self.1.1 % m))
    }

    /// The `n`-th power over the integers.
    pub open spec fn power(self, n: nat) -> Mat<int>
        decreases n,
    {
        if n == 0 {
            Mat::<int>::identity()
        } else {
            self.power((n - 1) as nat).times(self)
        }
    }

    /// The `n`-th power modulo `m`: the identity for `n == 0`, else the power
    /// over the integers with every entry reduced.
    pub open spec fn power_mod(self, n: nat, m: int) -> Mat<int> {
        if n == 0 {
            Mat::<int>::identity()
        } else {
            self.power(n).reduce(m)
        }
    }

    /// The `n`-th power by recursive halving, every product taken with the
    /// truncated remainder: the identity for `n == 0`, else the square of the
    /// power for `n / 2`, times `self` once more where `n` is odd.
    pub open spec fn power_halving(self, n: nat, m: int) -> Mat<int>
        decreases n,
    {
        if n == 0 {
            Mat::<int>::identity()
        } else {
            let half = self.power_halving(n / 2, m);
            let square = half.times(half).rem(m);
            if n % 2 == 0 {
                square
            } else {
                square.times(self).rem(m)
            }
        }
    }

    /// What walking the bits of `n` from the lowest leaves in the accumulator
    /// `acc`, with `self` as the running base: at each bit the base is
    /// multiplied into the accumulator where the bit is set, and then squared,
    /// every product taken with the truncated remainder.
    pub open spec fn power_ladder(self, acc: Mat<int>, n: nat, m: int) -> Mat<int>
        decreases n,
    {
        if n == 0 {
            acc
        } else {
            let next = if n % 2 == 1 {
                acc.times(self).rem(m)
            } else {
                acc
            };
            self.times(self).rem(m).power_ladder(next, n / 2, m)
        }
    }

    /// The `n`-th power by iterative halving: the ladder started from the
    /// identity.
    pub open spec fn power_iterative(self, n: nat, m: int) -> Mat<int> {
        self.power_ladder(Mat::<int>::identity(), n, m)
    }
}

/// One entry of the two ways to bracket a product of three matrices.
proof fn lemma_dot_associative(
    p: int,
    q: int,
    b1: int,
    b2: int,
    b3: int,
    b4: int,
    c1: int,
    c3: int,
)
    ensures
        (p * b1 + q * b3) * c1 + (p * b2 + q * b4) * c3 == p * (b1 * c1 + b2 * c3) + q * (b3 * c1
            + b4 * c3),
{
    assert((p * b1 + q * b3) * c1 == p * (b1 * c1) + q * (b3 * c1)) by (nonlinear_arith);
    assert((p * b2 + q * b4) * c3 == p * (b2 * c3) + q * (b4 * c3)) by (nonlinear_arith);
    assert(p * (b1 * c1 + b2 * c3) == p * (b1 * c1) + p * (b2 * c3)) by (nonlinear_arith);
    assert(q * (b3 * c1 + b4 * c3) == q * (b3 * c1) + q * (b4 * c3)) by (nonlinear_arith);
}

/// The product is associative.
pub proof fn lemma_times_associative(a: Mat<int>, b: Mat<int>, c: Mat<int>)
    ensures
        a.times(b).times(c) == a.times(b.times(c)),
{
    lemma_dot_associative(a.0.0, a.0.1, b.0.0, b.0.1, b.1.0, b.1.1, c.0.0, c.1.0);
    lemma_dot_associative(a.0.0, a.0.1, b.0.0, b.0.1, b.1.0, b.1.1, c.0.1, c.1.1);
    lemma_dot_associative(a.1.0, a.1.1, b.0.0, b.0.1, b.1.0, b.1.1, c.0.0, c.1.0);
    lemma_dot_associative(a.1.0, a.1.1, b.0.0, b.0.1, b.1.0, b.1.1, c.0.1, c.1.1);
}

/// The identity matrix is neutral on both sides.
pub proof fn lemma_times_identity(a: Mat<int>)
    ensures
        Mat::<int>::identity().times(a) == a,
        a.times(Mat::<int>::identity()) == a,
{
}

/// Powers add up: `x^(a+b) == x^a * x^b`.
pub proof fn lemma_power_adds(x: Mat<int>, a: nat, b: nat)
    ensures
        x.power(a + b) == x.power(a).times(x.power(b)),
    decreases b,
{
    if b == 0 {
        lemma_times_identity(x.power(a));
    } else {
        let c = (b - 1) as nat;
        lemma_power_adds(x, a, c);
        assert(x.power(a + b) == x.power(a + c).times(x));
        lemma_times_associative(x.power(a), x.power(c), x);
    }
}

/// The first power is the matrix itself.
pub proof fn lemma_power_one(x: Mat<int>)
    ensures
        x.power(1) == x,
{
    assert(x.power(0) == Mat::<int>::identity());
    lemma_times_identity(x);
}

/// The product of matrices without negative entries has none.
pub proof fn lemma_times_nonneg(a: Mat<int>, b: Mat<int>)
    requires
        a.nonneg(),
        b.nonneg(),
    ensures
        a.times(b).nonneg(),
{
    assert(a.0.0 * b.0.0 + a.0.1 * b.1.0 >= 0) by (nonlinear_arith)
        requires
            a.0.0 >= 0,
            b.0.0 >= 0,
            a.0.1 >= 0,
            b.1.0 >= 0,
    ;
    assert(a.0.0 * b.0.1 + a.0.1 * b.1.1 >= 0) by (nonlinear_arith)
        requires
            a.0.0 >= 0,
            b.0.1 >= 0,
            a.0.1 >= 0,
            b.1.1 >= 0,
    ;
    assert(a.1.0 * b.0.0 + a.1.1 * b.1.0 >= 0) by (nonlinear_arith)
        requires
            a.1.0 >= 0,
            b.0.0 >= 0,
            a.1.1 >= 0,
            b.1.0 >= 0,
    ;
    assert(a.1.0 * b.0.1 + a.1.1 * b.1.1 >= 0) by (nonlinear_arith)
        requires
            a.1.0 >= 0,
            b.0.1 >= 0,
            a.1.1 >= 0,
            b.1.1 >= 0,
    ;
}

/// A reduced matrix has no negative entry, reducing it again changes
/// nothing, and on a matrix without negative entries the truncated remainder
/// is the reduction.
pub proof fn lemma_reduce(a: Mat<int>, m: int)
    requires
        m != 0,
    ensures
        a.reduce(m).nonneg(),
        a.reduce(m).reduce(m) == a.reduce(m),
        a.nonneg() ==> a.rem(m) == a.reduce(m),
{
    lemma_mod_magnitude(a.0.0, m);
    lemma_mod_magnitude(a.0.1, m);
    lemma_mod_magnitude(a.1.0, m);
    lemma_mod_magnitude(a.1.1, m);
    lemma_mod_idempotent(a.0.0, m);
    lemma_mod_idempotent(a.0.1, m);
    lemma_mod_idempotent(a.1.0, m);
    lemma_mod_idempotent(a.1.1, m);
    lemma_rem_trunc_bound(a.0.0, m);
    lemma_rem_trunc_bound(a.0.1, m);
    lemma_rem_trunc_bound(a.1.0, m);
    lemma_rem_trunc_bound(a.1.1, m);
}

/// `a2 * b2 + c2 * d2` and `a * b + c * d` are congruent when the factors are.
proof fn lemma_dot_congruent(
    a: int,
    b: int,
    c: int,
    d: int,
    a2: int,
    b2: int,
    c2: int,
    d2: int,
    m: int,
)
    requires
        m != 0,
        a2 % m == a % m,
        b2 % m == b % m,
        c2 % m == c % m,
        d2 % m == d % m,
    ensures
        (a2 * b2 + c2 * d2) % m == (a * b + c * d) % m,
{
    lemma_mod_mul(a, b, m);
    lemma_mod_mul(a2, b2, m);
    lemma_mod_mul(c, d, m);
    lemma_mod_mul(c2, d2, m);
    lemma_mod_add(a * b, c * d, m);
    lemma_mod_add(a2 * b2, c2 * d2, m);
}

/// Products of congruent matrices are congruent.
pub proof fn lemma_times_congruent(a: Mat<int>, b: Mat<int>, a2: Mat<int>, b2: Mat<int>, m: int)
    requires
        m != 0,
        a2.reduce(m) == a.reduce(m),
        b2.reduce(m) == b.reduce(m),
    ensures
        a2.times(b2).reduce(m) == a.times(b).reduce(m),
{
    lemma_dot_congruent(a.0.0, b.0.0, a.0.1, b.1.0, a2.0.0, b2.0.0, a2.0.1, b2.1.0, m);
    lemma_dot_congruent(a.0.0, b.0.1, a.0.1, b.1.1, a2.0.0, b2.0.1, a2.0.1, b2.1.1, m);
    lemma_dot_congruent(a.1.0, b.0.0, a.1.1, b.1.0, a2.1.0, b2.0.0, a2.1.1, b2.1.0, m);
    lemma_dot_congruent(a.1.0, b.0.1, a.1.1, b.1.1, a2.1.0, b2.0.1, a2.1.1, b2.1.1, m);
}

/// The power modulo `m` has no negative entry and is congruent to the power
/// over the integers.
pub proof fn lemma_power_mod(x: Mat<int>, n: nat, m: int)
    requires
        m != 0,
    ensures
        x.power_mod(n, m).nonneg(),
        x.power_mod(n, m).reduce(m) == x.power(n).reduce(m),
{
    lemma_reduce(x.power(n), m);
}

/// Multiplying the power modulo `m` by one more factor and reducing gives the
/// next power modulo `m`, whether the factor comes reduced or not.
pub proof fn lemma_power_mod_step(x: Mat<int>, y: Mat<int>, n: nat, m: int)
    requires
        m != 0,
        y.reduce(m) == x.reduce(m),
    ensures
        x.power_mod(n, m).times(y).reduce(m) == x.power_mod(n + 1, m),
{
    lemma_power_mod(x, n, m);
    lemma_times_congruent(x.power(n), x, x.power_mod(n, m), y, m);
}

/// The product of two powers modulo `m`, reduced, is the power modulo `m` of
/// the sum of the exponents, as soon as that sum is not zero.
pub proof fn lemma_power_mod_adds(x: Mat<int>, a: nat, b: nat, m: int)
    requires
        m != 0,
        a + b > 0,
    ensures
        x.power_mod(a, m).times(x.power_mod(b, m)).reduce(m) == x.power_mod(a + b, m),
{
    lemma_power_mod(x, a, m);
    lemma_power_mod(x, b, m);
    lemma_times_congruent(x.power(a), x.power(b), x.power_mod(a, m), x.power_mod(b, m), m);
    lemma_power_adds(x, a, b);
}

/// On a matrix without negative entries the power by recursive halving is the
/// power modulo `m`.
pub proof fn lemma_power_halving(x: Mat<int>, n: nat, m: int)
    requires
        m != 0,
        x.nonneg(),
    ensures
        x.power_halving(n, m) == x.power_mod(n, m),
    decreases n,
{
    if n > 0 {
        let k = n / 2;
        let half = x.power_mod(k, m);
        let square = half.times(half).rem(m);
        lemma_power_halving(x, k, m);
        lemma_power_mod(x, k, m);
        lemma_times_nonneg(half, half);
        lemma_reduce(half.times(half), m);
        if k > 0 {
            lemma_power_mod_adds(x, k, k, m);
        } else {
            lemma_times_identity(Mat::<int>::identity());
        }
        if n % 2 == 1 {
            lemma_times_nonneg(square, x);
            lemma_reduce(square.times(x), m);
            if k > 0 {
                lemma_power_mod_step(x, x, 2 * k, m);
            } else {
                lemma_reduce(Mat::<int>::identity(), m);
                lemma_times_identity(x);
                lemma_power_one(x);
                lemma_times_congruent(Mat::<int>::identity(), x, square, x, m);
            }
        }
    }
}

/// The ladder carries the power modulo `m` forward: started with the
/// accumulator at the power for `done` and a base congruent to the power for
/// `e`, it ends, after the bits of `k`, at the power for `done + e * k`.
pub proof fn lemma_power_ladder(
    x: Mat<int>,
    base: Mat<int>,
    acc: Mat<int>,
    done: nat,
    e: nat,
    k: nat,
    m: int,
)
    requires
        m != 0,
        e >= 1,
        base.nonneg(),
        base.reduce(m) == x.power(e).reduce(m),
        acc == x.power_mod(done, m),
    ensures
        base.power_ladder(acc, k, m) == x.power_mod(done + e * k, m),
    decreases k,
{
    if k == 0 {
        assert(e * k == 0) by (nonlinear_arith)
            requires
                k == 0,
        ;
    } else {
        let next = if k % 2 == 1 {
            acc.times(base).rem(m)
        } else {
            acc
        };
        let done2 = if k % 2 == 1 {
            done + e
        } else {
            done
        };
        if k % 2 == 1 {
            lemma_power_mod(x, done, m);
            lemma_power_mod(x, e, m);
            lemma_times_nonneg(acc, base);
            lemma_reduce(acc.times(base), m);
            lemma_times_congruent(x.power(done), x.power(e), acc, base, m);
            lemma_power_adds(x, done, e);
        }
        let square = base.times(base).rem(m);
        lemma_times_nonneg(base, base);
        lemma_reduce(base.times(base), m);
        lemma_times_congruent(x.power(e), x.power(e), base, base, m);
        lemma_power_adds(x, e, e);
        lemma_power_ladder(x, square, next, done2, 2 * e, k / 2, m);
        assert(done2 + (2 * e) * (k / 2) == done + e * k) by (nonlinear_arith)
            requires
                k == 2 * (k / 2) + k % 2,
                (k % 2 == 1 && done2 == done + e) || (k % 2 == 0 && done2 == done),
        ;
    }
}

/// The two ways to halve the exponent give the same matrix, the power modulo
/// `m`, on every matrix without negative entries. Where an entry is negative
/// the truncated remainders of the two may differ in sign.
pub proof fn lemma_power_strategies_agree(x: Mat<int>, n: nat, m: int)
    requires
        m != 0,
        x.nonneg(),
    ensures
        x.power_halving(n, m) == x.power_mod(n, m),
        x.power_iterative(n, m) == x.power_mod(n, m),
        x.power_halving(n, m) == x.power_iterative(n, m),
{
    lemma_power_halving(x, n, m);
    lemma_power_one(x);
    lemma_power_ladder(x, x, Mat::<int>::identity(), 0, 1, n, m);
    assert(0 + 1 * n == n) by (nonlinear_arith);
}

/// Raising to the power zero gives the identity by either way of halving,
/// whatever the matrix and the modulus.
pub proof fn lemma_power_zero(x: Mat<int>, m: int)
    ensures
        x.power_halving(0, m) == Mat::<int>::identity(),
        x.power_iterative(0, m) == Mat::<int>::identity(),
        x.power_mod(0, m) == Mat::<int>::identity(),
{
}

impl<T: EuclideanDomain> Mat<T> {
    /// The identity matrix.
    pub fn one() -> (r: Self)
        ensures
            r@ == Mat::<int>::identity(),
    {
        Mat((T::one(), T::zero()), (T::zero(), T::one()))
    }

    /// The Q-matrix `((0, 1), (1, 1))`.
    pub fn q_matrix() -> (r: Self)
        ensures
            r@ == Mat::<int>::q(),
    {
        Mat((T::zero(), T::one()), (T::one(), T::one()))
    }

    /// The product `self * other` with every entry reduced by `m`.
    pub fn mul(&self, other: &Self, m: T) -> (r: Self)
        requires
            m.value() != 0,
        ensures
            r@ == self@.times(other@).rem(m.value()),
    {
        self::mul(self, other, m)
    }

    /// `self` to the power `n` modulo `m`, by iterative halving of `n`.
    pub fn pow<U: Exponent>(&self, n: U, m: T) -> (r: Self)
        requires
            m.value() != 0,
            n.value() >= 0,
        ensures
            r@ == self@.power_iterative(n.value() as nat, m.value()),
            self@.nonneg() ==> r@ == self@.power_mod(n.value() as nat, m.value()),
    {
        exp_loop(self, n, m)
    }
}

/// The product `x * y` with every entry reduced by `m`.
fn mul<T: EuclideanDomain>(x: &Mat<T>, y: &Mat<T>, m: T) -> (r: Mat<T>)
    requires
        m.value() != 0,
    ensures
        r@ == x@.times(y@).rem(m.value()),
{
    Mat(
        (
            T::dot_rem(&x.0.0, &y.0.0, &x.0.1, &y.1.0, &m),
            T::dot_rem(&x.0.0, &y.0.1, &x.0.1, &y.1.1, &m),
        ),
        (
            T::dot_rem(&x.1.0, &y.0.0, &x.1.1, &y.1.0, &m),
            T::dot_rem(&x.1.0, &y.0.1, &x.1.1, &y.1.1, &m),
        ),
    )
}

/// `x` to the power `n` modulo `m`, by recursive halving of `n`: the square
/// of the power for `n >> 1`, times `x` once more if `n` is odd.
///
/// On a matrix without negative entries this is the power modulo `m`.
pub fn exp_req<T: EuclideanDomain, U: Exponent>(x: &Mat<T>, n: U, m: T) -> (r: Mat<T>)
    requires
        m.value() != 0,
        n.value() >= 0,
    ensures
        r@ == x@.power_halving(n.value() as nat, m.value()),
        x@.nonneg() ==> r@ == x@.power_mod(n.value() as nat, m.value()),
    decreases n.value(),
{
    proof {
        if x@.nonneg() {
            lemma_power_halving(x@, n.value() as nat, m.value());
        }
    }
    if n.is_zero() {
        return Mat::one();
    }
    let mut y = exp_req(x, n.shr_one(), duplicate(&m));
    y = y.mul(&y, duplicate(&m));
    if n.and_one().is_zero() {
        y
    } else {
        y.mul(x, m)
    }
}

/// `x` to the power `n` modulo `m`, by iterative halving of `n`: walks the
/// bits of `n` from the lowest, multiplies a running base into the result
/// where the bit is set and squares the base at each.
///
/// On a matrix without negative entries this is the power modulo `m`, the
/// same matrix that [`exp_req`] returns.
pub fn exp_loop<T: EuclideanDomain, U: Exponent>(x: &Mat<T>, n: U, m: T) -> (r: Mat<T>)
    requires
        m.value() != 0,
        n.value() >= 0,
    ensures
        r@ == x@.power_iterative(n.value() as nat, m.value()),
        x@.nonneg() ==> r@ == x@.power_mod(n.value() as nat, m.value()),
{
    proof {
        if x@.nonneg() {
            lemma_power_strategies_agree(x@, n.value() as nat, m.value());
        }
    }
    let ghost total = n.value() as nat;
    let mut n = n;
    let mut y: Mat<T> = x.clone();
    let mut z: Mat<T> = Mat::one();
    while !n.is_zero()
        invariant
            m.value() != 0,
            n.value() >= 0,
            y@.power_ladder(z@, n.value() as nat, m.value()) == x@.power_iterative(
                total,
                m.value(),
            ),
        decreases n.value(),
    {
        if n.and_one().is_one() {
            z = z.mul(&y, duplicate(&m));
        }
        y = y.mul(&y, duplicate(&m));
        n = n.shr_one();
    }
    z
}

} // verus!
