//! Fibonacci numbers modulo `m`, by recursion, by iteration, by repeated
//! multiplication of the Q-matrix and by its binary exponentiation, over any
//! integer type that offers the ring and exponent operations of [`algebra`].
//!
//! Every strategy comes twice: `*_pos` for an index `n >= 0`, over any
//! Euclidean domain, and the function without the suffix, which also takes a
//! negative index and needs a type that can change sign.
use vstd::prelude::*;

pub mod algebra;
pub mod arith;
pub mod big;
pub mod fib;
pub mod mat;
pub mod native;
pub mod ring;

use crate::algebra::{duplicate, EuclideanDomain, Exponent};
use crate::arith::{lemma_mod_small, magnitude};
pub use crate::fib::Strategy;
use crate::fib::{
    extend,
    fib_plain,
    fib_reduced,
    fibo_direct,
    fibo_matrix,
    lemma_fib_plain,
    lemma_fib_step,
    lemma_q_power_mod,
};
use crate::mat::{lemma_power_mod, lemma_power_mod_step, lemma_reduce, lemma_times_nonneg, Mat};

verus! {

/// An index into the Fibonacci sequence: a ring element that is also an
/// exponent, can be compared and can change sign.
pub trait Index: EuclideanDomain + Exponent {
    /// A non-negative integer that the type holds can be negated in it.
    proof fn lemma_fits_negated(v: int)
        ensures
            Self::fits(v) && v >= 0 ==> Self::fits(-v),
    ;

    /// `self < rhs`.
    fn less_than(&self, rhs: &Self) -> (b: bool)
        ensures
            b == (self.value() < rhs.value()),
    ;

    /// `-self`.
    fn neg(&self) -> (r: Self)
        requires
            Self::fits(-self.value()),
        ensures
            r.value() == -self.value(),
    ;
}

/// Extends a strategy for non-negative indices to all of them: calls `func`
/// at `|n|` and negates what it returns where `n` is negative and even.
fn fibo<T: Index, F: Fn(T, T) -> T>(func: F, n: T, m: T) -> (r: T)
    requires
        n.value() < 0 ==> T::fits(-n.value()),
        forall|a: T, b: T|
            a.value() == magnitude(n.value()) && b.value() == m.value() ==> call_requires(
                func,
                (a, b),
            ),
        forall|a: T, b: T, s: T|
            a.value() == magnitude(n.value()) && b.value() == m.value() && call_ensures(
                func,
                (a, b),
                s,
            ) ==> s.value() >= 0,
    ensures
        exists|a: T, b: T, s: T|
            a.value() == magnitude(n.value()) && b.value() == m.value() && call_ensures(
                func,
                (a, b),
                s,
            ) && r.value() == extend(n.value(), s.value()),
{
    if n.less_than(&T::zero()) {
        let even = n.and_one().is_zero();
        let a = n.neg();
        let ghost b = m;
        let s = func(a, m);
        proof {
            s.lemma_value_fits();
            T::lemma_fits_negated(s.value());
        }
        let ghost found = s;
        let r = if even {
            s.neg()
        } else {
            s
        };
        assert(a.value() == magnitude(n.value()) && b.value() == m.value() && call_ensures(
            func,
            (a, b),
            found,
        ) && r.value() == extend(n.value(), found.value()));
        r
    } else {
        let ghost a = n;
        let ghost b = m;
        let s = func(n, m);
        assert(a.value() == magnitude(n.value()) && b.value() == m.value() && call_ensures(
            func,
            (a, b),
            s,
        ) && s.value() == extend(n.value(), s.value()));
        s
    }
}

/// `F(n) mod m` for `n >= 0` by the recurrence `F(n) = F(n-2) + F(n-1)`,
/// every sum reduced. The time grows like `F(n)` itself.
pub fn fibo_rec_pos<T: EuclideanDomain>(n: T, m: T) -> (r: T)
    requires
        n.value() >= 0,
        m.value() != 0,
    ensures
        r.value() == fib_plain(n.value() as nat, m.value()),
    decreases n.value(),
{
    if n.is_zero() {
        proof {
            lemma_mod_small(0, m.value());
        }
        return T::zero();
    }
    if n.is_one() {
        return T::one();
    }
    let ghost k = (n.value() - 2) as nat;
    proof {
        n.lemma_value_fits();
        T::lemma_fits_between(0, n.value() - 1, n.value());
        T::lemma_fits_between(0, n.value() - 2, n.value());
    }
    let one = T::one();
    let n1 = n.sub(&one);
    let n2 = n1.sub(&one);
    let a = fibo_rec_pos(n2, duplicate(&m));
    let b = fibo_rec_pos(n1, duplicate(&m));
    proof {
        lemma_fib_plain(k, m.value());
        lemma_fib_plain(k + 1, m.value());
        lemma_fib_step(k, a.value(), b.value(), m.value());
    }
    a.add_rem(&b, &m)
}

/// `F(n) mod m` by the recurrence, at any index.
pub fn fibo_rec<T: Index>(n: T, m: T) -> (r: T)
    requires
        m.value() != 0,
        n.value() < 0 ==> T::fits(-n.value()),
    ensures
        r.value() == fibo_direct(n.value(), m.value()),
{
    proof {
        assert forall|a: T, b: T, s: T|
            a.value() == magnitude(n.value()) && b.value() == m.value() && call_ensures(
                fibo_rec_pos::<T>,
                (a, b),
                s,
            ) implies s.value() >= 0 by {
            lemma_fib_plain(a.value() as nat, b.value());
        }
    }
    fibo(fibo_rec_pos::<T>, n, m)
}

/// `F(n) mod m` for `n >= 0` by a running pair `(a, b)`, which starts at
/// `(F(0), F(1))` and steps `n` times to `(b, (a + b) mod m)`. Linear time.
pub fn fibo_seq_pos<T: EuclideanDomain>(n: T, m: T) -> (r: T)
    requires
        n.value() >= 0,
        m.value() != 0,
    ensures
        r.value() == fib_plain(n.value() as nat, m.value()),
{
    let mut a = T::zero();
    let mut b = T::one();
    let mut i = T::zero();
    proof {
        lemma_mod_small(0, m.value());
    }
    while !i.is_equal(&n)
        invariant
            m.value() != 0,
            0 <= i.value() <= n.value(),
            a.value() == fib_plain(i.value() as nat, m.value()),
            b.value() == fib_plain((i.value() + 1) as nat, m.value()),
        decreases n.value() - i.value(),
    {
        let ghost k = i.value() as nat;
        proof {
            lemma_fib_plain(k, m.value());
            lemma_fib_plain(k + 1, m.value());
            lemma_fib_step(k, a.value(), b.value(), m.value());
            n.lemma_value_fits();
            T::lemma_fits_between(0, i.value() + 1, n.value());
        }
        let t = a.add_rem(&b, &m);
        a = b;
        b = t;
        i = i.add(&T::one());
    }
    a
}

/// `F(n) mod m` by the running pair, at any index.
pub fn fibo_seq<T: Index>(n: T, m: T) -> (r: T)
    requires
        m.value() != 0,
        n.value() < 0 ==> T::fits(-n.value()),
    ensures
        r.value() == fibo_direct(n.value(), m.value()),
{
    proof {
        assert forall|a: T, b: T, s: T|
            a.value() == magnitude(n.value()) && b.value() == m.value() && call_ensures(
                fibo_seq_pos::<T>,
                (a, b),
                s,
            ) implies s.value() >= 0 by {
            lemma_fib_plain(a.value() as nat, b.value());
        }
    }
    fibo(fibo_seq_pos::<T>, n, m)
}

/// `F(n) mod m` for `n >= 0` as the top-right entry of the Q-matrix
/// multiplied `n` times into the identity modulo `m`. Linear time.
pub fn fibo_mat_pos<T: EuclideanDomain>(n: T, m: T) -> (r: T)
    requires
        n.value() >= 0,
        m.value() != 0,
    ensures
        r.value() == fib_reduced(n.value() as nat, m.value()),
{
    let mut t: Mat<T> = Mat::one();
    let mut i = T::zero();
    while !i.is_equal(&n)
        invariant
            m.value() != 0,
            0 <= i.value() <= n.value(),
            t@ == Mat::<int>::q().power_mod(i.value() as nat, m.value()),
        decreases n.value() - i.value(),
    {
        let ghost k = i.value() as nat;
        let q: Mat<T> = Mat::q_matrix();
        proof {
            lemma_power_mod(q@, k, m.value());
            lemma_times_nonneg(t@, q@);
            lemma_reduce(t@.times(q@), m.value());
            lemma_power_mod_step(q@, q@, k, m.value());
            n.lemma_value_fits();
            T::lemma_fits_between(0, i.value() + 1, n.value());
        }
        t = t.mul(&q, duplicate(&m));
        i = i.add(&T::one());
    }
    proof {
        lemma_q_power_mod(n.value() as nat, m.value());
    }
    t.0.1
}

/// `F(n) mod m` by repeated multiplication of the Q-matrix, at any index.
pub fn fibo_mat<T: Index>(n: T, m: T) -> (r: T)
    requires
        m.value() != 0,
        n.value() < 0 ==> T::fits(-n.value()),
    ensures
        r.value() == fibo_matrix(n.value(), m.value()),
{
    proof {
        assert forall|a: T, b: T, s: T|
            a.value() == magnitude(n.value()) && b.value() == m.value() && call_ensures(
                fibo_mat_pos::<T>,
                (a, b),
                s,
            ) implies s.value() >= 0 by {
            lemma_fib_plain(a.value() as nat, b.value());
        }
    }
    fibo(fibo_mat_pos::<T>, n, m)
}

/// `F(n) mod m` for `n >= 0` as the top-right entry of the `n`-th power of
/// the Q-matrix modulo `m`, by recursive halving. Logarithmic time.
pub fn fibo_mat_req_pos<T: EuclideanDomain + Exponent>(n: T, m: T) -> (r: T)
    requires
        n.value() >= 0,
        m.value() != 0,
    ensures
        r.value() == fib_reduced(n.value() as nat, m.value()),
{
    proof {
        lemma_q_power_mod(n.value() as nat, m.value());
    }
    let q: Mat<T> = Mat::q_matrix();
    mat::exp_req(&q, n, m).0.1
}

/// `F(n) mod m` by recursive halving, at any index.
pub fn fibo_mat_req<T: Index>(n: T, m: T) -> (r: T)
    requires
        m.value() != 0,
        n.value() < 0 ==> T::fits(-n.value()),
    ensures
        r.value() == fibo_matrix(n.value(), m.value()),
{
    proof {
        assert forall|a: T, b: T, s: T|
            a.value() == magnitude(n.value()) && b.value() == m.value() && call_ensures(
                fibo_mat_req_pos::<T>,
                (a, b),
                s,
            ) implies s.value() >= 0 by {
            lemma_fib_plain(a.value() as nat, b.value());
        }
    }
    fibo(fibo_mat_req_pos::<T>, n, m)
}

/// `F(n) mod m` for `n >= 0` as the top-right entry of the `n`-th power of
/// the Q-matrix modulo `m`, by iterative halving. Logarithmic time, without
/// the calls of the recursive form.
pub fn fibo_mat_loop_pos<T: EuclideanDomain + Exponent>(n: T, m: T) -> (r: T)
    requires
        n.value() >= 0,
        m.value() != 0,
    ensures
        r.value() == fib_reduced(n.value() as nat, m.value()),
{
    proof {
        lemma_q_power_mod(n.value() as nat, m.value());
    }
    let q: Mat<T> = Mat::q_matrix();
    q.pow(n, m).0.1
}

/// `F(n) mod m` by iterative halving, at any index.
pub fn fibo_mat_loop<T: Index>(n: T, m: T) -> (r: T)
    requires
        m.value() != 0,
        n.value() < 0 ==> T::fits(-n.value()),
    ensures
        r.value() == fibo_matrix(n.value(), m.value()),
{
    proof {
        assert forall|a: T, b: T, s: T|
            a.value() == magnitude(n.value()) && b.value() == m.value() && call_ensures(
                fibo_mat_loop_pos::<T>,
                (a, b),
                s,
            ) implies s.value() >= 0 by {
            lemma_fib_plain(a.value() as nat, b.value());
        }
    }
    fibo(fibo_mat_loop_pos::<T>, n, m)
}

/// `F(n) mod m` by the strategy asked for, at any index.
pub fn fibonacci<T: Index>(n: T, m: T, strategy: Strategy) -> (r: T)
    requires
        m.value() != 0,
        n.value() < 0 ==> T::fits(-n.value()),
    ensures
        r.value() == strategy.result(n.value(), m.value()),
{
    match strategy {
        Strategy::Recursive => fibo_rec(n, m),
        Strategy::Sequential => fibo_seq(n, m),
        Strategy::MatrixSequential => fibo_mat(n, m),
        Strategy::MatrixPowRecursive => fibo_mat_req(n, m),
        Strategy::MatrixPowIterative => fibo_mat_loop(n, m),
    }
}

} // verus!
