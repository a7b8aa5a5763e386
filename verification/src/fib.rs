//! The Fibonacci sequence, what each strategy yields of it modulo `m`, and the
//! laws that tie the strategies together.
use crate::arith::{lemma_mod_add, lemma_mod_magnitude, lemma_mod_small, magnitude};
use crate::mat::{lemma_power_one, lemma_power_strategies_agree, Mat};
use vstd::prelude::*;

verus! {

/// The Fibonacci sequence: `F(0) = 0`, `F(1) = 1`, `F(n) = F(n-2) + F(n-1)`.
pub open spec fn fib(n: nat) -> nat
    decreases n,
{
    if n == 0 {
        0
    } else if n == 1 {
        1
    } else {
        fib((n - 2) as nat) + fib((n - 1) as nat)
    }
}

/// What the recurrence and the running pair yield for `n >= 0`: they start
/// from `F(1) = 1` as it is and reduce every later sum, so the result is
/// `F(n) mod m` but for `n == 1`, where it is 1 whatever `m`.
pub open spec fn fib_plain(n: nat, m: int) -> int {
    if n == 1 {
        1
    } else {
        fib(n) as int % m
    }
}

/// What the matrix strategies yield for `n >= 0`: `F(n) mod m`.
pub open spec fn fib_reduced(n: nat, m: int) -> int {
    fib(n) as int % m
}

/// The value at index `n` from the value `v` at index `|n|`: since
/// `F(-k) = (-1)^(k+1) F(k)`, `v` is negated where `n` is negative and even.
pub open spec fn extend(n: int, v: int) -> int {
    if n < 0 && n % 2 == 0 {
        -v
    } else {
        v
    }
}

/// The result of the recursive and of the sequential strategy at any index.
pub open spec fn fibo_direct(n: int, m: int) -> int {
    extend(n, fib_plain(magnitude(n) as nat, m))
}

/// The result of the three matrix strategies at any index.
pub open spec fn fibo_matrix(n: int, m: int) -> int {
    extend(n, fib_reduced(magnitude(n) as nat, m))
}

/// The ways to compute `F(n) mod m`.
#[derive(Clone, Copy, Debug, PartialEq, Eq)]
pub enum Strategy {
    /// The recurrence `F(n) = F(n-2) + F(n-1)`, in exponential time.
    Recursive,
    /// The running pair `(F(i), F(i+1))`, in linear time.
    Sequential,
    /// The Q-matrix multiplied `n` times, in linear time.
    MatrixSequential,
    /// The power of the Q-matrix by recursive halving, in logarithmic time.
    MatrixPowRecursive,
    /// The power of the Q-matrix by iterative halving, in logarithmic time.
    MatrixPowIterative,
}

impl Strategy {
    /// What the strategy yields at index `n` for the modulus `m`.
    pub open spec fn result(self, n: int, m: int) -> int {
        match self {
            Strategy::Recursive | Strategy::Sequential => fibo_direct(n, m),
            Strategy::MatrixSequential
            | Strategy::MatrixPowRecursive
            | Strategy::MatrixPowIterative => fibo_matrix(n, m),
        }
    }
}

/// The powers of the Q-matrix hold consecutive Fibonacci numbers:
/// `Q^(n+1) = ((F(n), F(n+1)), (F(n+1), F(n+2)))`.
pub proof fn lemma_q_power(n: nat)
    ensures
        Mat::<int>::q().power(n + 1) == Mat(
            (fib(n) as int, fib(n + 1) as int),
            (fib(n + 1) as int, fib(n + 2) as int),
        ),
    decreases n,
{
    let q = Mat::<int>::q();
    if n == 0 {
        lemma_power_one(q);
        assert(fib(2) == fib(0) + fib(1));
    } else {
        lemma_q_power((n - 1) as nat);
        assert(q.power(n + 1) == q.power(n).times(q));
        assert(fib(n + 2) == fib(n) + fib(n + 1));
        assert(fib(n + 1) == fib((n - 1) as nat) + fib(n));
    }
}

/// The top-right entry of the `n`-th power of the Q-matrix modulo `m` is
/// `F(n) mod m`.
pub proof fn lemma_q_power_mod(n: nat, m: int)
    requires
        m != 0,
    ensures
        Mat::<int>::q().power_mod(n, m).0.1 == fib_reduced(n, m),
{
    if n == 0 {
        lemma_mod_small(0, m);
    } else {
        lemma_q_power((n - 1) as nat);
    }
}

/// Both kinds of result lie in `0 .. |m|` or are 1, and stand for `F(n)`
/// modulo `m`.
pub proof fn lemma_fib_plain(n: nat, m: int)
    requires
        m != 0,
    ensures
        fib_plain(n, m) >= 0,
        fib_reduced(n, m) >= 0,
        fib_plain(n, m) % m == fib(n) as int % m,
        fib_reduced(n, m) % m == fib(n) as int % m,
{
    lemma_mod_magnitude(fib(n) as int, m);
    lemma_mod_add(fib(n) as int, 0, m);
    lemma_mod_small(0, m);
}

/// One step of the recurrence on residues: from values that stand for
/// `F(n)` and `F(n+1)` modulo `m`, their reduced sum is `F(n+2) mod m`.
pub proof fn lemma_fib_step(n: nat, a: int, b: int, m: int)
    requires
        m != 0,
        a % m == fib(n) as int % m,
        b % m == fib(n + 1) as int % m,
    ensures
        (a + b) % m == fib_reduced(n + 2, m),
        (a + b) % m == fib_plain(n + 2, m),
{
    lemma_mod_add(a, b, m);
    lemma_mod_add(fib(n) as int, fib(n + 1) as int, m);
    assert(fib(n + 2) == fib(n) + fib(n + 1));
}

/// All strategies agree at every index `n >= 0` and modulus `m > 0` except
/// `n == 1` with `m == 1`, where the recursive and the sequential one give the
/// unreduced `F(1) = 1` and the matrix ones give 0.
pub proof fn lemma_strategies_agree(s1: Strategy, s2: Strategy, n: int, m: int)
    requires
        n >= 0,
        m > 0,
        !(n == 1 && m == 1),
    ensures
        s1.result(n, m) == s2.result(n, m),
        fibo_direct(n, m) == fibo_matrix(n, m),
{
    if n == 1 {
        lemma_mod_small(1, m);
    }
}

/// The two logarithmic strategies, by recursive and by iterative halving, find
/// the same top-right entry in the power of the Q-matrix at every index
/// `n >= 0`; for a modulus above 1 it is what the sequential strategy gives.
pub proof fn lemma_logarithmic_strategies_agree(n: int, m: int)
    requires
        n >= 0,
        m > 1,
    ensures
        Mat::<int>::q().power_halving(n as nat, m).0.1 == Mat::<int>::q().power_iterative(
            n as nat,
            m,
        ).0.1,
        Mat::<int>::q().power_halving(n as nat, m).0.1 == Strategy::MatrixPowRecursive.result(
            n,
            m,
        ),
        Strategy::MatrixPowRecursive.result(n, m) == Strategy::MatrixPowIterative.result(n, m),
        Strategy::MatrixPowIterative.result(n, m) == Strategy::Sequential.result(n, m),
{
    lemma_power_strategies_agree(Mat::<int>::q(), n as nat, m);
    lemma_q_power_mod(n as nat, m);
    lemma_strategies_agree(Strategy::MatrixPowIterative, Strategy::Sequential, n, m);
}

/// Negative indices: for `n > 0` every strategy gives at `-n` what it gives at
/// `n` when `n` is odd, and the negation of that when `n` is even.
pub proof fn lemma_negative_index(s: Strategy, n: int, m: int)
    requires
        n > 0,
    ensures
        s.result(-n, m) == if n % 2 == 1 {
            s.result(n, m)
        } else {
            -s.result(n, m)
        },
{
    assert((-n) % 2 == n % 2);
}

} // verus!
