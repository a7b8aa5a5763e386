use fibo::{
    fibo_mat, fibo_mat_loop, fibo_mat_loop_pos, fibo_mat_pos, fibo_mat_req, fibo_mat_req_pos,
    fibo_rec, fibo_rec_pos, fibo_seq, fibo_seq_pos, fibonacci, Strategy,
};

const STRATEGIES: [Strategy; 5] = [
    Strategy::Recursive,
    Strategy::Sequential,
    Strategy::MatrixSequential,
    Strategy::MatrixPowRecursive,
    Strategy::MatrixPowIterative,
];
use num_bigint::{BigInt, BigUint};

#[test]
fn fibo_rec_10_1000_i64() {
    assert_eq!(fibo_rec(10i64, 1000i64), 55i64);
}

#[test]
fn fibo_rec_minus10_1000_i64() {
    assert_eq!(fibo_rec(-10i64, 1000i64), -55i64);
}

#[test]
fn fibo_rec_10_1000_big_int() {
    assert_eq!(fibo_rec(BigInt::from(10i64), BigInt::from(1000i64)), BigInt::from(55i64));
}

#[test]
fn fibo_seq_1000_1000000000_i64() {
    assert_eq!(fibo_seq(1000i64, 1000_000_000i64), 849228875i64);
}

#[test]
fn fibo_seq_minus1000_1000000000_i64() {
    assert_eq!(fibo_seq(-1000i64, 1000_000_000i64), -849228875i64);
}

#[test]
fn fibo_seq_1000_1000000000_big_int() {
    assert_eq!(
        fibo_seq(BigInt::from(1000i64), BigInt::from(1000_000_000i64)),
        BigInt::from(849228875i64)
    );
}

#[test]
fn fibo_mat_1000000_1000_i64() {
    assert_eq!(fibo_mat(1000_000i64, 1000i64), 875i64);
}

#[test]
fn fibo_mat_minus1000000_1000_i64() {
    assert_eq!(fibo_mat(-1000_000i64, 1000i64), -875i64);
}

#[test]
fn fibo_mat_1000000_1000_big_int() {
    assert_eq!(
        fibo_mat(BigInt::from(1000i64), BigInt::from(1000_000_000i64)),
        BigInt::from(849228875i64)
    );
}

#[test]
fn fibo_mat_req_1000000_1000_i64() {
    assert_eq!(fibo_mat_req(1000_000i64, 1000i64), 875i64);
}

#[test]
fn fibo_mat_req_minus1000000_1000_i64() {
    assert_eq!(fibo_mat_req(-1000_000i64, 1000i64), -875i64);
}

#[test]
fn fibo_mat_req_1000000_1000_big_int() {
    assert_eq!(
        fibo_mat_req(BigInt::from(1000_000i64), BigInt::from(1000i64)),
        BigInt::from(875i64)
    );
}

#[test]
fn fibo_mat_loop_1000000_1000_i64() {
    assert_eq!(fibo_mat_loop(1000_000i64, 1000i64), 875i64);
}

#[test]
fn fibo_mat_loop_minus1000000_1000_i64() {
    assert_eq!(fibo_mat_loop(-1000_000i64, 1000i64), -875i64);
}

#[test]
fn fibo_mat_loop_1000000_1000_big_int() {
    assert_eq!(
        fibo_mat_loop(BigInt::from(1000_000i64), BigInt::from(1000i64)),
        BigInt::from(875i64)
    );
}

#[test]
fn fibo_rec_n_10() {
    assert_eq!(fibo_rec_pos(10u64, 1000u64), 55);
}

#[test]
fn fibo_seq_n_10() {
    assert_eq!(fibo_seq_pos(1000u64, 1000_000_000u64), 849228875);
}

#[test]
fn fibo_mat_1000_000_1000() {
    assert_eq!(fibo_mat_pos(1000_000u64, 1000u64), 875);
}

#[test]
fn fibo_mat_req_1000_000_1000() {
    assert_eq!(fibo_mat_req_pos(1000_000u64, 1000u64), 875);
}

#[test]
fn fibo_mat_loop_1000_000_1000() {
    assert_eq!(fibo_mat_loop_pos(1000_000u64, 1000u64), 875);
}

#[test]
fn sequential_ten_is_55() {
    assert_eq!(fibo_seq(10i64, 1000i64), 55);
    assert_eq!(fibo_seq_pos(10u64, 1000u64), 55);
}

#[test]
fn index_zero_gives_zero() {
    for m in [1i64, 2, 7, 1000, -3] {
        assert_eq!(fibo_rec(0i64, m), 0);
        assert_eq!(fibo_seq(0i64, m), 0);
        assert_eq!(fibo_mat(0i64, m), 0);
        assert_eq!(fibo_mat_req(0i64, m), 0);
        assert_eq!(fibo_mat_loop(0i64, m), 0);
    }
}

#[test]
fn index_one_modulus_one_is_left_unreduced_by_the_direct_strategies() {
    assert_eq!(fibo_rec(1i64, 1i64), 1);
    assert_eq!(fibo_seq(1i64, 1i64), 1);
    assert_eq!(fibo_mat(1i64, 1i64), 0);
    assert_eq!(fibo_mat_req(1i64, 1i64), 0);
    assert_eq!(fibo_mat_loop(1i64, 1i64), 0);
    assert_eq!(fibo_rec(2i64, 1i64), 0);
    assert_eq!(fibo_seq(2i64, 1i64), 0);
}

#[test]
fn all_strategies_agree_on_small_inputs() {
    for n in 0i64..=22 {
        for m in [1i64, 2, 3, 10, 97, 1000, 1_000_000_007, i64::MAX] {
            if n == 1 && m == 1 {
                continue;
            }
            let expected = fibo_seq(n, m);
            assert_eq!(fibo_rec(n, m), expected);
            assert_eq!(fibo_mat(n, m), expected);
            assert_eq!(fibo_mat_req(n, m), expected);
            assert_eq!(fibo_mat_loop(n, m), expected);
        }
    }
}

#[test]
fn logarithmic_strategies_agree_with_sequential_far_out() {
    let m = 1_000_000_000i64;
    assert_eq!(fibo_seq(10_000_000i64, m), 380546875);
    assert_eq!(fibo_mat_req(10_000_000i64, m), 380546875);
    assert_eq!(fibo_mat_loop(10_000_000i64, m), 380546875);
}

#[test]
fn negative_index_follows_parity() {
    for n in 1i64..=20 {
        for m in [2i64, 10, 1000, 1_000_000_007] {
            let at_n = fibo_seq(n, m);
            let expected = if n % 2 == 1 { at_n } else { -at_n };
            assert_eq!(fibo_rec(-n, m), expected);
            assert_eq!(fibo_seq(-n, m), expected);
            assert_eq!(fibo_mat(-n, m), expected);
            assert_eq!(fibo_mat_req(-n, m), expected);
            assert_eq!(fibo_mat_loop(-n, m), expected);
        }
    }
    assert_eq!(fibo_seq(-9i64, 1000i64), 34);
    assert_eq!(fibo_seq(-10i64, 1000i64), -55);
}

#[test]
fn negative_index_big_int() {
    let m = BigInt::from(1000_000_000i64);
    assert_eq!(fibo_seq(BigInt::from(-1000i64), m.clone()), BigInt::from(-849228875i64));
    assert_eq!(fibo_mat_loop(BigInt::from(-1000i64), m.clone()), BigInt::from(-849228875i64));
    assert_eq!(fibo_mat_req(BigInt::from(-999i64), m.clone()), fibo_seq(BigInt::from(999i64), m));
}

#[test]
fn negative_modulus_reduces_by_its_magnitude() {
    assert_eq!(fibo_seq(10i64, -7i64), 6);
    assert_eq!(fibo_rec(10i64, -7i64), 6);
    assert_eq!(fibo_mat(10i64, -7i64), 6);
    assert_eq!(fibo_mat_req(10i64, -7i64), 6);
    assert_eq!(fibo_mat_loop(10i64, -7i64), 6);
    assert_eq!(fibo_mat_loop(BigInt::from(10i64), BigInt::from(-7i64)), BigInt::from(6i64));
    assert_eq!(fibo_mat_loop(90i64, i64::MIN), 2880067194370816120);
}

#[test]
fn widest_machine_inputs_do_not_overflow() {
    assert_eq!(fibo_mat_req_pos(u64::MAX, 1000_000_000u64), 362999010);
    assert_eq!(fibo_mat_loop_pos(u64::MAX, 1000_000_000u64), 362999010);
    assert_eq!(fibo_mat_loop(i64::MAX, i64::MAX), 1806266682217653944);
    assert_eq!(fibo_mat_req(i64::MAX, i64::MAX), 1806266682217653944);
    assert_eq!(fibo_seq_pos(200u64, (1u64 << 61) - 1), 196659102135130670);
    assert_eq!(fibo_seq(90i64, i64::MAX), 2880067194370816120);
}

#[test]
fn big_unsigned_index() {
    let n = BigUint::from(10u32).pow(30);
    let m = BigUint::from(1_000_000_000_000_000_009u64);
    let expected = BigUint::from(96518901453235001u64);
    assert_eq!(fibo_mat_req_pos(n.clone(), m.clone()), expected);
    assert_eq!(fibo_mat_loop_pos(n, m), expected);
    assert_eq!(
        fibo_seq_pos(BigUint::from(300u32), BigUint::from(10u32).pow(70)),
        "222232244629420445529739893461909967206666939096499764990979600"
            .parse::<BigUint>()
            .unwrap()
    );
    assert_eq!(fibo_rec_pos(BigUint::from(15u32), BigUint::from(1000u32)), BigUint::from(610u32));
    assert_eq!(fibo_mat_pos(BigUint::from(15u32), BigUint::from(100u32)), BigUint::from(10u32));
}

#[test]
fn fibonacci_runs_the_strategy_asked_for() {
    for strategy in STRATEGIES {
        assert_eq!(fibonacci(10i64, 1000i64, strategy), 55);
        assert_eq!(fibonacci(-10i64, 1000i64, strategy), -55);
        assert_eq!(fibonacci(-9i64, 1000i64, strategy), 34);
        assert_eq!(fibonacci(0i64, 1i64, strategy), 0);
        assert_eq!(
            fibonacci(BigInt::from(-20), BigInt::from(1000), strategy),
            BigInt::from(-765)
        );
    }
    assert_eq!(fibonacci(1i64, 1i64, Strategy::Recursive), 1);
    assert_eq!(fibonacci(1i64, 1i64, Strategy::Sequential), 1);
    assert_eq!(fibonacci(1i64, 1i64, Strategy::MatrixSequential), 0);
    assert_eq!(fibonacci(1i64, 1i64, Strategy::MatrixPowRecursive), 0);
    assert_eq!(fibonacci(1i64, 1i64, Strategy::MatrixPowIterative), 0);
    assert_eq!(fibonacci(1000_000i64, 1000i64, Strategy::MatrixPowIterative), 875);
    assert_eq!(fibonacci(1000_000i64, 1000i64, Strategy::MatrixPowRecursive), 875);
    assert_eq!(fibonacci(-1000i64, 1000_000_000i64, Strategy::Sequential), -849228875);
}

#[test]
fn strategies_agree_through_fibonacci() {
    for n in 0i64..=25 {
        for m in [1i64, 2, 5, 1000, 1_000_000_007] {
            if n == 1 && m == 1 {
                continue;
            }
            let expected = fibonacci(n, m, Strategy::Sequential);
            for strategy in STRATEGIES {
                assert_eq!(fibonacci(n, m, strategy), expected);
                let mirrored = if n % 2 == 1 || n == 0 { expected } else { -expected };
                assert_eq!(fibonacci(-n, m, strategy), mirrored);
            }
        }
    }
}
