use fibo::mat::{exp_loop, exp_req, Mat};
use num_bigint::{BigInt, BigUint};

#[test]
fn mul_1234_5678_u32() {
    let a = Mat((1u64, 2), (3, 4));
    let b = Mat((5, 6), (7, 8));
    let c = Mat((19, 22), (43, 50));
    assert_eq!(a.mul(&b, 1000), c);
}

#[test]
fn mul_1234_5678_big_uint() {
    let a = Mat(
        (BigUint::from(1u32), BigUint::from(2u32)),
        (BigUint::from(3u32), BigUint::from(4u32)),
    );
    let b = Mat(
        (BigUint::from(5u32), BigUint::from(6u32)),
        (BigUint::from(7u32), BigUint::from(8u32)),
    );
    let c = Mat(
        (BigUint::from(19u32), BigUint::from(22u32)),
        (BigUint::from(43u32), BigUint::from(50u32)),
    );
    assert_eq!(a.mul(&b, BigUint::from(1000u32)), c);
}

#[test]
fn exp_req_1234_100_u32() {
    let a = Mat((1u64, 2), (3, 4));
    let b = Mat((999, 250), (875, 874));
    assert_eq!(exp_req(&a, 100u64, 1000), b);
}

#[test]
fn exp_req_1234_100_big_uint() {
    let a = Mat(
        (BigUint::from(1u32), BigUint::from(2u32)),
        (BigUint::from(3u32), BigUint::from(4u32)),
    );
    let b = Mat(
        (BigUint::from(999u32), BigUint::from(250u32)),
        (BigUint::from(875u32), BigUint::from(874u32)),
    );
    assert_eq!(exp_req(&a, BigUint::from(100u32), BigUint::from(1000u32)), b);
}

#[test]
fn exp_loop_1234_100_u32() {
    let a = Mat((1u64, 2), (3, 4));
    let b = Mat((999, 250), (875, 874));
    assert_eq!(exp_loop(&a, 100u64, 1000), b);
}

#[test]
fn exp_loop_1234_100_big_uint() {
    let a = Mat(
        (BigUint::from(1u32), BigUint::from(2u32)),
        (BigUint::from(3u32), BigUint::from(4u32)),
    );
    let b = Mat(
        (BigUint::from(999u32), BigUint::from(250u32)),
        (BigUint::from(875u32), BigUint::from(874u32)),
    );
    assert_eq!(exp_loop(&a, BigUint::from(100u32), BigUint::from(1000u32)), b);
}

#[test]
fn constants() {
    assert_eq!(Mat::<u64>::one(), Mat((1, 0), (0, 1)));
    assert_eq!(Mat::<i64>::q_matrix(), Mat((0, 1), (1, 1)));
    assert_eq!(
        Mat::<BigInt>::q_matrix(),
        Mat((BigInt::from(0), BigInt::from(1)), (BigInt::from(1), BigInt::from(1)))
    );
}

#[test]
fn power_zero_is_the_identity() {
    for m in [1u64, 2, 1000, u64::MAX] {
        let x = Mat((17u64, u64::MAX), (0, 3));
        assert_eq!(exp_req(&x, 0u64, m), Mat((1, 0), (0, 1)));
        assert_eq!(exp_loop(&x, 0u64, m), Mat((1, 0), (0, 1)));
        assert_eq!(x.pow(0u64, m), Mat((1, 0), (0, 1)));
    }
}

#[test]
fn power_one_reduces_the_matrix() {
    let x = Mat((17u64, 23), (40, 5));
    assert_eq!(exp_req(&x, 1u64, 7), Mat((3, 2), (5, 5)));
    assert_eq!(exp_loop(&x, 1u64, 7), Mat((3, 2), (5, 5)));
    assert_eq!(exp_req(&x, 1u64, 1), Mat((0, 0), (0, 0)));
    assert_eq!(exp_loop(&x, 1u64, 1), Mat((0, 0), (0, 0)));
}

#[test]
fn small_power_by_hand() {
    let x = Mat((1u64, 2), (3, 4));
    let expected = Mat((5, 4), (6, 4));
    assert_eq!(exp_req(&x, 5u64, 7), expected);
    assert_eq!(exp_loop(&x, 5u64, 7), expected);
    assert_eq!(x.pow(5u64, 7), expected);
}

#[test]
fn recursive_and_iterative_powers_agree() {
    let x = Mat((3i64, 1), (4, 1));
    for n in 0i64..=70 {
        for m in [1i64, 2, 9, 1000, 1_000_000_007, -13] {
            let rec = exp_req(&x, n, m);
            assert_eq!(exp_loop(&x, n, m), rec);
            assert_eq!(x.pow(n, m), rec);
        }
    }
}

#[test]
fn power_matches_repeated_multiplication() {
    let x = Mat((2u64, 7), (1, 9));
    let m = 1_000_003u64;
    let mut t = Mat::<u64>::one();
    for n in 0u64..40 {
        if n > 0 {
            assert_eq!(exp_req(&x, n, m), t);
            assert_eq!(exp_loop(&x, n, m), t);
        }
        t = t.mul(&x, m);
    }
}

#[test]
fn exponent_type_is_independent_of_the_entries() {
    let x = Mat((1u64, 2), (3, 4));
    let expected = Mat((999, 250), (875, 874));
    assert_eq!(exp_req(&x, BigUint::from(100u32), 1000), expected);
    assert_eq!(exp_loop(&x, BigInt::from(100), 1000), expected);
    assert_eq!(x.pow(100i64, 1000), expected);
}

#[test]
fn full_width_entries() {
    let x = Mat((1u64 << 63, 3), (5, u64::MAX));
    let m = u64::MAX - 58;
    let expected = Mat(
        (5231464773662185913, 7753695256032401197),
        (6773910735484151476, 14327965447986566835),
    );
    assert_eq!(exp_req(&x, 77u64, m), expected);
    assert_eq!(exp_loop(&x, 77u64, m), expected);
}

#[test]
fn product_with_negative_entries_is_truncated() {
    let a = Mat((-1i64, 2), (3, -4));
    let b = Mat((5i64, 6), (7, 8));
    assert_eq!(a.mul(&b, 10), Mat((9, 0), (-3, -4)));
    assert_eq!(a.mul(&b, -10), Mat((9, 0), (-3, -4)));
    let a = Mat((BigInt::from(-1), BigInt::from(2)), (BigInt::from(3), BigInt::from(-4)));
    let b = Mat((BigInt::from(5), BigInt::from(6)), (BigInt::from(7), BigInt::from(8)));
    assert_eq!(
        a.mul(&b, BigInt::from(10)),
        Mat((BigInt::from(9), BigInt::from(0)), (BigInt::from(-3), BigInt::from(-4)))
    );
}

#[test]
fn clone_keeps_the_entries() {
    let x = Mat((BigUint::from(7u32), BigUint::from(8u32)), (BigUint::from(9u32), BigUint::from(1u32)));
    assert_eq!(x.clone(), x);
    let y = Mat((1i64, -2), (3, -4));
    assert_eq!(y.clone(), Mat((1, -2), (3, -4)));
}

#[test]
fn negative_entries_can_part_the_two_powers() {
    let x = Mat((-2i64, -2), (-1, 1));
    assert_eq!(exp_req(&x, 2i64, 2), Mat((0, 0), (-1, 1)));
    assert_eq!(exp_loop(&x, 2i64, 2), Mat((0, 0), (1, 1)));
    let x = Mat((BigInt::from(-2), BigInt::from(-2)), (BigInt::from(-1), BigInt::from(1)));
    assert_eq!(
        exp_req(&x, 2u64, BigInt::from(2)),
        Mat((BigInt::from(0), BigInt::from(0)), (BigInt::from(-1), BigInt::from(1)))
    );
    assert_eq!(
        exp_loop(&x, 2u64, BigInt::from(2)),
        Mat((BigInt::from(0), BigInt::from(0)), (BigInt::from(1), BigInt::from(1)))
    );
}
