//! Sums, products and quotients that fall exactly between two scalars, or
//! into the subnormal range, against the machine's own arithmetic.
use linalg3::scalar::Scalar;

fn s(v: f32) -> Scalar {
    Scalar::from_bits(v.to_bits())
}

fn same(got: Scalar, want: f32) -> bool {
    if want.is_nan() {
        got.is_nan()
    } else {
        got.to_bits() == want.to_bits()
    }
}

fn check_all(a: f32, b: f32) {
    assert!(same(s(a) + s(b), a + b), "{:e} + {:e}", a, b);
    assert!(same(s(a) - s(b), a - b), "{:e} - {:e}", a, b);
    assert!(same(s(a) * s(b), a * b), "{:e} * {:e}", a, b);
    assert!(same(s(a) / s(b), a / b), "{:e} / {:e}", a, b);
    assert!(same(s(b) - s(a), b - a), "{:e} - {:e}", b, a);
    assert!(same(s(b) / s(a), b / a), "{:e} / {:e}", b, a);
}

fn two_to(e: i32) -> f32 {
    f32::from_bits(((e + 127) as u32) << 23)
}

#[test]
fn halfway_sums_go_to_the_even_neighbour() {
    let one = 1.0f32;
    let ulp = f32::EPSILON;
    assert_eq!((s(one) + s(ulp / 2.0)).to_bits(), one.to_bits());
    assert_eq!((s(one + ulp) + s(ulp / 2.0)).to_bits(), (one + 2.0 * ulp).to_bits());
    assert_eq!((s(one) - s(ulp / 4.0)).to_bits(), one.to_bits());
    assert_eq!((s(one) + s(ulp * 0.75)).to_bits(), (one + ulp).to_bits());
    assert_eq!((s(16777216.0) + s(1.0)).to_bits(), 16777216.0f32.to_bits());
    assert_eq!((s(16777216.0) + s(3.0)).to_bits(), 16777220.0f32.to_bits());
}

#[test]
fn sums_of_whole_numbers_near_the_precision_limit() {
    for big in [8388608.0f32, 16777216.0, 33554432.0, 16777214.0, 16777215.0, 67108864.0] {
        for small in 0..64 {
            let b = small as f32;
            check_all(big, b);
            check_all(big, -b);
            check_all(-big, b);
            check_all(big, b + 0.5);
            check_all(big, b * 0.25);
        }
    }
}

#[test]
fn products_of_whole_numbers_with_twenty_five_bits() {
    for a in 4090..4130u32 {
        for b in 4090..4130u32 {
            check_all(a as f32, b as f32);
            check_all(a as f32 * two_to(-140), b as f32 * two_to(-10));
            check_all(a as f32 * two_to(100), b as f32 * two_to(3));
        }
    }
}

#[test]
fn operands_whose_scales_lie_far_apart() {
    for gap in 20..40 {
        for fraction in [0u32, 1, 2, 0x40_0000, 0x7f_ffff, 0x7f_fffe] {
            let a = f32::from_bits((127u32 << 23) | fraction);
            let b = f32::from_bits(((127 - gap) << 23) | fraction);
            check_all(a, b);
            check_all(a, -b);
            check_all(-a, b);
            let c = f32::from_bits(((127 - gap) << 23) | 1);
            check_all(a, c);
            check_all(a, -c);
        }
    }
}

#[test]
fn results_in_the_subnormal_range() {
    for i in 1..200u32 {
        let tiny = f32::from_bits(i);
        let normal = f32::from_bits(0x0080_0000 + i);
        for factor in [0.5f32, 0.25, 0.75, 1.5, 0.1, 0.3, 3.0, 1.0e-3] {
            check_all(tiny, factor);
            check_all(normal, factor);
            check_all(-normal, factor);
        }
        check_all(tiny, normal);
        check_all(normal, f32::from_bits(0x0080_0000));
        check_all(tiny, f32::from_bits(i + 1));
    }
}

#[test]
fn results_near_the_largest_finite_scalar() {
    let max = f32::MAX;
    let below = f32::from_bits(max.to_bits() - 1);
    let half_ulp = two_to(127 - 24);
    for a in [max, below, -max, -below] {
        for b in [half_ulp, half_ulp * 0.5, half_ulp * 1.5, half_ulp * 2.0, -half_ulp, max, below, 1.0, 2.0, 0.5, 1.000_000_1] {
            check_all(a, b);
        }
    }
}

#[test]
fn quotients_of_small_whole_numbers() {
    for a in 1..120u32 {
        for b in 1..120u32 {
            let (x, y) = (a as f32, b as f32);
            assert!(same(s(x) / s(y), x / y), "{} / {}", a, b);
            assert!(same(s(x * two_to(-130)) / s(y), x * two_to(-130) / y));
            assert!(same(s(x) / s(y * two_to(120)), x / (y * two_to(120))));
            assert!(same(s(x * two_to(100)) / s(y * two_to(-40)), x * two_to(100) / (y * two_to(-40))));
        }
    }
}
