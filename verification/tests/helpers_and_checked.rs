//! The checked constructors, the normalization predicates, the comparisons
//! of slices and the pieces that the arithmetic is made of.
use approx::{AbsDiffEq, RelativeEq, UlpsEq};
use linalg3::approx_eq::{abs_diff_eq_slices, relative_eq_slices, ulps_eq_slices};
use linalg3::mat3::{Mat3, MathError};
use linalg3::quat::Quat;
use linalg3::rounding::{bit_length, pack, power_of_two};
use linalg3::scalar::Scalar;
use linalg3::vec3::Vec3;

fn s(v: f32) -> Scalar {
    Scalar::from_bits(v.to_bits())
}

fn f(v: Scalar) -> f32 {
    f32::from_bits(v.to_bits())
}

fn v3(x: f32, y: f32, z: f32) -> Vec3 {
    Vec3::new(s(x), s(y), s(z))
}

#[test]
fn try_inverse_refuses_a_singular_matrix() {
    let singular = Mat3::new(v3(1.0, 2.0, 3.0), v3(2.0, 4.0, 6.0), v3(0.0, 1.0, 0.0));
    assert_eq!(singular.try_inverse(), Err(MathError::SingularMatrix));
    assert_eq!(Mat3::zero().try_inverse(), Err(MathError::SingularMatrix));
    let with_nan = Mat3::new(v3(f32::NAN, 0.0, 0.0), v3(0.0, 1.0, 0.0), v3(0.0, 0.0, 1.0));
    assert_eq!(with_nan.try_inverse(), Err(MathError::SingularMatrix));
}

#[test]
fn try_inverse_at_the_threshold() {
    let at = Mat3::from_scale(v3(0.000_001, 1.0, 1.0));
    assert_eq!(f(at.determinant()), 0.000_001);
    assert_eq!(at.try_inverse(), Err(MathError::SingularMatrix));
    let above = Mat3::from_scale(v3(0.000_002, 1.0, 1.0));
    assert!(above.try_inverse() == Ok(above.inverse()));
    let negative = Mat3::from_scale(v3(-2.0, 1.0, 1.0));
    assert!(negative.try_inverse() == Ok(negative.inverse()));
}

#[test]
fn try_inverse_gives_the_inverse() {
    let m = Mat3::from_scale(v3(2.0, 4.0, 8.0));
    let inv = m.try_inverse();
    assert!(inv == Ok(Mat3::from_scale(v3(0.5, 0.25, 0.125))));
}

#[test]
fn try_from_quat_checks_the_length() {
    assert!(Mat3::try_from_quat(Quat::identity()) == Ok(Mat3::identity()));
    let long = Quat::new(s(1.0), s(1.0), s(0.0), s(0.0));
    assert_eq!(Mat3::try_from_quat(long), Err(MathError::NotNormalized));
    let nan = Quat::new(s(f32::NAN), s(0.0), s(0.0), s(1.0));
    assert_eq!(Mat3::try_from_quat(nan), Err(MathError::NotNormalized));
    let unit = Quat::new(s(0.6), s(0.0), s(0.8), s(0.0));
    assert!(Mat3::try_from_quat(unit) == Ok(Mat3::from_quat(unit)));
}

#[test]
fn vector_length_and_normalization() {
    let v = v3(3.0, 4.0, 12.0);
    assert_eq!(f(v.length_squared()), 169.0);
    assert!(!v.is_normalized());
    assert!(v3(0.6, 0.0, 0.8).is_normalized());
    assert!(Vec3::unit_y().is_normalized());
    assert!(!Vec3::zero().is_normalized());
    assert!(!v3(f32::NAN, 0.0, 1.0).is_normalized());
    assert!(v3(1.0, 0.000_5, 0.0).is_normalized());
    assert!(!v3(1.0, 0.002, 0.0).is_normalized());
}

#[test]
fn slices_compare_as_the_crate_compares_them() {
    let lists: [&[f32]; 7] = [
        &[],
        &[1.0],
        &[1.0, 2.0],
        &[1.0, 2.000_001],
        &[1.0, 2.0, 3.0],
        &[1.0, f32::NAN],
        &[1.000_000_1, 2.0],
    ];
    for a in lists {
        for b in lists {
            let sa: Vec<Scalar> = a.iter().map(|&v| s(v)).collect();
            let sb: Vec<Scalar> = b.iter().map(|&v| s(v)).collect();
            for e in [0.0f32, 1.0e-6, 1.0e-3, 1.5] {
                assert_eq!(abs_diff_eq_slices(&sa, &sb, s(e)), a.abs_diff_eq(b, e), "{:?} {:?}", a, b);
                assert_eq!(relative_eq_slices(&sa, &sb, s(e), s(e)), a.relative_eq(b, e, e));
                assert_eq!(ulps_eq_slices(&sa, &sb, s(e), 4), a.ulps_eq(b, e, 4));
            }
        }
    }
}

#[test]
fn slices_of_different_length_are_never_equal() {
    let a = [s(1.0), s(2.0)];
    let b = [s(1.0), s(2.0), s(3.0)];
    assert!(!abs_diff_eq_slices(&a, &b, s(f32::INFINITY)));
    assert!(!relative_eq_slices(&a, &b, s(f32::INFINITY), s(1.0)));
    assert!(!ulps_eq_slices(&a, &b, s(f32::INFINITY), 4));
    assert!(abs_diff_eq_slices(&a, &b[..2], s(0.0)));
}

#[test]
fn special_scalars() {
    assert!(Scalar::nan().is_nan());
    assert_eq!(Scalar::nan().to_bits(), 0x7fc0_0000);
    assert_eq!(Scalar::infinity(false).to_bits(), f32::INFINITY.to_bits());
    assert_eq!(Scalar::infinity(true).to_bits(), f32::NEG_INFINITY.to_bits());
    assert_eq!(Scalar::signed_zero(false).to_bits(), 0.0f32.to_bits());
    assert_eq!(Scalar::signed_zero(true).to_bits(), (-0.0f32).to_bits());
}

#[test]
fn results_that_are_no_number_have_one_encoding() {
    let inf = s(f32::INFINITY);
    let odd_nan = Scalar::from_bits(0xffc1_2345);
    assert_eq!((inf - inf).to_bits(), 0x7fc0_0000);
    assert_eq!((inf * s(0.0)).to_bits(), 0x7fc0_0000);
    assert_eq!((s(0.0) / s(0.0)).to_bits(), 0x7fc0_0000);
    assert_eq!((inf / inf).to_bits(), 0x7fc0_0000);
    assert_eq!((odd_nan + s(1.0)).to_bits(), 0x7fc0_0000);
    assert_eq!((s(1.0) * odd_nan).to_bits(), 0x7fc0_0000);
    assert_eq!((-odd_nan).to_bits(), 0x7fc1_2345);
    assert_eq!(odd_nan.abs().to_bits(), 0x7fc1_2345);
}

#[test]
fn bit_length_counts_bits() {
    assert_eq!(bit_length(0), 0);
    assert_eq!(bit_length(1), 1);
    assert_eq!(bit_length(2), 2);
    assert_eq!(bit_length(3), 2);
    assert_eq!(bit_length(0xff), 8);
    assert_eq!(bit_length(0x100), 9);
    assert_eq!(bit_length(u64::MAX), 64);
    for i in 0..64u32 {
        assert_eq!(bit_length(1u64 << i), i + 1);
        assert_eq!(power_of_two(i), 1u64 << i);
    }
}

#[test]
fn pack_encodes_a_significand_and_a_scale() {
    assert_eq!(pack(false, 0, 0).to_bits(), 0.0f32.to_bits());
    assert_eq!(pack(true, 0, 0).to_bits(), (-0.0f32).to_bits());
    assert_eq!(pack(false, 1, 0).to_bits(), 1);
    assert_eq!(pack(false, 0x80_0000, 0).to_bits(), f32::MIN_POSITIVE.to_bits());
    assert_eq!(pack(false, 0x80_0000, 126).to_bits(), 1.0f32.to_bits());
    assert_eq!(pack(true, 0xc0_0000, 126).to_bits(), (-1.5f32).to_bits());
    assert_eq!(pack(false, 0x100_0000, 126).to_bits(), 2.0f32.to_bits());
    assert_eq!(pack(false, 0xff_ffff, 253).to_bits(), f32::MAX.to_bits());
    assert_eq!(pack(false, 0x100_0000, 253).to_bits(), f32::INFINITY.to_bits());
    assert_eq!(pack(true, 0x80_0000, 254).to_bits(), f32::NEG_INFINITY.to_bits());
    assert_eq!(pack(false, 0x80_0000, 900).to_bits(), f32::INFINITY.to_bits());
}

#[test]
fn significand_scale_and_ordinal() {
    let one = s(1.0);
    assert_eq!(one.significand(), 0x80_0000);
    assert_eq!(one.scale(), 126);
    assert_eq!(s(1.5).significand(), 0xc0_0000);
    assert_eq!(Scalar::from_bits(5).significand(), 5);
    assert_eq!(Scalar::from_bits(5).scale(), 0);
    assert_eq!(s(f32::MIN_POSITIVE).scale(), 0);
    assert_eq!(s(f32::MAX).scale(), 253);
    assert_eq!(s(-1.0).ordinal(), -(0x3f80_0000i64));
    assert_eq!(s(1.0).ordinal(), 0x3f80_0000i64);
    assert_eq!(s(-0.0).ordinal(), 0);
}
