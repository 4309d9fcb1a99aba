//! The three comparisons, against those that the `approx` crate computes on
//! the machine's own single-precision numbers.
use approx::{AbsDiffEq, RelativeEq, UlpsEq};
use linalg3::approx_eq::ApproxEq;
use linalg3::scalar::Scalar;
use linalg3::vec3::Vec3;

fn s(v: f32) -> Scalar {
    Scalar::from_bits(v.to_bits())
}

struct Lcg(u64);

impl Lcg {
    fn next(&mut self) -> u32 {
        self.0 = self.0.wrapping_mul(6364136223846793005).wrapping_add(1442695040888963407);
        (self.0 >> 32) as u32
    }
}

fn values() -> Vec<f32> {
    let mut v = vec![
        0.0f32,
        -0.0,
        1.0,
        -1.0,
        1.0 + f32::EPSILON,
        1.0 - f32::EPSILON,
        1.0 + 4.0 * f32::EPSILON,
        1.0 + 5.0 * f32::EPSILON,
        1.000_001,
        1.000_01,
        0.999_999,
        100.0,
        100.000_1,
        1.0e-7,
        -1.0e-7,
        1.0e-40,
        -1.0e-40,
        f32::MIN_POSITIVE,
        f32::MAX,
        f32::MIN,
        f32::INFINITY,
        f32::NEG_INFINITY,
        f32::NAN,
        1.0e30,
        1.000_001e30,
    ];
    for bits in [1u32, 2, 5, 0x3f80_0004, 0x3f80_0005, 0xbf80_0003, 0x7f7f_fffe] {
        v.push(f32::from_bits(bits));
    }
    v
}

fn tolerances() -> Vec<f32> {
    vec![0.0, -0.0, f32::EPSILON, 1.0e-6, 1.0e-3, 0.5, 1.0, -1.0, f32::INFINITY, f32::NAN, 1.0e-40, 1.0e30]
}

#[test]
fn abs_diff_eq_matches_the_crate() {
    for &a in &values() {
        for &b in &values() {
            for &e in &tolerances() {
                assert_eq!(s(a).abs_diff_eq(&s(b), s(e)), f32::abs_diff_eq(&a, &b, e), "{:?} {:?} {:?}", a, b, e);
            }
        }
    }
}

#[test]
fn relative_eq_matches_the_crate() {
    for &a in &values() {
        for &b in &values() {
            for &e in &tolerances() {
                for &r in &tolerances() {
                    assert_eq!(
                        s(a).relative_eq(&s(b), s(e), s(r)),
                        f32::relative_eq(&a, &b, e, r),
                        "{:?} {:?} {:?} {:?}",
                        a,
                        b,
                        e,
                        r
                    );
                }
            }
        }
    }
}

#[test]
fn ulps_eq_matches_the_crate() {
    for &a in &values() {
        for &b in &values() {
            for &e in &[0.0f32, f32::EPSILON, 1.0e-3, -1.0, f32::NAN] {
                for &u in &[0u32, 1, 3, 4, 5, 100, 0x7fff_ffff, 0x8000_0000, 0xffff_ffff] {
                    assert_eq!(
                        s(a).ulps_eq(&s(b), s(e), u),
                        f32::ulps_eq(&a, &b, e, u),
                        "{:?} {:?} {:?} {:?}",
                        a,
                        b,
                        e,
                        u
                    );
                }
            }
        }
    }
}

#[test]
fn comparisons_match_the_crate_on_arbitrary_encodings() {
    let mut rng = Lcg(0xabcdef);
    for _ in 0..100_000 {
        let a = f32::from_bits(rng.next());
        let b = if rng.next() % 2 == 0 {
            f32::from_bits(rng.next())
        } else {
            f32::from_bits(a.to_bits().wrapping_add(rng.next() % 9).wrapping_sub(4))
        };
        let e = f32::from_bits(rng.next() & 0x7fff_ffff);
        let r = f32::from_bits(rng.next() & 0x3fff_ffff);
        let u = rng.next() % 8;
        assert_eq!(s(a).abs_diff_eq(&s(b), s(e)), f32::abs_diff_eq(&a, &b, e));
        assert_eq!(s(a).relative_eq(&s(b), s(e), s(r)), f32::relative_eq(&a, &b, e, r));
        assert_eq!(s(a).ulps_eq(&s(b), s(e), u), f32::ulps_eq(&a, &b, e, u));
        assert_eq!(s(a).ulps_eq(&s(b), s(0.0), u), f32::ulps_eq(&a, &b, 0.0, u));
    }
}

#[test]
fn vector_comparisons_match_the_crate_on_slices() {
    let mut rng = Lcg(0x777);
    let vals = values();
    for _ in 0..20_000 {
        let pick = |rng: &mut Lcg| vals[(rng.next() as usize) % vals.len()];
        let a = [pick(&mut rng), pick(&mut rng), pick(&mut rng)];
        let b = if rng.next() % 2 == 0 { a } else { [pick(&mut rng), a[1], a[2]] };
        let e = 1.0e-6f32;
        let va = Vec3::new(s(a[0]), s(a[1]), s(a[2]));
        let vb = Vec3::new(s(b[0]), s(b[1]), s(b[2]));
        assert_eq!(va.abs_diff_eq(&vb, s(e)), a[..].abs_diff_eq(&b[..], e));
        assert_eq!(va.relative_eq(&vb, s(e), s(e)), a[..].relative_eq(&b[..], e, e));
        assert_eq!(va.ulps_eq(&vb, s(e), 4), a[..].ulps_eq(&b[..], e, 4));
    }
}
