use linalg3::scalar::Scalar;

fn s(v: f32) -> Scalar {
    Scalar::from_bits(v.to_bits())
}

fn same(got: Scalar, want: f32) -> bool {
    if want.is_nan() {
        got.is_nan()
    } else {
        got.to_bits() == want.to_bits()
    }
}

fn interesting() -> Vec<f32> {
    let mut v = vec![
        0.0f32,
        -0.0,
        1.0,
        -1.0,
        2.0,
        0.5,
        1.5,
        3.0,
        0.1,
        0.2,
        0.3,
        1.0e-6,
        1.0e-3,
        16777216.0,
        16777215.0,
        16777217.0,
        f32::EPSILON,
        f32::MIN_POSITIVE,
        f32::MAX,
        f32::MIN,
        f32::INFINITY,
        f32::NEG_INFINITY,
        f32::NAN,
        1.0e38,
        3.0e38,
        1.0e-38,
        1.0e-45,
        3.4e-39,
        core::f32::consts::PI,
        core::f32::consts::E,
    ];
    for bits in [1u32, 2, 3, 0x7f_ffff, 0x80_0000, 0x80_0001, 0x7f7f_ffff, 0x3f7f_ffff, 0x3f80_0001, 0x0040_0000] {
        v.push(f32::from_bits(bits));
        v.push(-f32::from_bits(bits));
    }
    v
}

struct Lcg(u64);

impl Lcg {
    fn next(&mut self) -> u32 {
        self.0 = self.0.wrapping_mul(6364136223846793005).wrapping_add(1442695040888963407);
        (self.0 >> 32) as u32
    }

    /// A bit pattern whose exponent lies near that of one, so that sums and
    /// differences of two of them mix their significands.
    fn near_one(&mut self) -> f32 {
        let sign = self.next() & 0x8000_0000;
        let exponent = 127 - 14 + self.next() % 28;
        let fraction = self.next() & 0x7f_ffff;
        f32::from_bits(sign | (exponent << 23) | fraction)
    }
}

#[test]
fn add_matches_hardware_on_interesting_values() {
    let v = interesting();
    for &a in &v {
        for &b in &v {
            assert!(same(s(a) + s(b), a + b), "{:?} + {:?}", a, b);
        }
    }
}

#[test]
fn sub_matches_hardware_on_interesting_values() {
    let v = interesting();
    for &a in &v {
        for &b in &v {
            assert!(same(s(a) - s(b), a - b), "{:?} - {:?}", a, b);
        }
    }
}

#[test]
fn mul_matches_hardware_on_interesting_values() {
    let v = interesting();
    for &a in &v {
        for &b in &v {
            assert!(same(s(a) * s(b), a * b), "{:?} * {:?}", a, b);
        }
    }
}

#[test]
fn div_matches_hardware_on_interesting_values() {
    let v = interesting();
    for &a in &v {
        for &b in &v {
            assert!(same(s(a) / s(b), a / b), "{:?} / {:?}", a, b);
        }
    }
}

#[test]
fn arithmetic_matches_hardware_on_arbitrary_encodings() {
    let mut rng = Lcg(0x1234_5678_9abc_def0);
    for _ in 0..200_000 {
        let a = f32::from_bits(rng.next());
        let b = f32::from_bits(rng.next());
        assert!(same(s(a) + s(b), a + b), "{:?} + {:?}", a, b);
        assert!(same(s(a) - s(b), a - b), "{:?} - {:?}", a, b);
        assert!(same(s(a) * s(b), a * b), "{:?} * {:?}", a, b);
        assert!(same(s(a) / s(b), a / b), "{:?} / {:?}", a, b);
    }
}

#[test]
fn arithmetic_matches_hardware_near_one() {
    let mut rng = Lcg(0x0fed_cba9_8765_4321);
    for _ in 0..200_000 {
        let a = rng.near_one();
        let b = rng.near_one();
        assert!(same(s(a) + s(b), a + b), "{:?} + {:?}", a, b);
        assert!(same(s(a) - s(b), a - b), "{:?} - {:?}", a, b);
        assert!(same(s(a) * s(b), a * b), "{:?} * {:?}", a, b);
        assert!(same(s(a) / s(b), a / b), "{:?} / {:?}", a, b);
    }
}

#[test]
fn arithmetic_matches_hardware_on_subnormals() {
    let mut rng = Lcg(0x5555_aaaa_5555_aaaa);
    for _ in 0..100_000 {
        let a = f32::from_bits(rng.next() & 0x80ff_ffff);
        let b = f32::from_bits(rng.next() & 0x81ff_ffff);
        let c = f32::from_bits((rng.next() & 0x807f_ffff) | 0x3f80_0000);
        assert!(same(s(a) + s(b), a + b), "{:?} + {:?}", a, b);
        assert!(same(s(a) - s(b), a - b), "{:?} - {:?}", a, b);
        assert!(same(s(a) * s(c), a * c), "{:?} * {:?}", a, c);
        assert!(same(s(a) / s(c), a / c), "{:?} / {:?}", a, c);
        assert!(same(s(a) / s(b), a / b), "{:?} / {:?}", a, b);
    }
}

#[test]
fn comparisons_match_hardware() {
    let v = interesting();
    for &a in &v {
        for &b in &v {
            assert_eq!(s(a) == s(b), a == b, "{:?} == {:?}", a, b);
            assert_eq!(s(a).lt(s(b)), a < b, "{:?} < {:?}", a, b);
            assert_eq!(s(a).le(s(b)), a <= b, "{:?} <= {:?}", a, b);
            assert_eq!(s(a).gt(s(b)), a > b, "{:?} > {:?}", a, b);
            assert_eq!(s(a).ge(s(b)), a >= b, "{:?} >= {:?}", a, b);
        }
    }
}

#[test]
fn classification_matches_hardware() {
    for &a in &interesting() {
        assert_eq!(s(a).is_nan(), a.is_nan());
        assert_eq!(s(a).is_infinite(), a.is_infinite());
        assert_eq!(s(a).is_finite(), a.is_finite());
        assert_eq!(s(a).is_sign_negative(), a.is_sign_negative());
        assert_eq!(s(a).is_zero(), a == 0.0);
        assert!(same(-s(a), -a));
        assert!(same(s(a).abs(), a.abs()));
    }
}

#[test]
fn constants_are_the_numbers_they_name() {
    assert_eq!(Scalar::zero().to_bits(), 0.0f32.to_bits());
    assert_eq!(Scalar::one().to_bits(), 1.0f32.to_bits());
    assert_eq!(Scalar::from_bits(0x4049_0fdb).to_bits(), core::f32::consts::PI.to_bits());
}
