//! Every matrix operation, against the same formula written with the
//! machine's own single-precision arithmetic.
use linalg3::angle::Angle;
use linalg3::mat3::{mat3, quat_to_axes, Mat3};
use linalg3::quat::Quat;
use linalg3::scalar::Scalar;
use linalg3::vec3::{vec3, Vec3};

type V = (f32, f32, f32);
type M = (V, V, V);

fn s(v: f32) -> Scalar {
    Scalar::from_bits(v.to_bits())
}

fn f(v: Scalar) -> f32 {
    f32::from_bits(v.to_bits())
}

fn v3(v: V) -> Vec3 {
    Vec3::new(s(v.0), s(v.1), s(v.2))
}

fn m3(m: M) -> Mat3 {
    Mat3::new(v3(m.0), v3(m.1), v3(m.2))
}

fn angle(radians: f32) -> Angle {
    let (sin, cos) = radians.sin_cos();
    let (half_sin, half_cos) = (radians * 0.5).sin_cos();
    Angle::new(s(sin), s(cos), s(half_sin), s(half_cos))
}

fn same(got: Scalar, want: f32) -> bool {
    if want.is_nan() {
        got.is_nan()
    } else {
        got.to_bits() == want.to_bits()
    }
}

fn same_v(got: Vec3, want: V) -> bool {
    same(got.x, want.0) && same(got.y, want.1) && same(got.z, want.2)
}

fn same_m(got: Mat3, want: M) -> bool {
    same_v(got.x_axis, want.0) && same_v(got.y_axis, want.1) && same_v(got.z_axis, want.2)
}

fn hw_mul(a: V, b: V) -> V {
    (a.0 * b.0, a.1 * b.1, a.2 * b.2)
}

fn hw_mul_add(a: V, b: V, c: V) -> V {
    (a.0 * b.0 + c.0, a.1 * b.1 + c.1, a.2 * b.2 + c.2)
}

fn hw_dot(a: V, b: V) -> f32 {
    (a.0 * b.0) + (a.1 * b.1) + (a.2 * b.2)
}

fn hw_transform(v: V, m: M) -> V {
    let mut tmp = hw_mul((v.0, v.0, v.0), m.0);
    tmp = hw_mul_add((v.1, v.1, v.1), m.1, tmp);
    tmp = hw_mul_add((v.2, v.2, v.2), m.2, tmp);
    tmp
}

fn hw_mul_mat3(a: M, b: M) -> M {
    (hw_transform(a.0, b), hw_transform(a.1, b), hw_transform(a.2, b))
}

fn hw_transpose(m: M) -> M {
    let ((m00, m01, m02), (m10, m11, m12), (m20, m21, m22)) = m;
    ((m00, m10, m20), (m01, m11, m21), (m02, m12, m22))
}

fn hw_determinant(m: M) -> f32 {
    let (_, (m10, m11, m12), (m20, m21, m22)) = m;
    hw_dot(m.0, (m11 * m22 - m12 * m21, m12 * m20 - m10 * m22, m10 * m21 - m11 * m20))
}

fn hw_inverse(m: M) -> M {
    let ((m00, m01, m02), (m10, m11, m12), (m20, m21, m22)) = m;
    let inv00 = m11 * m22 - m12 * m21;
    let inv10 = m12 * m20 - m10 * m22;
    let inv20 = m10 * m21 - m11 * m20;
    let dot = hw_dot(m.0, (inv00, inv10, inv20));
    let d = 1.0 / dot;
    let inv_dot = (d, d, d);
    (
        hw_mul(inv_dot, (inv00, m02 * m21 - m01 * m22, m01 * m12 - m02 * m11)),
        hw_mul(inv_dot, (inv10, m00 * m22 - m02 * m20, m02 * m10 - m00 * m12)),
        hw_mul(inv_dot, (inv20, m01 * m20 - m00 * m21, m00 * m11 - m01 * m10)),
    )
}

fn hw_quat_to_axes(q: (f32, f32, f32, f32)) -> M {
    let (x, y, z, w) = q;
    let x2 = x + x;
    let y2 = y + y;
    let z2 = z + z;
    let xx = x * x2;
    let xy = x * y2;
    let xz = x * z2;
    let yy = y * y2;
    let yz = y * z2;
    let zz = z * z2;
    let wx = w * x2;
    let wy = w * y2;
    let wz = w * z2;
    (
        (1.0 - (yy + zz), xy + wz, xz - wy),
        (xy - wz, 1.0 - (xx + zz), yz + wx),
        (xz + wy, yz - wx, 1.0 - (xx + yy)),
    )
}

fn hw_from_axis_angle(axis: V, radians: f32) -> M {
    let (sin, cos) = radians.sin_cos();
    let (x, y, z) = axis;
    let (xsin, ysin, zsin) = (x * sin, y * sin, z * sin);
    let (x2, y2, z2) = (x * x, y * y, z * z);
    let omc = 1.0 - cos;
    let xyomc = x * y * omc;
    let xzomc = x * z * omc;
    let yzomc = y * z * omc;
    (
        (x2 * omc + cos, xyomc + zsin, xzomc - ysin),
        (xyomc - zsin, y2 * omc + cos, yzomc + xsin),
        (xzomc + ysin, yzomc - xsin, z2 * omc + cos),
    )
}

fn hw_quat_ypr(yaw: f32, pitch: f32, roll: f32) -> (f32, f32, f32, f32) {
    let (y0, w0) = (yaw * 0.5).sin_cos();
    let (x1, w1) = (pitch * 0.5).sin_cos();
    let (z2, w2) = (roll * 0.5).sin_cos();
    let x3 = w0 * x1;
    let y3 = y0 * w1;
    let z3 = -y0 * x1;
    let w3 = w0 * w1;
    let x4 = x3 * w2 + y3 * z2;
    let y4 = y3 * w2 - x3 * z2;
    let z4 = w3 * z2 + z3 * w2;
    let w4 = w3 * w2 - z3 * z2;
    (x4, y4, z4, w4)
}

struct Lcg(u64);

impl Lcg {
    fn next(&mut self) -> u32 {
        self.0 = self.0.wrapping_mul(6364136223846793005).wrapping_add(1442695040888963407);
        (self.0 >> 32) as u32
    }

    /// A number between -8 and 8.
    fn small(&mut self) -> f32 {
        (self.next() as f32 / 4294967296.0 - 0.5) * 16.0
    }

    fn vector(&mut self) -> V {
        (self.small(), self.small(), self.small())
    }

    fn matrix(&mut self) -> M {
        (self.vector(), self.vector(), self.vector())
    }

    fn any_matrix(&mut self) -> M {
        let mut e = || f32::from_bits(self.next());
        ((e(), e(), e()), (e(), e(), e()), (e(), e(), e()))
    }

    fn unit_quat(&mut self) -> (f32, f32, f32, f32) {
        loop {
            let (x, y, z, w) = (self.small(), self.small(), self.small(), self.small());
            let len = (x * x + y * y + z * z + w * w).sqrt();
            if len > 0.1 {
                return (x / len, y / len, z / len, w / len);
            }
        }
    }
}

#[test]
fn transpose_matches_hardware() {
    let mut rng = Lcg(1);
    for _ in 0..2000 {
        let m = rng.any_matrix();
        assert!(same_m(m3(m).transpose(), hw_transpose(m)));
    }
}

#[test]
fn determinant_matches_hardware() {
    let mut rng = Lcg(2);
    for _ in 0..5000 {
        let m = rng.matrix();
        assert!(same(m3(m).determinant(), hw_determinant(m)), "{:?}", m);
        let m = rng.any_matrix();
        assert!(same(m3(m).determinant(), hw_determinant(m)), "{:?}", m);
    }
}

#[test]
fn inverse_matches_hardware() {
    let mut rng = Lcg(3);
    for _ in 0..5000 {
        let m = rng.matrix();
        assert!(same_m(m3(m).inverse(), hw_inverse(m)), "{:?}", m);
        let m = rng.any_matrix();
        assert!(same_m(m3(m).inverse(), hw_inverse(m)), "{:?}", m);
    }
}

#[test]
fn inverse_of_singular_matrix_is_not_finite() {
    let m = ((1.0, 2.0, 3.0), (2.0, 4.0, 6.0), (0.0, 1.0, 0.0));
    assert_eq!(hw_determinant(m), 0.0);
    let inv = m3(m).inverse();
    assert!(same_m(inv, hw_inverse(m)));
    assert!(!inv.x_axis.x.is_finite());
}

#[test]
fn mul_mat3_matches_hardware() {
    let mut rng = Lcg(4);
    for _ in 0..5000 {
        let a = rng.matrix();
        let b = rng.matrix();
        assert!(same_m(m3(a).mul_mat3(&m3(b)), hw_mul_mat3(a, b)));
        let a = rng.any_matrix();
        let b = rng.any_matrix();
        assert!(same_m(m3(a).mul_mat3(&m3(b)), hw_mul_mat3(a, b)));
    }
}

#[test]
fn add_sub_and_scalar_product_match_hardware() {
    let mut rng = Lcg(5);
    for _ in 0..5000 {
        let a = rng.matrix();
        let b = rng.any_matrix();
        let k = rng.small();
        let sum = m3(a).add_mat3(&m3(b));
        let diff = m3(a).sub_mat3(&m3(b));
        let scaled = m3(a).mul_scalar(s(k));
        let pairs = [(a.0, b.0), (a.1, b.1), (a.2, b.2)];
        let sums = [sum.x_axis, sum.y_axis, sum.z_axis];
        let diffs = [diff.x_axis, diff.y_axis, diff.z_axis];
        let scaleds = [scaled.x_axis, scaled.y_axis, scaled.z_axis];
        for i in 0..3 {
            let (p, q) = pairs[i];
            assert!(same_v(sums[i], (p.0 + q.0, p.1 + q.1, p.2 + q.2)));
            assert!(same_v(diffs[i], (p.0 - q.0, p.1 - q.1, p.2 - q.2)));
            assert!(same_v(scaleds[i], (p.0 * k, p.1 * k, p.2 * k)));
        }
    }
}

#[test]
fn transform_mat3_matches_hardware() {
    let mut rng = Lcg(6);
    for _ in 0..5000 {
        let v = rng.vector();
        let m = rng.matrix();
        assert!(same_v(v3(v).transform_mat3(&m3(m)), hw_transform(v, m)));
    }
}

#[test]
fn quat_to_axes_matches_hardware() {
    let mut rng = Lcg(7);
    for _ in 0..5000 {
        let q = rng.unit_quat();
        let (x, y, z) = quat_to_axes(Quat::new(s(q.0), s(q.1), s(q.2), s(q.3)));
        assert!(same_m(Mat3::new(x, y, z), hw_quat_to_axes(q)));
        assert!(same_m(Mat3::from_quat(Quat::new(s(q.0), s(q.1), s(q.2), s(q.3))), hw_quat_to_axes(q)));
    }
}

#[test]
fn from_scale_rotation_matches_hardware() {
    let mut rng = Lcg(8);
    for _ in 0..5000 {
        let q = rng.unit_quat();
        let scale = rng.vector();
        let axes = hw_quat_to_axes(q);
        let want = (
            (axes.0 .0 * scale.0, axes.0 .1 * scale.0, axes.0 .2 * scale.0),
            (axes.1 .0 * scale.1, axes.1 .1 * scale.1, axes.1 .2 * scale.1),
            (axes.2 .0 * scale.2, axes.2 .1 * scale.2, axes.2 .2 * scale.2),
        );
        let got = Mat3::from_scale_rotation(v3(scale), Quat::new(s(q.0), s(q.1), s(q.2), s(q.3)));
        assert!(same_m(got, want));
    }
}

#[test]
fn from_scale_rotation_with_a_zero_scale_is_singular() {
    let q = Quat::identity();
    let m = Mat3::from_scale_rotation(v3((2.0, 0.0, 3.0)), q);
    assert_eq!(f(m.determinant()), 0.0);
}

#[test]
fn from_axis_angle_matches_hardware() {
    let mut rng = Lcg(9);
    for _ in 0..5000 {
        let a = rng.vector();
        let len = (a.0 * a.0 + a.1 * a.1 + a.2 * a.2).sqrt();
        if len < 0.1 {
            continue;
        }
        let axis = (a.0 / len, a.1 / len, a.2 / len);
        let radians = rng.small();
        assert!(same_m(Mat3::from_axis_angle(v3(axis), angle(radians)), hw_from_axis_angle(axis, radians)));
    }
}

#[test]
fn elementary_rotations_match_hardware() {
    let mut rng = Lcg(10);
    for _ in 0..2000 {
        let radians = rng.small();
        let (sina, cosa) = radians.sin_cos();
        let a = angle(radians);
        assert!(same_m(Mat3::from_rotation_x(a), ((1.0, 0.0, 0.0), (0.0, cosa, sina), (0.0, -sina, cosa))));
        assert!(same_m(Mat3::from_rotation_y(a), ((cosa, 0.0, -sina), (0.0, 1.0, 0.0), (sina, 0.0, cosa))));
        assert!(same_m(Mat3::from_rotation_z(a), ((cosa, sina, 0.0), (-sina, cosa, 0.0), (0.0, 0.0, 1.0))));
    }
}

#[test]
fn from_rotation_ypr_matches_hardware() {
    let mut rng = Lcg(11);
    for _ in 0..5000 {
        let (yaw, pitch, roll) = (rng.small(), rng.small(), rng.small());
        let q = hw_quat_ypr(yaw, pitch, roll);
        let got_q = Quat::from_rotation_ypr(angle(yaw), angle(pitch), angle(roll));
        assert!(same(got_q.x, q.0) && same(got_q.y, q.1) && same(got_q.z, q.2) && same(got_q.w, q.3));
        let got = Mat3::from_rotation_ypr(angle(yaw), angle(pitch), angle(roll));
        assert!(same_m(got, hw_quat_to_axes(q)));
    }
}

#[test]
fn quat_from_axis_angle_matches_hardware() {
    let mut rng = Lcg(12);
    for _ in 0..2000 {
        let axis = rng.vector();
        let radians = rng.small();
        let (hs, hc) = (radians * 0.5).sin_cos();
        let q = Quat::from_axis_angle(v3(axis), angle(radians));
        assert!(same(q.x, axis.0 * hs) && same(q.y, axis.1 * hs) && same(q.z, axis.2 * hs));
        assert!(same(q.w, hc));
    }
}

#[test]
fn quat_length_and_normalization() {
    let mut rng = Lcg(13);
    for _ in 0..2000 {
        let q = rng.unit_quat();
        let quat = Quat::new(s(q.0), s(q.1), s(q.2), s(q.3));
        let want = q.0 * q.0 + q.1 * q.1 + q.2 * q.2 + q.3 * q.3;
        assert!(same(quat.length_squared(), want));
        assert_eq!(quat.is_normalized(), (want - 1.0).abs() <= 0.000_001);
    }
    assert!(Quat::identity().is_normalized());
    assert!(!Quat::new(s(1.0), s(1.0), s(0.0), s(0.0)).is_normalized());
    assert!(!Quat::new(s(f32::NAN), s(0.0), s(0.0), s(1.0)).is_normalized());
}

#[test]
fn vector_operations_match_hardware() {
    let mut rng = Lcg(14);
    for _ in 0..5000 {
        let a = rng.vector();
        let b = rng.vector();
        let c = rng.vector();
        let k = rng.small();
        assert!(same_v(v3(a) + v3(b), (a.0 + b.0, a.1 + b.1, a.2 + b.2)));
        assert!(same_v(v3(a) - v3(b), (a.0 - b.0, a.1 - b.1, a.2 - b.2)));
        assert!(same_v(v3(a) * v3(b), hw_mul(a, b)));
        assert!(same_v(v3(a) * s(k), (a.0 * k, a.1 * k, a.2 * k)));
        assert!(same_v(v3(a).mul_add(v3(b), v3(c)), hw_mul_add(a, b, c)));
        assert!(same(v3(a).dot(v3(b)), hw_dot(a, b)));
    }
}

#[test]
fn constructors_and_accessors() {
    let a = v3((1.0, 2.0, 3.0));
    let b = v3((4.0, 5.0, 6.0));
    let c = v3((7.0, 8.0, 9.0));
    let mut m = mat3(a, b, c);
    assert!(m == Mat3::new(a, b, c));
    assert!(m.get_x_axis() == a && m.get_y_axis() == b && m.get_z_axis() == c);
    m.set_x_axis(c);
    m.set_y_axis(a);
    m.set_z_axis(b);
    assert!(m.get_x_axis() == c && m.get_y_axis() == a && m.get_z_axis() == b);
    assert!(vec3(s(1.0), s(2.0), s(3.0)) == a);
    assert_eq!((f(a.x()), f(a.y()), f(a.z())), (1.0, 2.0, 3.0));
    assert!(a.dup_x() == Vec3::splat(s(1.0)));
    assert!(a.dup_y() == Vec3::splat(s(2.0)));
    assert!(a.dup_z() == Vec3::splat(s(3.0)));
    let t = a.to_tuple();
    assert_eq!((f(t.0), f(t.1), f(t.2)), (1.0, 2.0, 3.0));
    assert!(Vec3::from_array(a.to_array()) == a);
    assert!(same_m(Mat3::zero(), ((0.0, 0.0, 0.0), (0.0, 0.0, 0.0), (0.0, 0.0, 0.0))));
    assert!(same_m(Mat3::identity(), ((1.0, 0.0, 0.0), (0.0, 1.0, 0.0), (0.0, 0.0, 1.0))));
    assert!(same_v(Vec3::zero(), (0.0, 0.0, 0.0)));
    assert!(same_v(Vec3::unit_x(), (1.0, 0.0, 0.0)));
    assert!(same_v(Vec3::unit_y(), (0.0, 1.0, 0.0)));
    assert!(same_v(Vec3::unit_z(), (0.0, 0.0, 1.0)));
    assert!(same_m(Mat3::from_scale(v3((2.0, 3.0, 4.0))), ((2.0, 0.0, 0.0), (0.0, 3.0, 0.0), (0.0, 0.0, 4.0))));
    let zero = Angle::zero();
    let (sin, cos) = zero.sin_cos();
    let (half_sin, half_cos) = zero.half_sin_cos();
    assert_eq!((f(sin), f(cos), f(half_sin), f(half_cos)), (0.0, 1.0, 0.0, 1.0));
    let q = Quat::new(s(1.0), s(2.0), s(3.0), s(4.0));
    let t = q.to_tuple();
    assert_eq!((f(t.0), f(t.1), f(t.2), f(t.3)), (1.0, 2.0, 3.0, 4.0));
    let arr = q.to_array();
    assert_eq!(f(arr[3]), 4.0);
    assert!(q == q);
    assert!(q != Quat::identity());
}

#[test]
fn equality_is_numeric() {
    let nan = v3((f32::NAN, 0.0, 0.0));
    assert!(nan != nan);
    assert!(v3((0.0, -0.0, 1.0)) == v3((-0.0, 0.0, 1.0)));
    assert!(v3((0.0, 0.0, 1.0)) != v3((0.0, 0.0, 2.0)));
    let m = m3(((1.0, 2.0, 3.0), (4.0, 5.0, 6.0), (7.0, 8.0, 9.0)));
    assert!(m == m);
    assert!(m != m.transpose());
    let with_nan = m3(((f32::NAN, 2.0, 3.0), (4.0, 5.0, 6.0), (7.0, 8.0, 9.0)));
    assert!(with_nan != with_nan);
}

#[test]
fn operators_are_the_named_functions() {
    let mut rng = Lcg(15);
    for _ in 0..500 {
        let a = m3(rng.matrix());
        let b = m3(rng.matrix());
        let v = v3(rng.vector());
        let k = s(rng.small());
        assert!(a + b == a.add_mat3(&b));
        assert!(a + &b == a.add_mat3(&b));
        assert!(a - b == a.sub_mat3(&b));
        assert!(a - &b == a.sub_mat3(&b));
        assert!(a * b == a.mul_mat3(&b));
        assert!(a * &b == a.mul_mat3(&b));
        assert!(v * a == v.transform_mat3(&a));
        assert!(v * &a == v.transform_mat3(&a));
        assert!(k * a == a.mul_scalar(k));
        assert!(k * &a == a.mul_scalar(k));
        assert!(a * k == a.mul_scalar(k));
    }
}

#[test]
fn arrays_are_columns() {
    let arr = [[s(1.0), s(2.0), s(3.0)], [s(4.0), s(5.0), s(6.0)], [s(7.0), s(8.0), s(9.0)]];
    let m = Mat3::from(arr);
    assert!(same_m(m, ((1.0, 2.0, 3.0), (4.0, 5.0, 6.0), (7.0, 8.0, 9.0))));
    let by_ref = Mat3::from(&arr);
    assert!(by_ref == m);
    let back: [[Scalar; 3]; 3] = m.into();
    let back_by_ref: [[Scalar; 3]; 3] = (&m).into();
    for i in 0..3 {
        for j in 0..3 {
            assert_eq!(back[i][j].to_bits(), arr[i][j].to_bits());
            assert_eq!(back_by_ref[i][j].to_bits(), arr[i][j].to_bits());
        }
    }
    assert_eq!(f(back[1][0]), 4.0);
    assert!(same_v(m.get_y_axis(), (4.0, 5.0, 6.0)));
}
