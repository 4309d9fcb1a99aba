//! 3x3 matrices, held as three column vectors.
use crate::angle::Angle;
use crate::quat::{Quat, QuatValue};
use crate::scalar::{decode, one_value, zero_value, Scalar, Value};
use crate::vec3::{Vec3, Vec3Value, NORMALIZED_TOLERANCE_BITS};
use core::ops::{Mul, Neg};
use vstd::prelude::*;
use vstd::std_specs::cmp::PartialEqSpecImpl;
use vstd::std_specs::ops::{AddSpec, MulSpec, NegSpec, SubSpec};

verus! {

/// The nine values that a matrix stands for, column by column.
pub struct Mat3Value {
    pub x_axis: Vec3Value,
    pub y_axis: Vec3Value,
    pub z_axis: Vec3Value,
}

/// The vector `v` carried through the matrix `m`: the columns of `m`
/// weighted by the components of `v`, summed from the first column on, each
/// product rounded before it is added.
pub open spec fn transformed(v: Vec3Value, m: Mat3Value) -> Vec3Value {
    let first = Vec3Value::splat(v.x).times(m.x_axis);
    let second = Vec3Value::splat(v.y).mul_add(m.y_axis, first);
    Vec3Value::splat(v.z).mul_add(m.z_axis, second)
}

/// The three columns of the rotation matrix of a unit quaternion.
pub open spec fn quat_axes(q: QuatValue) -> Mat3Value {
    let x2 = q.x.plus(q.x);
    let y2 = q.y.plus(q.y);
    let z2 = q.z.plus(q.z);
    let xx = q.x.times(x2);
    let xy = q.x.times(y2);
    let xz = q.x.times(z2);
    let yy = q.y.times(y2);
    let yz = q.y.times(z2);
    let zz = q.z.times(z2);
    let wx = q.w.times(x2);
    let wy = q.w.times(y2);
    let wz = q.w.times(z2);
    let one = one_value();
    Mat3Value {
        x_axis: Vec3Value { x: one.minus(yy.plus(zz)), y: xy.plus(wz), z: xz.minus(wy) },
        y_axis: Vec3Value { x: xy.minus(wz), y: one.minus(xx.plus(zz)), z: yz.plus(wx) },
        z_axis: Vec3Value { x: xz.plus(wy), y: yz.minus(wx), z: one.minus(xx.plus(yy)) },
    }
}

impl Mat3Value {
    /// Nine positive zeros.
    pub open spec fn zero() -> Mat3Value {
        Mat3Value {
            x_axis: Vec3Value::zero(),
            y_axis: Vec3Value::zero(),
            z_axis: Vec3Value::zero(),
        }
    }

    /// Ones on the diagonal and positive zeros elsewhere.
    pub open spec fn identity() -> Mat3Value {
        Mat3Value {
            x_axis: Vec3Value::unit_x(),
            y_axis: Vec3Value::unit_y(),
            z_axis: Vec3Value::unit_z(),
        }
    }

    /// Whether no entry is an infinity or a NaN.
    pub open spec fn is_finite(self) -> bool {
        self.x_axis.is_finite() && self.y_axis.is_finite() && self.z_axis.is_finite()
    }

    /// Entry by entry, the same numbers.
    pub open spec fn same_numbers(self, other: Mat3Value) -> bool {
        self.x_axis.same_numbers(other.x_axis) && self.y_axis.same_numbers(other.y_axis)
            && self.z_axis.same_numbers(other.z_axis)
    }

    /// The matrix with `scale` on its diagonal and positive zeros elsewhere.
    pub open spec fn from_scale(scale: Vec3Value) -> Mat3Value {
        Mat3Value {
            x_axis: Vec3Value { x: scale.x, y: zero_value(), z: zero_value() },
            y_axis: Vec3Value { x: zero_value(), y: scale.y, z: zero_value() },
            z_axis: Vec3Value { x: zero_value(), y: zero_value(), z: scale.z },
        }
    }

    /// The rotation of a unit quaternion, each column scaled by the matching
    /// component of `scale`.
    pub open spec fn from_scale_rotation(scale: Vec3Value, rotation: QuatValue) -> Mat3Value {
        let axes = quat_axes(rotation);
        Mat3Value {
            x_axis: axes.x_axis.scaled(scale.x),
            y_axis: axes.y_axis.scaled(scale.y),
            z_axis: axes.z_axis.scaled(scale.z),
        }
    }

    /// The rotation about the unit vector `axis` by an angle with the given
    /// sine and cosine, after Rodrigues.
    pub open spec fn from_axis_angle(axis: Vec3Value, sin: Value, cos: Value) -> Mat3Value {
        let by_sin = axis.scaled(sin);
        let squared = axis.times(axis);
        let omc = one_value().minus(cos);
        let xyomc = axis.x.times(axis.y).times(omc);
        let xzomc = axis.x.times(axis.z).times(omc);
        let yzomc = axis.y.times(axis.z).times(omc);
        Mat3Value {
            x_axis: Vec3Value {
                x: squared.x.times(omc).plus(cos),
                y: xyomc.plus(by_sin.z),
                z: xzomc.minus(by_sin.y),
            },
            y_axis: Vec3Value {
                x: xyomc.minus(by_sin.z),
                y: squared.y.times(omc).plus(cos),
                z: yzomc.plus(by_sin.x),
            },
            z_axis: Vec3Value {
                x: xzomc.plus(by_sin.y),
                y: yzomc.minus(by_sin.x),
                z: squared.z.times(omc).plus(cos),
            },
        }
    }

    /// The rotation about the first axis by an angle with the given sine and
    /// cosine.
    pub open spec fn from_rotation_x(sin: Value, cos: Value) -> Mat3Value {
        Mat3Value {
            x_axis: Vec3Value::unit_x(),
            y_axis: Vec3Value { x: zero_value(), y: cos, z: sin },
            z_axis: Vec3Value { x: zero_value(), y: sin.negated(), z: cos },
        }
    }

    /// The rotation about the second axis by an angle with the given sine
    /// and cosine.
    pub open spec fn from_rotation_y(sin: Value, cos: Value) -> Mat3Value {
        Mat3Value {
            x_axis: Vec3Value { x: cos, y: zero_value(), z: sin.negated() },
            y_axis: Vec3Value::unit_y(),
            z_axis: Vec3Value { x: sin, y: zero_value(), z: cos },
        }
    }

    /// The rotation about the third axis by an angle with the given sine and
    /// cosine.
    pub open spec fn from_rotation_z(sin: Value, cos: Value) -> Mat3Value {
        Mat3Value {
            x_axis: Vec3Value { x: cos, y: sin, z: zero_value() },
            y_axis: Vec3Value { x: sin.negated(), y: cos, z: zero_value() },
            z_axis: Vec3Value::unit_z(),
        }
    }

    /// The matrix whose columns are the rows of this one.
    pub open spec fn transposed(self) -> Mat3Value {
        Mat3Value {
            x_axis: Vec3Value { x: self.x_axis.x, y: self.y_axis.x, z: self.z_axis.x },
            y_axis: Vec3Value { x: self.x_axis.y, y: self.y_axis.y, z: self.z_axis.y },
            z_axis: Vec3Value { x: self.x_axis.z, y: self.y_axis.z, z: self.z_axis.z },
        }
    }

    /// The cofactors of the first column: the cross product of the second
    /// and third columns.
    pub open spec fn first_cofactors(self) -> Vec3Value {
        let y = self.y_axis;
        let z = self.z_axis;
        Vec3Value {
            x: y.y.times(z.z).minus(y.z.times(z.y)),
            y: y.z.times(z.x).minus(y.x.times(z.z)),
            z: y.x.times(z.y).minus(y.y.times(z.x)),
        }
    }

    /// The determinant, expanded along the first column.
    pub open spec fn determinant(self) -> Value {
        self.x_axis.dot(self.first_cofactors())
    }

    /// The inverse: the adjugate, every entry times the reciprocal of the
    /// determinant.
    pub open spec fn inverse(self) -> Mat3Value {
        let x = self.x_axis;
        let y = self.y_axis;
        let z = self.z_axis;
        let first = self.first_cofactors();
        let inv_det = Vec3Value::splat(one_value().divided_by(self.determinant()));
        Mat3Value {
            x_axis: inv_det.times(
                Vec3Value {
                    x: first.x,
                    y: x.z.times(z.y).minus(x.y.times(z.z)),
                    z: x.y.times(y.z).minus(x.z.times(y.y)),
                },
            ),
            y_axis: inv_det.times(
                Vec3Value {
                    x: first.y,
                    y: x.x.times(z.z).minus(x.z.times(z.x)),
                    z: x.z.times(y.x).minus(x.x.times(y.z)),
                },
            ),
            z_axis: inv_det.times(
                Vec3Value {
                    x: first.z,
                    y: x.y.times(z.x).minus(x.x.times(z.y)),
                    z: x.x.times(y.y).minus(x.y.times(y.x)),
                },
            ),
        }
    }

    /// The product: each column of `self` carried through `rhs`.
    pub open spec fn times(self, rhs: Mat3Value) -> Mat3Value {
        Mat3Value {
            x_axis: transformed(self.x_axis, rhs),
            y_axis: transformed(self.y_axis, rhs),
            z_axis: transformed(self.z_axis, rhs),
        }
    }

    /// The sum, entry by entry.
    pub open spec fn plus(self, rhs: Mat3Value) -> Mat3Value {
        Mat3Value {
            x_axis: self.x_axis.plus(rhs.x_axis),
            y_axis: self.y_axis.plus(rhs.y_axis),
            z_axis: self.z_axis.plus(rhs.z_axis),
        }
    }

    /// The difference, entry by entry.
    pub open spec fn minus(self, rhs: Mat3Value) -> Mat3Value {
        Mat3Value {
            x_axis: self.x_axis.minus(rhs.x_axis),
            y_axis: self.y_axis.minus(rhs.y_axis),
            z_axis: self.z_axis.minus(rhs.z_axis),
        }
    }

    /// Every entry times `s`.
    pub open spec fn scaled(self, s: Value) -> Mat3Value {
        Mat3Value {
            x_axis: self.x_axis.scaled(s),
            y_axis: self.y_axis.scaled(s),
            z_axis: self.z_axis.scaled(s),
        }
    }
}

/// Why a matrix could not be built or inverted.
#[derive(Clone, Copy, Debug, PartialEq, Eq, Structural)]
pub enum MathError {
    /// The quaternion does not have unit length.
    NotNormalized,
    /// The determinant is too close to zero to divide by.
    SingularMatrix,
}

/// The encoding of the size that a determinant must exceed for a matrix to
/// count as invertible: a millionth.
pub const SINGULAR_THRESHOLD_BITS: u32 = 0x3586_37bd;

/// A 3x3 matrix.  The three vectors are its columns.
#[derive(Clone, Copy, Debug)]
pub struct Mat3 {
    pub x_axis: Vec3,
    pub y_axis: Vec3,
    pub z_axis: Vec3,
}

impl View for Mat3 {
    type V = Mat3Value;

    open spec fn view(&self) -> Mat3Value {
        Mat3Value { x_axis: self.x_axis@, y_axis: self.y_axis@, z_axis: self.z_axis@ }
    }
}

/// The matrix with the given columns.
pub fn mat3(x_axis: Vec3, y_axis: Vec3, z_axis: Vec3) -> (r: Mat3)
    ensures
        r == (Mat3 { x_axis, y_axis, z_axis }),
{
    Mat3 { x_axis, y_axis, z_axis }
}

/// The three columns of the rotation matrix of `rotation`, which is to have
/// unit length.
pub fn quat_to_axes(rotation: Quat) -> (r: (Vec3, Vec3, Vec3))
    ensures
        (Mat3 { x_axis: r.0, y_axis: r.1, z_axis: r.2 })@ == quat_axes(rotation@),
        r.0.is_canonical() && r.1.is_canonical() && r.2.is_canonical(),
{
    let (x, y, z, w) = rotation.to_tuple();
    let x2 = x + x;
    let y2 = y + y;
    let z2 = z + z;
    let xx = x * x2;
    let xy = x * y2;
    let xz = x * z2;
    let yy = y * y2;
    let yz = y * z2;
    let zz = z * z2;
    let wx = w * x2;
    let wy = w * y2;
    let wz = w * z2;
    let one = Scalar::one();
    let x_axis = Vec3::new(one - (yy + zz), xy + wz, xz - wy);
    let y_axis = Vec3::new(xy - wz, one - (xx + zz), yz + wx);
    let z_axis = Vec3::new(xz + wy, yz - wx, one - (xx + yy));
    (x_axis, y_axis, z_axis)
}

impl Mat3 {
    /// Whether every entry is canonical.
    pub open spec fn is_canonical(self) -> bool {
        self.x_axis.is_canonical() && self.y_axis.is_canonical() && self.z_axis.is_canonical()
    }

    /// The matrix of nine positive zeros.
    pub fn zero() -> (r: Mat3)
        ensures
            r@ == Mat3Value::zero(),
    {
        Mat3 { x_axis: Vec3::zero(), y_axis: Vec3::zero(), z_axis: Vec3::zero() }
    }

    /// The matrix with ones on its diagonal and positive zeros elsewhere.
    pub fn identity() -> (r: Mat3)
        ensures
            r@ == Mat3Value::identity(),
    {
        Mat3 { x_axis: Vec3::unit_x(), y_axis: Vec3::unit_y(), z_axis: Vec3::unit_z() }
    }

    /// The matrix with the given columns.
    pub fn new(x_axis: Vec3, y_axis: Vec3, z_axis: Vec3) -> (r: Mat3)
        ensures
            r == (Mat3 { x_axis, y_axis, z_axis }),
    {
        Mat3 { x_axis, y_axis, z_axis }
    }

    /// The rotation of `rotation`, which is to have unit length, each column
    /// scaled by the matching component of `scale`.
    pub fn from_scale_rotation(scale: Vec3, rotation: Quat) -> (r: Mat3)
        ensures
            r@ == Mat3Value::from_scale_rotation(scale@, rotation@),
            r.is_canonical(),
    {
        let (x_axis, y_axis, z_axis) = quat_to_axes(rotation);
        let (scale_x, scale_y, scale_z) = scale.to_tuple();
        Mat3 {
            x_axis: x_axis * scale_x,
            y_axis: y_axis * scale_y,
            z_axis: z_axis * scale_z,
        }
    }

    /// The rotation of `rotation`, which is to have unit length.
    pub fn from_quat(rotation: Quat) -> (r: Mat3)
        ensures
            r@ == quat_axes(rotation@),
            r.is_canonical(),
    {
        let (x_axis, y_axis, z_axis) = quat_to_axes(rotation);
        Mat3 { x_axis, y_axis, z_axis }
    }

    /// The rotation of `rotation`, or `NotNormalized` where its squared
    /// length is not within a millionth of one.
    pub fn try_from_quat(rotation: Quat) -> (r: Result<Mat3, MathError>)
        ensures
            r is Ok <==> rotation@.is_normalized(decode(NORMALIZED_TOLERANCE_BITS)),
            r is Ok ==> r->Ok_0@ == quat_axes(rotation@) && r->Ok_0.is_canonical(),
            r is Err ==> r->Err_0 == MathError::NotNormalized,
    {
        if rotation.is_normalized() {
            Ok(Self::from_quat(rotation))
        } else {
            Err(MathError::NotNormalized)
        }
    }

    /// The rotation about `axis`, which is to have unit length, by `angle`.
    pub fn from_axis_angle(axis: Vec3, angle: Angle) -> (r: Mat3)
        ensures
            r@ == Mat3Value::from_axis_angle(axis@, angle@.sin, angle@.cos),
            r.is_canonical(),
    {
        let (sin, cos) = angle.sin_cos();
        let (x, y, z) = axis.to_tuple();
        let (xsin, ysin, zsin) = (axis * sin).to_tuple();
        let (x2, y2, z2) = (axis * axis).to_tuple();
        let omc = Scalar::one() - cos;
        let xyomc = x * y * omc;
        let xzomc = x * z * omc;
        let yzomc = y * z * omc;
        Mat3 {
            x_axis: Vec3::new(x2 * omc + cos, xyomc + zsin, xzomc - ysin),
            y_axis: Vec3::new(xyomc - zsin, y2 * omc + cos, yzomc + xsin),
            z_axis: Vec3::new(xzomc + ysin, yzomc - xsin, z2 * omc + cos),
        }
    }

    /// The rotation made of a roll about the third axis, then a pitch about
    /// the first, then a yaw about the second.
    pub fn from_rotation_ypr(yaw: Angle, pitch: Angle, roll: Angle) -> (r: Mat3)
        ensures
            r@ == quat_axes(QuatValue::from_rotation_ypr(yaw@, pitch@, roll@)),
            r.is_canonical(),
    {
        let quat = Quat::from_rotation_ypr(yaw, pitch, roll);
        Self::from_quat(quat)
    }

    /// The rotation about the first axis by `angle`.
    pub fn from_rotation_x(angle: Angle) -> (r: Mat3)
        ensures
            r@ == Mat3Value::from_rotation_x(angle@.sin, angle@.cos),
            r.y_axis.y == angle.cos && r.y_axis.z == angle.sin,
            r.z_axis.y == NegSpec::neg_spec(angle.sin) && r.z_axis.z == angle.cos,
    {
        let (sina, cosa) = angle.sin_cos();
        Mat3 {
            x_axis: Vec3::unit_x(),
            y_axis: Vec3::new(Scalar::zero(), cosa, sina),
            z_axis: Vec3::new(Scalar::zero(), sina.neg(), cosa),
        }
    }

    /// The rotation about the second axis by `angle`.
    pub fn from_rotation_y(angle: Angle) -> (r: Mat3)
        ensures
            r@ == Mat3Value::from_rotation_y(angle@.sin, angle@.cos),
            r.x_axis.x == angle.cos && r.x_axis.z == NegSpec::neg_spec(angle.sin),
            r.z_axis.x == angle.sin && r.z_axis.z == angle.cos,
    {
        let (sina, cosa) = angle.sin_cos();
        Mat3 {
            x_axis: Vec3::new(cosa, Scalar::zero(), sina.neg()),
            y_axis: Vec3::unit_y(),
            z_axis: Vec3::new(sina, Scalar::zero(), cosa),
        }
    }

    /// The rotation about the third axis by `angle`.
    pub fn from_rotation_z(angle: Angle) -> (r: Mat3)
        ensures
            r@ == Mat3Value::from_rotation_z(angle@.sin, angle@.cos),
            r.x_axis.x == angle.cos && r.x_axis.y == angle.sin,
            r.y_axis.x == NegSpec::neg_spec(angle.sin) && r.y_axis.y == angle.cos,
    {
        let (sina, cosa) = angle.sin_cos();
        Mat3 {
            x_axis: Vec3::new(cosa, sina, Scalar::zero()),
            y_axis: Vec3::new(sina.neg(), cosa, Scalar::zero()),
            z_axis: Vec3::unit_z(),
        }
    }

    /// The matrix with `scale` on its diagonal and positive zeros elsewhere.
    pub fn from_scale(scale: Vec3) -> (r: Mat3)
        ensures
            r@ == Mat3Value::from_scale(scale@),
            r.x_axis.x == scale.x && r.y_axis.y == scale.y && r.z_axis.z == scale.z,
    {
        let (x, y, z) = scale.to_tuple();
        Mat3 {
            x_axis: Vec3::new(x, Scalar::zero(), Scalar::zero()),
            y_axis: Vec3::new(Scalar::zero(), y, Scalar::zero()),
            z_axis: Vec3::new(Scalar::zero(), Scalar::zero(), z),
        }
    }

    /// Replaces the first column.
    pub fn set_x_axis(&mut self, x: Vec3)
        ensures
            *final(self) == (Mat3 { x_axis: x, ..*old(self) }),
    {
        self.x_axis = x;
    }

    /// Replaces the second column.
    pub fn set_y_axis(&mut self, y: Vec3)
        ensures
            *final(self) == (Mat3 { y_axis: y, ..*old(self) }),
    {
        self.y_axis = y;
    }

    /// Replaces the third column.
    pub fn set_z_axis(&mut self, z: Vec3)
        ensures
            *final(self) == (Mat3 { z_axis: z, ..*old(self) }),
    {
        self.z_axis = z;
    }

    /// The first column.
    pub fn get_x_axis(&self) -> (r: Vec3)
        ensures
            r == self.x_axis,
    {
        self.x_axis
    }

    /// The second column.
    pub fn get_y_axis(&self) -> (r: Vec3)
        ensures
            r == self.y_axis,
    {
        self.y_axis
    }

    /// The third column.
    pub fn get_z_axis(&self) -> (r: Vec3)
        ensures
            r == self.z_axis,
    {
        self.z_axis
    }

    /// The matrix whose columns are the rows of this one.
    pub fn transpose(&self) -> (r: Mat3)
        ensures
            r == self.transposed(),
            r@ == self@.transposed(),
    {
        let (m00, m01, m02) = self.x_axis.to_tuple();
        let (m10, m11, m12) = self.y_axis.to_tuple();
        let (m20, m21, m22) = self.z_axis.to_tuple();
        Mat3 {
            x_axis: Vec3::new(m00, m10, m20),
            y_axis: Vec3::new(m01, m11, m21),
            z_axis: Vec3::new(m02, m12, m22),
        }
    }

    /// The determinant, expanded along the first column.
    pub fn determinant(&self) -> (r: Scalar)
        ensures
            r@ == self@.determinant(),
            r.is_canonical(),
    {
        let (m10, m11, m12) = self.y_axis.to_tuple();
        let (m20, m21, m22) = self.z_axis.to_tuple();
        self.x_axis.dot(
            Vec3::new(m11 * m22 - m12 * m21, m12 * m20 - m10 * m22, m10 * m21 - m11 * m20),
        )
    }

    /// The inverse: the adjugate, every entry times the reciprocal of the
    /// determinant.
    ///
    /// Nothing is checked.  Where the determinant is zero the reciprocal is
    /// an infinity or a NaN, and so are entries of the result.
    pub fn inverse(&self) -> (r: Mat3)
        ensures
            r@ == self@.inverse(),
            r.is_canonical(),
    {
        let (m00, m01, m02) = self.x_axis.to_tuple();
        let (m10, m11, m12) = self.y_axis.to_tuple();
        let (m20, m21, m22) = self.z_axis.to_tuple();
        let inv00 = m11 * m22 - m12 * m21;
        let inv10 = m12 * m20 - m10 * m22;
        let inv20 = m10 * m21 - m11 * m20;
        let dot = self.x_axis.dot(Vec3::new(inv00, inv10, inv20));
        let inv_dot = Vec3::splat(Scalar::one() / dot);
        Mat3 {
            x_axis: inv_dot * Vec3::new(inv00, m02 * m21 - m01 * m22, m01 * m12 - m02 * m11),
            y_axis: inv_dot * Vec3::new(inv10, m00 * m22 - m02 * m20, m02 * m10 - m00 * m12),
            z_axis: inv_dot * Vec3::new(inv20, m01 * m20 - m00 * m21, m00 * m11 - m01 * m10),
        }
    }

    /// The inverse, or `SingularMatrix` where the size of the determinant
    /// does not exceed a millionth; a determinant that is a NaN does not.
    pub fn try_inverse(&self) -> (r: Result<Mat3, MathError>)
        ensures
            r is Ok <==> decode(SINGULAR_THRESHOLD_BITS).less_than(self@.determinant().absolute()),
            r is Ok ==> r->Ok_0@ == self@.inverse() && r->Ok_0.is_canonical(),
            r is Err ==> r->Err_0 == MathError::SingularMatrix,
    {
        let threshold = Scalar::from_bits(SINGULAR_THRESHOLD_BITS);
        if self.determinant().abs().gt(threshold) {
            Ok(self.inverse())
        } else {
            Err(MathError::SingularMatrix)
        }
    }

    /// The product of two matrices: each column of `self` carried through
    /// `rhs`.
    pub fn mul_mat3(&self, rhs: &Mat3) -> (r: Mat3)
        ensures
            r == self.mul_exact(*rhs),
            r@ == self@.times(rhs@),
            r.is_canonical(),
    {
        let mut tmp = self.x_axis.dup_x().mul(rhs.x_axis);
        tmp = self.x_axis.dup_y().mul_add(rhs.y_axis, tmp);
        tmp = self.x_axis.dup_z().mul_add(rhs.z_axis, tmp);
        let x_axis = tmp;

        tmp = self.y_axis.dup_x().mul(rhs.x_axis);
        tmp = self.y_axis.dup_y().mul_add(rhs.y_axis, tmp);
        tmp = self.y_axis.dup_z().mul_add(rhs.z_axis, tmp);
        let y_axis = tmp;

        tmp = self.z_axis.dup_x().mul(rhs.x_axis);
        tmp = self.z_axis.dup_y().mul_add(rhs.y_axis, tmp);
        tmp = self.z_axis.dup_z().mul_add(rhs.z_axis, tmp);
        let z_axis = tmp;

        Mat3 { x_axis, y_axis, z_axis }
    }

    /// The sum, entry by entry.
    pub fn add_mat3(&self, rhs: &Mat3) -> (r: Mat3)
        ensures
            r == self.add_exact(*rhs),
            r@ == self@.plus(rhs@),
            r.is_canonical(),
    {
        Mat3 {
            x_axis: self.x_axis + rhs.x_axis,
            y_axis: self.y_axis + rhs.y_axis,
            z_axis: self.z_axis + rhs.z_axis,
        }
    }

    /// The difference, entry by entry.
    pub fn sub_mat3(&self, rhs: &Mat3) -> (r: Mat3)
        ensures
            r == self.sub_exact(*rhs),
            r@ == self@.minus(rhs@),
            r.is_canonical(),
    {
        Mat3 {
            x_axis: self.x_axis - rhs.x_axis,
            y_axis: self.y_axis - rhs.y_axis,
            z_axis: self.z_axis - rhs.z_axis,
        }
    }

    /// Every entry times `rhs`.
    pub fn mul_scalar(&self, rhs: Scalar) -> (r: Mat3)
        ensures
            r == self.scaled_exact(rhs),
            r@ == self@.scaled(rhs@),
            r.is_canonical(),
    {
        let s = Vec3::splat(rhs);
        Mat3 { x_axis: self.x_axis * s, y_axis: self.y_axis * s, z_axis: self.z_axis * s }
    }

    /// The matrix whose columns are the rows of this one, encoding for
    /// encoding.
    pub open spec fn transposed(self) -> Mat3 {
        Mat3 {
            x_axis: Vec3 { x: self.x_axis.x, y: self.y_axis.x, z: self.z_axis.x },
            y_axis: Vec3 { x: self.x_axis.y, y: self.y_axis.y, z: self.z_axis.y },
            z_axis: Vec3 { x: self.x_axis.z, y: self.y_axis.z, z: self.z_axis.z },
        }
    }

    /// The encodings that `mul_mat3` gives.
    pub open spec fn mul_exact(self, rhs: Mat3) -> Mat3 {
        Mat3 {
            x_axis: self.x_axis.transform_exact(rhs),
            y_axis: self.y_axis.transform_exact(rhs),
            z_axis: self.z_axis.transform_exact(rhs),
        }
    }

    /// The encodings that `add_mat3` gives.
    pub open spec fn add_exact(self, rhs: Mat3) -> Mat3 {
        Mat3 {
            x_axis: AddSpec::add_spec(self.x_axis, rhs.x_axis),
            y_axis: AddSpec::add_spec(self.y_axis, rhs.y_axis),
            z_axis: AddSpec::add_spec(self.z_axis, rhs.z_axis),
        }
    }

    /// The encodings that `sub_mat3` gives.
    pub open spec fn sub_exact(self, rhs: Mat3) -> Mat3 {
        Mat3 {
            x_axis: SubSpec::sub_spec(self.x_axis, rhs.x_axis),
            y_axis: SubSpec::sub_spec(self.y_axis, rhs.y_axis),
            z_axis: SubSpec::sub_spec(self.z_axis, rhs.z_axis),
        }
    }

    /// The encodings that `mul_scalar` gives.
    pub open spec fn scaled_exact(self, rhs: Scalar) -> Mat3 {
        let s = Vec3 { x: rhs, y: rhs, z: rhs };
        Mat3 {
            x_axis: MulSpec::mul_spec(self.x_axis, s),
            y_axis: MulSpec::mul_spec(self.y_axis, s),
            z_axis: MulSpec::mul_spec(self.z_axis, s),
        }
    }
}

impl Vec3 {
    /// The vector carried through the matrix `rhs`: the columns of `rhs`
    /// weighted by the components of the vector.
    pub fn transform_mat3(self, rhs: &Mat3) -> (r: Vec3)
        ensures
            r == self.transform_exact(*rhs),
            r@ == transformed(self@, rhs@),
            r.is_canonical(),
    {
        let mut tmp = self.dup_x().mul(rhs.get_x_axis());
        tmp = self.dup_y().mul_add(rhs.get_y_axis(), tmp);
        tmp = self.dup_z().mul_add(rhs.get_z_axis(), tmp);
        tmp
    }
}

impl Vec3 {
    /// The encodings that `transform_mat3` gives.
    pub open spec fn transform_exact(self, rhs: Mat3) -> Vec3 {
        let first = MulSpec::mul_spec(Vec3 { x: self.x, y: self.x, z: self.x }, rhs.x_axis);
        let second = AddSpec::add_spec(
            MulSpec::mul_spec(Vec3 { x: self.y, y: self.y, z: self.y }, rhs.y_axis),
            first,
        );
        AddSpec::add_spec(
            MulSpec::mul_spec(Vec3 { x: self.z, y: self.z, z: self.z }, rhs.z_axis),
            second,
        )
    }
}

impl PartialEq for Mat3 {
    /// Numeric equality of all nine entries.
    fn eq(&self, rhs: &Mat3) -> (r: bool) {
        self.x_axis == rhs.x_axis && self.y_axis == rhs.y_axis && self.z_axis == rhs.z_axis
    }
}

impl PartialEqSpecImpl for Mat3 {
    open spec fn obeys_eq_spec() -> bool {
        true
    }

    open spec fn eq_spec(&self, other: &Mat3) -> bool {
        self@.same_numbers(other@)
    }
}

} // verus!
