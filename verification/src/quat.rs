//! Quaternions that stand for rotations.
use crate::angle::{Angle, AngleValue};
use crate::scalar::{decode, one_value, zero_value, Scalar, Value};
use crate::vec3::{Vec3, Vec3Value, NORMALIZED_TOLERANCE_BITS};
use core::ops::Neg;
use vstd::prelude::*;
use vstd::std_specs::cmp::PartialEqSpecImpl;

verus! {

/// The four values that a quaternion stands for.
pub struct QuatValue {
    pub x: Value,
    pub y: Value,
    pub z: Value,
    pub w: Value,
}

impl QuatValue {
    /// The rotation that turns nothing.
    pub open spec fn identity() -> QuatValue {
        QuatValue { x: zero_value(), y: zero_value(), z: zero_value(), w: one_value() }
    }

    /// Component by component, the same numbers.
    pub open spec fn same_numbers(self, other: QuatValue) -> bool {
        self.x.same_number(other.x) && self.y.same_number(other.y) && self.z.same_number(
            other.z,
        ) && self.w.same_number(other.w)
    }

    /// The squared length, summed from the first component on.
    pub open spec fn length_squared(self) -> Value {
        self.x.times(self.x).plus(self.y.times(self.y)).plus(self.z.times(self.z)).plus(
            self.w.times(self.w),
        )
    }

    /// Whether the squared length is within `tolerance` of one.
    pub open spec fn is_normalized(self, tolerance: Value) -> bool {
        self.length_squared().minus(one_value()).absolute().at_most(tolerance)
    }

    /// The rotation about `axis` by an angle, from the sine and cosine of
    /// half the angle: the axis scaled by the sine, and the cosine.
    pub open spec fn from_axis_angle(axis: Vec3Value, angle: AngleValue) -> QuatValue {
        QuatValue {
            x: axis.x.times(angle.half_sin),
            y: axis.y.times(angle.half_sin),
            z: axis.z.times(angle.half_sin),
            w: angle.half_cos,
        }
    }

    /// The rotation made of a roll about the third axis, then a pitch about
    /// the first, then a yaw about the second.
    pub open spec fn from_rotation_ypr(
        yaw: AngleValue,
        pitch: AngleValue,
        roll: AngleValue,
    ) -> QuatValue {
        let x3 = yaw.half_cos.times(pitch.half_sin);
        let y3 = yaw.half_sin.times(pitch.half_cos);
        let z3 = yaw.half_sin.negated().times(pitch.half_sin);
        let w3 = yaw.half_cos.times(pitch.half_cos);
        QuatValue {
            x: x3.times(roll.half_cos).plus(y3.times(roll.half_sin)),
            y: y3.times(roll.half_cos).minus(x3.times(roll.half_sin)),
            z: w3.times(roll.half_sin).plus(z3.times(roll.half_cos)),
            w: w3.times(roll.half_cos).minus(z3.times(roll.half_sin)),
        }
    }
}

/// A quaternion.  Where one stands for a rotation it has unit length; that
/// is for the caller to see to, and nothing here checks it.
#[derive(Clone, Copy, Debug)]
pub struct Quat {
    pub x: Scalar,
    pub y: Scalar,
    pub z: Scalar,
    pub w: Scalar,
}

impl View for Quat {
    type V = QuatValue;

    open spec fn view(&self) -> QuatValue {
        QuatValue { x: self.x@, y: self.y@, z: self.z@, w: self.w@ }
    }
}

impl Quat {
    /// Whether every component is canonical.
    pub open spec fn is_canonical(self) -> bool {
        self.x.is_canonical() && self.y.is_canonical() && self.z.is_canonical()
            && self.w.is_canonical()
    }

    /// The quaternion with the given components.
    pub fn new(x: Scalar, y: Scalar, z: Scalar, w: Scalar) -> (r: Quat)
        ensures
            r == (Quat { x, y, z, w }),
    {
        Quat { x, y, z, w }
    }

    /// The rotation that turns nothing.
    pub fn identity() -> (r: Quat)
        ensures
            r@ == QuatValue::identity(),
    {
        Quat { x: Scalar::zero(), y: Scalar::zero(), z: Scalar::zero(), w: Scalar::one() }
    }

    /// The four components in order.
    pub fn to_tuple(self) -> (r: (Scalar, Scalar, Scalar, Scalar))
        ensures
            r == (self.x, self.y, self.z, self.w),
    {
        (self.x, self.y, self.z, self.w)
    }

    /// The four components in order, as an array.
    pub fn to_array(self) -> (r: [Scalar; 4])
        ensures
            r@ == seq![self.x, self.y, self.z, self.w],
    {
        [self.x, self.y, self.z, self.w]
    }

    /// The rotation about `axis`, which is to have unit length, by `angle`.
    pub fn from_axis_angle(axis: Vec3, angle: Angle) -> (r: Quat)
        ensures
            r@ == QuatValue::from_axis_angle(axis@, angle@),
            r.x.is_canonical() && r.y.is_canonical() && r.z.is_canonical(),
            r.w == angle.half_cos,
    {
        let (s, c) = angle.half_sin_cos();
        Quat { x: axis.x * s, y: axis.y * s, z: axis.z * s, w: c }
    }

    /// The rotation made of a roll about the third axis, then a pitch about
    /// the first, then a yaw about the second.
    pub fn from_rotation_ypr(yaw: Angle, pitch: Angle, roll: Angle) -> (r: Quat)
        ensures
            r@ == QuatValue::from_rotation_ypr(yaw@, pitch@, roll@),
            r.is_canonical(),
    {
        let (y0, w0) = yaw.half_sin_cos();
        let (x1, w1) = pitch.half_sin_cos();
        let (z2, w2) = roll.half_sin_cos();
        let x3 = w0 * x1;
        let y3 = y0 * w1;
        let z3 = y0.neg() * x1;
        let w3 = w0 * w1;
        let x4 = x3 * w2 + y3 * z2;
        let y4 = y3 * w2 - x3 * z2;
        let z4 = w3 * z2 + z3 * w2;
        let w4 = w3 * w2 - z3 * z2;
        Quat { x: x4, y: y4, z: z4, w: w4 }
    }

    /// The squared length.
    pub fn length_squared(self) -> (r: Scalar)
        ensures
            r@ == self@.length_squared(),
            r.is_canonical(),
    {
        self.x * self.x + self.y * self.y + self.z * self.z + self.w * self.w
    }

    /// Whether the squared length is within a millionth of one.
    pub fn is_normalized(self) -> (r: bool)
        ensures
            r == self@.is_normalized(decode(NORMALIZED_TOLERANCE_BITS)),
    {
        let tolerance = Scalar::from_bits(NORMALIZED_TOLERANCE_BITS);
        (self.length_squared() - Scalar::one()).abs().le(tolerance)
    }
}

impl PartialEq for Quat {
    /// Numeric equality of all four components.
    fn eq(&self, other: &Quat) -> (r: bool) {
        self.x == other.x && self.y == other.y && self.z == other.z && self.w == other.w
    }
}

impl PartialEqSpecImpl for Quat {
    open spec fn obeys_eq_spec() -> bool {
        true
    }

    open spec fn eq_spec(&self, other: &Quat) -> bool {
        self@.same_numbers(other@)
    }
}

} // verus!
