//! Vectors of three scalars.
use crate::scalar::{decode, one_value, zero_value, Scalar, Value, ONE_BITS};
use core::ops::{Add, Mul, Sub};
use vstd::prelude::*;
use vstd::std_specs::cmp::PartialEqSpecImpl;
use vstd::std_specs::ops::{AddSpec, MulSpec, SubSpec};

verus! {

/// The three values that a vector stands for.
pub struct Vec3Value {
    pub x: Value,
    pub y: Value,
    pub z: Value,
}

impl Vec3Value {
    /// Three positive zeros.
    pub open spec fn zero() -> Vec3Value {
        Vec3Value { x: zero_value(), y: zero_value(), z: zero_value() }
    }

    /// One along the first axis.
    pub open spec fn unit_x() -> Vec3Value {
        Vec3Value { x: one_value(), y: zero_value(), z: zero_value() }
    }

    /// One along the second axis.
    pub open spec fn unit_y() -> Vec3Value {
        Vec3Value { x: zero_value(), y: one_value(), z: zero_value() }
    }

    /// One along the third axis.
    pub open spec fn unit_z() -> Vec3Value {
        Vec3Value { x: zero_value(), y: zero_value(), z: one_value() }
    }

    /// The vector whose three components are all `v`.
    pub open spec fn splat(v: Value) -> Vec3Value {
        Vec3Value { x: v, y: v, z: v }
    }

    /// Whether no component is an infinity or a NaN.
    pub open spec fn is_finite(self) -> bool {
        self.x.is_finite() && self.y.is_finite() && self.z.is_finite()
    }

    /// Component by component, the same numbers.
    pub open spec fn same_numbers(self, other: Vec3Value) -> bool {
        self.x.same_number(other.x) && self.y.same_number(other.y) && self.z.same_number(
            other.z,
        )
    }

    /// The sum, component by component.
    pub open spec fn plus(self, rhs: Vec3Value) -> Vec3Value {
        Vec3Value { x: self.x.plus(rhs.x), y: self.y.plus(rhs.y), z: self.z.plus(rhs.z) }
    }

    /// The difference, component by component.
    pub open spec fn minus(self, rhs: Vec3Value) -> Vec3Value {
        Vec3Value { x: self.x.minus(rhs.x), y: self.y.minus(rhs.y), z: self.z.minus(rhs.z) }
    }

    /// The product, component by component.
    pub open spec fn times(self, rhs: Vec3Value) -> Vec3Value {
        Vec3Value { x: self.x.times(rhs.x), y: self.y.times(rhs.y), z: self.z.times(rhs.z) }
    }

    /// Every component times `s`.
    pub open spec fn scaled(self, s: Value) -> Vec3Value {
        self.times(Vec3Value::splat(s))
    }

    /// `self * a + b`, component by component, the product rounded before
    /// the sum is formed.
    pub open spec fn mul_add(self, a: Vec3Value, b: Vec3Value) -> Vec3Value {
        self.times(a).plus(b)
    }

    /// The inner product, summed from the first component on.
    pub open spec fn dot(self, rhs: Vec3Value) -> Value {
        self.x.times(rhs.x).plus(self.y.times(rhs.y)).plus(self.z.times(rhs.z))
    }

    /// The squared length: the inner product with itself.
    pub open spec fn length_squared(self) -> Value {
        self.dot(self)
    }

    /// Whether the squared length is within `tolerance` of one.
    pub open spec fn is_normalized(self, tolerance: Value) -> bool {
        self.length_squared().minus(one_value()).absolute().at_most(tolerance)
    }
}

/// The encoding of the distance from one within which a squared length
/// counts as one: a millionth.
pub const NORMALIZED_TOLERANCE_BITS: u32 = 0x3586_37bd;

/// A vector of three scalars.
#[derive(Clone, Copy, Debug)]
pub struct Vec3 {
    pub x: Scalar,
    pub y: Scalar,
    pub z: Scalar,
}

impl View for Vec3 {
    type V = Vec3Value;

    open spec fn view(&self) -> Vec3Value {
        Vec3Value { x: self.x@, y: self.y@, z: self.z@ }
    }
}

/// The vector with the given components.
pub fn vec3(x: Scalar, y: Scalar, z: Scalar) -> (r: Vec3)
    ensures
        r == (Vec3 { x, y, z }),
{
    Vec3 { x, y, z }
}

impl Vec3 {
    /// Whether every component is canonical.
    pub open spec fn is_canonical(self) -> bool {
        self.x.is_canonical() && self.y.is_canonical() && self.z.is_canonical()
    }

    /// The vector with the given components.
    pub fn new(x: Scalar, y: Scalar, z: Scalar) -> (r: Vec3)
        ensures
            r == (Vec3 { x, y, z }),
    {
        Vec3 { x, y, z }
    }

    /// The vector of three positive zeros.
    pub fn zero() -> (r: Vec3)
        ensures
            r.x.bits == 0 && r.y.bits == 0 && r.z.bits == 0,
            r@ == Vec3Value::zero(),
    {
        Vec3 { x: Scalar::zero(), y: Scalar::zero(), z: Scalar::zero() }
    }

    /// The unit vector along the first axis.
    pub fn unit_x() -> (r: Vec3)
        ensures
            r.x.bits == ONE_BITS && r.y.bits == 0 && r.z.bits == 0,
            r@ == Vec3Value::unit_x(),
    {
        Vec3 { x: Scalar::one(), y: Scalar::zero(), z: Scalar::zero() }
    }

    /// The unit vector along the second axis.
    pub fn unit_y() -> (r: Vec3)
        ensures
            r.x.bits == 0 && r.y.bits == ONE_BITS && r.z.bits == 0,
            r@ == Vec3Value::unit_y(),
    {
        Vec3 { x: Scalar::zero(), y: Scalar::one(), z: Scalar::zero() }
    }

    /// The unit vector along the third axis.
    pub fn unit_z() -> (r: Vec3)
        ensures
            r.x.bits == 0 && r.y.bits == 0 && r.z.bits == ONE_BITS,
            r@ == Vec3Value::unit_z(),
    {
        Vec3 { x: Scalar::zero(), y: Scalar::zero(), z: Scalar::one() }
    }

    /// The vector whose three components are all `s`.
    pub fn splat(s: Scalar) -> (r: Vec3)
        ensures
            r == (Vec3 { x: s, y: s, z: s }),
    {
        Vec3 { x: s, y: s, z: s }
    }

    /// The first component.
    pub fn x(self) -> (r: Scalar)
        ensures
            r == self.x,
    {
        self.x
    }

    /// The second component.
    pub fn y(self) -> (r: Scalar)
        ensures
            r == self.y,
    {
        self.y
    }

    /// The third component.
    pub fn z(self) -> (r: Scalar)
        ensures
            r == self.z,
    {
        self.z
    }

    /// The first component in all three places.
    pub fn dup_x(self) -> (r: Vec3)
        ensures
            r == (Vec3 { x: self.x, y: self.x, z: self.x }),
    {
        Vec3 { x: self.x, y: self.x, z: self.x }
    }

    /// The second component in all three places.
    pub fn dup_y(self) -> (r: Vec3)
        ensures
            r == (Vec3 { x: self.y, y: self.y, z: self.y }),
    {
        Vec3 { x: self.y, y: self.y, z: self.y }
    }

    /// The third component in all three places.
    pub fn dup_z(self) -> (r: Vec3)
        ensures
            r == (Vec3 { x: self.z, y: self.z, z: self.z }),
    {
        Vec3 { x: self.z, y: self.z, z: self.z }
    }

    /// The three components in order.
    pub fn to_tuple(self) -> (r: (Scalar, Scalar, Scalar))
        ensures
            r == (self.x, self.y, self.z),
    {
        (self.x, self.y, self.z)
    }

    /// The three components in order, as an array.
    pub fn to_array(self) -> (r: [Scalar; 3])
        ensures
            r@ == seq![self.x, self.y, self.z],
    {
        [self.x, self.y, self.z]
    }

    /// The vector whose components are the three entries of `a` in order.
    pub fn from_array(a: [Scalar; 3]) -> (r: Vec3)
        ensures
            r == (Vec3 { x: a@[0], y: a@[1], z: a@[2] }),
    {
        Vec3 { x: a[0], y: a[1], z: a[2] }
    }

    /// `self * a + b`, component by component.  The product is rounded
    /// before the sum is formed, as a separate multiplication and addition
    /// would.
    pub fn mul_add(self, a: Vec3, b: Vec3) -> (r: Vec3)
        ensures
            r == AddSpec::add_spec(MulSpec::mul_spec(self, a), b),
            r@ == self@.mul_add(a@, b@),
            r.is_canonical(),
    {
        self * a + b
    }

    /// The inner product, summed from the first component on.
    pub fn dot(self, rhs: Vec3) -> (r: Scalar)
        ensures
            r@ == self@.dot(rhs@),
            r.is_canonical(),
    {
        self.x * rhs.x + self.y * rhs.y + self.z * rhs.z
    }
}

impl Add for Vec3 {
    type Output = Vec3;

    /// The sum, component by component.
    fn add(self, rhs: Vec3) -> (r: Vec3)
        ensures
            r@ == self@.plus(rhs@),
            r.is_canonical(),
    {
        Vec3 { x: self.x + rhs.x, y: self.y + rhs.y, z: self.z + rhs.z }
    }
}

impl vstd::std_specs::ops::AddSpecImpl for Vec3 {
    open spec fn obeys_add_spec() -> bool {
        true
    }

    open spec fn add_req(self, rhs: Vec3) -> bool {
        true
    }

    open spec fn add_spec(self, rhs: Vec3) -> Vec3 {
        Vec3 {
            x: AddSpec::add_spec(self.x, rhs.x),
            y: AddSpec::add_spec(self.y, rhs.y),
            z: AddSpec::add_spec(self.z, rhs.z),
        }
    }
}

impl Sub for Vec3 {
    type Output = Vec3;

    /// The difference, component by component.
    fn sub(self, rhs: Vec3) -> (r: Vec3)
        ensures
            r@ == self@.minus(rhs@),
            r.is_canonical(),
    {
        Vec3 { x: self.x - rhs.x, y: self.y - rhs.y, z: self.z - rhs.z }
    }
}

impl vstd::std_specs::ops::SubSpecImpl for Vec3 {
    open spec fn obeys_sub_spec() -> bool {
        true
    }

    open spec fn sub_req(self, rhs: Vec3) -> bool {
        true
    }

    open spec fn sub_spec(self, rhs: Vec3) -> Vec3 {
        Vec3 {
            x: SubSpec::sub_spec(self.x, rhs.x),
            y: SubSpec::sub_spec(self.y, rhs.y),
            z: SubSpec::sub_spec(self.z, rhs.z),
        }
    }
}

impl Mul for Vec3 {
    type Output = Vec3;

    /// The product, component by component.
    fn mul(self, rhs: Vec3) -> (r: Vec3)
        ensures
            r@ == self@.times(rhs@),
            r.is_canonical(),
    {
        Vec3 { x: self.x * rhs.x, y: self.y * rhs.y, z: self.z * rhs.z }
    }
}

impl vstd::std_specs::ops::MulSpecImpl for Vec3 {
    open spec fn obeys_mul_spec() -> bool {
        true
    }

    open spec fn mul_req(self, rhs: Vec3) -> bool {
        true
    }

    open spec fn mul_spec(self, rhs: Vec3) -> Vec3 {
        Vec3 {
            x: MulSpec::mul_spec(self.x, rhs.x),
            y: MulSpec::mul_spec(self.y, rhs.y),
            z: MulSpec::mul_spec(self.z, rhs.z),
        }
    }
}

impl Mul<Scalar> for Vec3 {
    type Output = Vec3;

    /// Every component times `rhs`.
    fn mul(self, rhs: Scalar) -> (r: Vec3)
        ensures
            r@ == self@.scaled(rhs@),
            r.is_canonical(),
    {
        Vec3 { x: self.x * rhs, y: self.y * rhs, z: self.z * rhs }
    }
}

impl vstd::std_specs::ops::MulSpecImpl<Scalar> for Vec3 {
    open spec fn obeys_mul_spec() -> bool {
        true
    }

    open spec fn mul_req(self, rhs: Scalar) -> bool {
        true
    }

    open spec fn mul_spec(self, rhs: Scalar) -> Vec3 {
        Vec3 {
            x: MulSpec::mul_spec(self.x, rhs),
            y: MulSpec::mul_spec(self.y, rhs),
            z: MulSpec::mul_spec(self.z, rhs),
        }
    }
}

impl Vec3 {
    /// The squared length: the inner product with itself.
    pub fn length_squared(self) -> (r: Scalar)
        ensures
            r@ == self@.length_squared(),
            r.is_canonical(),
    {
        self.dot(self)
    }

    /// Whether the squared length is within a millionth of one.
    pub fn is_normalized(self) -> (r: bool)
        ensures
            r == self@.is_normalized(decode(NORMALIZED_TOLERANCE_BITS)),
    {
        let tolerance = Scalar::from_bits(NORMALIZED_TOLERANCE_BITS);
        (self.length_squared() - Scalar::one()).abs().le(tolerance)
    }
}

impl PartialEq for Vec3 {
    /// Numeric equality of all three components.
    fn eq(&self, other: &Vec3) -> (r: bool) {
        self.x == other.x && self.y == other.y && self.z == other.z
    }
}

impl PartialEqSpecImpl for Vec3 {
    open spec fn obeys_eq_spec() -> bool {
        true
    }

    open spec fn eq_spec(&self, other: &Vec3) -> bool {
        self@.same_numbers(other@)
    }
}

} // verus!
