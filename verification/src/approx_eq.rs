//! Three graduated notions of "close enough": by absolute difference, by
//! difference relative to the larger magnitude, and by distance between
//! encodings.  Scalars define them; vectors, quaternions and matrices hand
//! them down to their components and require that all agree.
use crate::mat3::Mat3;
use crate::quat::Quat;
use crate::scalar::{magnitude_bits, sign_field, zero_value, Scalar, Value, SIGN_BIT};
use crate::vec3::Vec3;
use vstd::prelude::*;

verus! {

/// The encoding of the default tolerance: the gap between one and the next
/// larger scalar, two to the power -23.
pub const EPSILON_BITS: u32 = 0x3400_0000;

/// The default distance between encodings.
pub const DEFAULT_MAX_ULPS: u32 = 4;

/// The absolute difference of two values.
pub open spec fn distance(a: Value, b: Value) -> Value {
    a.minus(b).absolute()
}

/// The larger of two magnitudes; the first where neither is larger.
pub open spec fn largest_magnitude(a: Value, b: Value) -> Value {
    if a.absolute().less_than(b.absolute()) {
        b.absolute()
    } else {
        a.absolute()
    }
}

/// Whether two values differ by no more than `epsilon`.
pub open spec fn abs_diff_eq_values(a: Value, b: Value, epsilon: Value) -> bool {
    distance(a, b).at_most(epsilon)
}

/// Whether two values are equal, or are both finite and differ by no more
/// than `epsilon` or than `max_relative` times the larger magnitude.
pub open spec fn relative_eq_values(
    a: Value,
    b: Value,
    epsilon: Value,
    max_relative: Value,
) -> bool {
    a.same_number(b) || (!a.is_infinite() && !b.is_infinite() && (distance(a, b).at_most(epsilon)
        || distance(a, b).at_most(largest_magnitude(a, b).times(max_relative))))
}

/// How many encodings lie between two encodings of one sign.
pub open spec fn ulps_between(a: u32, b: u32) -> nat {
    if magnitude_bits(a) <= magnitude_bits(b) {
        (magnitude_bits(b) - magnitude_bits(a)) as nat
    } else {
        (magnitude_bits(a) - magnitude_bits(b)) as nat
    }
}

/// Whether two scalars differ by no more than `epsilon`, or have one sign,
/// are no NaN, and lie no more than `max_ulps` encodings apart.  A
/// `max_ulps` of `2^31` or more admits no distance at all.
pub open spec fn ulps_eq_scalars(a: Scalar, b: Scalar, epsilon: Scalar, max_ulps: u32) -> bool {
    abs_diff_eq_values(a@, b@, epsilon@) || (!a@.is_nan() && !b@.is_nan() && sign_field(a.bits)
        == sign_field(b.bits) && max_ulps < 0x8000_0000 && ulps_between(a.bits, b.bits)
        <= max_ulps)
}

/// Approximate equality in three tiers, each with its tolerance.
pub trait ApproxEq: Sized {
    /// What `abs_diff_eq` decides.
    spec fn abs_diff_eq_spec(&self, other: &Self, epsilon: Scalar) -> bool;

    /// What `relative_eq` decides.
    spec fn relative_eq_spec(&self, other: &Self, epsilon: Scalar, max_relative: Scalar) -> bool;

    /// What `ulps_eq` decides.
    spec fn ulps_eq_spec(&self, other: &Self, epsilon: Scalar, max_ulps: u32) -> bool;

    /// The tolerance to use where none is given: two to the power -23.
    fn default_epsilon() -> (r: Scalar)
        ensures
            r.bits == EPSILON_BITS,
    ;

    /// Equality up to an absolute difference of `epsilon`.
    fn abs_diff_eq(&self, other: &Self, epsilon: Scalar) -> (r: bool)
        ensures
            r == self.abs_diff_eq_spec(other, epsilon),
    ;

    /// The relative tolerance to use where none is given: two to the power
    /// -23.
    fn default_max_relative() -> (r: Scalar)
        ensures
            r.bits == EPSILON_BITS,
    ;

    /// Equality up to an absolute difference of `epsilon`, or up to a
    /// difference of `max_relative` times the larger magnitude.
    fn relative_eq(&self, other: &Self, epsilon: Scalar, max_relative: Scalar) -> (r: bool)
        ensures
            r == self.relative_eq_spec(other, epsilon, max_relative),
    ;

    /// The distance between encodings to use where none is given: four.
    fn default_max_ulps() -> (r: u32)
        ensures
            r == DEFAULT_MAX_ULPS,
    ;

    /// Equality up to an absolute difference of `epsilon`, or up to
    /// `max_ulps` encodings between the two.
    fn ulps_eq(&self, other: &Self, epsilon: Scalar, max_ulps: u32) -> (r: bool)
        ensures
            r == self.ulps_eq_spec(other, epsilon, max_ulps),
    ;
}

impl ApproxEq for Scalar {
    open spec fn abs_diff_eq_spec(&self, other: &Scalar, epsilon: Scalar) -> bool {
        abs_diff_eq_values(self@, other@, epsilon@)
    }

    open spec fn relative_eq_spec(
        &self,
        other: &Scalar,
        epsilon: Scalar,
        max_relative: Scalar,
    ) -> bool {
        relative_eq_values(self@, other@, epsilon@, max_relative@)
    }

    open spec fn ulps_eq_spec(&self, other: &Scalar, epsilon: Scalar, max_ulps: u32) -> bool {
        ulps_eq_scalars(*self, *other, epsilon, max_ulps)
    }

    fn default_epsilon() -> (r: Scalar) {
        Scalar::from_bits(EPSILON_BITS)
    }

    fn abs_diff_eq(&self, other: &Scalar, epsilon: Scalar) -> (r: bool) {
        (*self - *other).abs().le(epsilon)
    }

    fn default_max_relative() -> (r: Scalar) {
        Scalar::from_bits(EPSILON_BITS)
    }

    fn relative_eq(&self, other: &Scalar, epsilon: Scalar, max_relative: Scalar) -> (r: bool) {
        if *self == *other {
            return true;
        }
        if self.is_infinite() || other.is_infinite() {
            return false;
        }
        let abs_diff = (*self - *other).abs();
        if abs_diff.le(epsilon) {
            return true;
        }
        let abs_self = self.abs();
        let abs_other = other.abs();
        let largest = if abs_other.gt(abs_self) {
            abs_other
        } else {
            abs_self
        };
        abs_diff.le(largest * max_relative)
    }

    fn default_max_ulps() -> (r: u32) {
        DEFAULT_MAX_ULPS
    }

    fn ulps_eq(&self, other: &Scalar, epsilon: Scalar, max_ulps: u32) -> (r: bool) {
        if self.abs_diff_eq(other, epsilon) {
            return true;
        }
        if self.is_nan() || other.is_nan() {
            return false;
        }
        if self.is_sign_negative() != other.is_sign_negative() {
            return false;
        }
        if max_ulps >= SIGN_BIT {
            return false;
        }
        let left = self.to_bits() % SIGN_BIT;
        let right = other.to_bits() % SIGN_BIT;
        let between = if left <= right {
            right - left
        } else {
            left - right
        };
        between <= max_ulps
    }
}

/// Whether two lists of scalars have one length and are equal up to an
/// absolute difference of `epsilon`, place by place.
pub open spec fn abs_diff_eq_seqs(a: Seq<Scalar>, b: Seq<Scalar>, epsilon: Scalar) -> bool {
    a.len() == b.len() && forall|i: int|
        0 <= i < a.len() ==> #[trigger] a[i].abs_diff_eq_spec(&b[i], epsilon)
}

/// Whether two lists of scalars have one length and are relatively equal,
/// place by place.
pub open spec fn relative_eq_seqs(
    a: Seq<Scalar>,
    b: Seq<Scalar>,
    epsilon: Scalar,
    max_relative: Scalar,
) -> bool {
    a.len() == b.len() && forall|i: int|
        0 <= i < a.len() ==> #[trigger] a[i].relative_eq_spec(&b[i], epsilon, max_relative)
}

/// Whether two lists of scalars have one length and are equal by distance
/// between encodings, place by place.
pub open spec fn ulps_eq_seqs(
    a: Seq<Scalar>,
    b: Seq<Scalar>,
    epsilon: Scalar,
    max_ulps: u32,
) -> bool {
    a.len() == b.len() && forall|i: int|
        0 <= i < a.len() ==> #[trigger] a[i].ulps_eq_spec(&b[i], epsilon, max_ulps)
}

/// Equality of two lists of components up to an absolute difference of
/// `epsilon`: what any type that can lay out its components in order gets
/// from the scalars.
pub fn abs_diff_eq_slices(a: &[Scalar], b: &[Scalar], epsilon: Scalar) -> (r: bool)
    ensures
        r == abs_diff_eq_seqs(a@, b@, epsilon),
{
    if a.len() != b.len() {
        return false;
    }
    let mut i: usize = 0;
    while i < a.len()
        invariant
            i <= a.len(),
            a.len() == b.len(),
            forall|j: int| 0 <= j < i ==> #[trigger] a@[j].abs_diff_eq_spec(&b@[j], epsilon),
        decreases a.len() - i,
    {
        if !a[i].abs_diff_eq(&b[i], epsilon) {
            return false;
        }
        i += 1;
    }
    true
}

/// Relative equality of two lists of components.
pub fn relative_eq_slices(
    a: &[Scalar],
    b: &[Scalar],
    epsilon: Scalar,
    max_relative: Scalar,
) -> (r: bool)
    ensures
        r == relative_eq_seqs(a@, b@, epsilon, max_relative),
{
    if a.len() != b.len() {
        return false;
    }
    let mut i: usize = 0;
    while i < a.len()
        invariant
            i <= a.len(),
            a.len() == b.len(),
            forall|j: int|
                0 <= j < i ==> #[trigger] a@[j].relative_eq_spec(&b@[j], epsilon, max_relative),
        decreases a.len() - i,
    {
        if !a[i].relative_eq(&b[i], epsilon, max_relative) {
            return false;
        }
        i += 1;
    }
    true
}

/// Equality of two lists of components by distance between encodings.
pub fn ulps_eq_slices(a: &[Scalar], b: &[Scalar], epsilon: Scalar, max_ulps: u32) -> (r: bool)
    ensures
        r == ulps_eq_seqs(a@, b@, epsilon, max_ulps),
{
    if a.len() != b.len() {
        return false;
    }
    let mut i: usize = 0;
    while i < a.len()
        invariant
            i <= a.len(),
            a.len() == b.len(),
            forall|j: int| 0 <= j < i ==> #[trigger] a@[j].ulps_eq_spec(&b@[j], epsilon, max_ulps),
        decreases a.len() - i,
    {
        if !a[i].ulps_eq(&b[i], epsilon, max_ulps) {
            return false;
        }
        i += 1;
    }
    true
}

impl ApproxEq for Vec3 {
    open spec fn abs_diff_eq_spec(&self, other: &Vec3, epsilon: Scalar) -> bool {
        self.x.abs_diff_eq_spec(&other.x, epsilon) && self.y.abs_diff_eq_spec(&other.y, epsilon)
            && self.z.abs_diff_eq_spec(&other.z, epsilon)
    }

    open spec fn relative_eq_spec(
        &self,
        other: &Vec3,
        epsilon: Scalar,
        max_relative: Scalar,
    ) -> bool {
        self.x.relative_eq_spec(&other.x, epsilon, max_relative) && self.y.relative_eq_spec(
            &other.y,
            epsilon,
            max_relative,
        ) && self.z.relative_eq_spec(&other.z, epsilon, max_relative)
    }

    open spec fn ulps_eq_spec(&self, other: &Vec3, epsilon: Scalar, max_ulps: u32) -> bool {
        self.x.ulps_eq_spec(&other.x, epsilon, max_ulps) && self.y.ulps_eq_spec(
            &other.y,
            epsilon,
            max_ulps,
        ) && self.z.ulps_eq_spec(&other.z, epsilon, max_ulps)
    }

    fn default_epsilon() -> (r: Scalar) {
        Scalar::default_epsilon()
    }

    fn abs_diff_eq(&self, other: &Vec3, epsilon: Scalar) -> (r: bool) {
        self.x.abs_diff_eq(&other.x, epsilon) && self.y.abs_diff_eq(&other.y, epsilon)
            && self.z.abs_diff_eq(&other.z, epsilon)
    }

    fn default_max_relative() -> (r: Scalar) {
        Scalar::default_max_relative()
    }

    fn relative_eq(&self, other: &Vec3, epsilon: Scalar, max_relative: Scalar) -> (r: bool) {
        self.x.relative_eq(&other.x, epsilon, max_relative) && self.y.relative_eq(
            &other.y,
            epsilon,
            max_relative,
        ) && self.z.relative_eq(&other.z, epsilon, max_relative)
    }

    fn default_max_ulps() -> (r: u32) {
        Scalar::default_max_ulps()
    }

    fn ulps_eq(&self, other: &Vec3, epsilon: Scalar, max_ulps: u32) -> (r: bool) {
        self.x.ulps_eq(&other.x, epsilon, max_ulps) && self.y.ulps_eq(&other.y, epsilon, max_ulps)
            && self.z.ulps_eq(&other.z, epsilon, max_ulps)
    }
}

impl ApproxEq for Quat {
    open spec fn abs_diff_eq_spec(&self, other: &Quat, epsilon: Scalar) -> bool {
        self.x.abs_diff_eq_spec(&other.x, epsilon) && self.y.abs_diff_eq_spec(&other.y, epsilon)
            && self.z.abs_diff_eq_spec(&other.z, epsilon) && self.w.abs_diff_eq_spec(
            &other.w,
            epsilon,
        )
    }

    open spec fn relative_eq_spec(
        &self,
        other: &Quat,
        epsilon: Scalar,
        max_relative: Scalar,
    ) -> bool {
        self.x.relative_eq_spec(&other.x, epsilon, max_relative) && self.y.relative_eq_spec(
            &other.y,
            epsilon,
            max_relative,
        ) && self.z.relative_eq_spec(&other.z, epsilon, max_relative) && self.w.relative_eq_spec(
            &other.w,
            epsilon,
            max_relative,
        )
    }

    open spec fn ulps_eq_spec(&self, other: &Quat, epsilon: Scalar, max_ulps: u32) -> bool {
        self.x.ulps_eq_spec(&other.x, epsilon, max_ulps) && self.y.ulps_eq_spec(
            &other.y,
            epsilon,
            max_ulps,
        ) && self.z.ulps_eq_spec(&other.z, epsilon, max_ulps) && self.w.ulps_eq_spec(
            &other.w,
            epsilon,
            max_ulps,
        )
    }

    fn default_epsilon() -> (r: Scalar) {
        Scalar::default_epsilon()
    }

    fn abs_diff_eq(&self, other: &Quat, epsilon: Scalar) -> (r: bool) {
        self.x.abs_diff_eq(&other.x, epsilon) && self.y.abs_diff_eq(&other.y, epsilon)
            && self.z.abs_diff_eq(&other.z, epsilon) && self.w.abs_diff_eq(&other.w, epsilon)
    }

    fn default_max_relative() -> (r: Scalar) {
        Scalar::default_max_relative()
    }

    fn relative_eq(&self, other: &Quat, epsilon: Scalar, max_relative: Scalar) -> (r: bool) {
        self.x.relative_eq(&other.x, epsilon, max_relative) && self.y.relative_eq(
            &other.y,
            epsilon,
            max_relative,
        ) && self.z.relative_eq(&other.z, epsilon, max_relative) && self.w.relative_eq(
            &other.w,
            epsilon,
            max_relative,
        )
    }

    fn default_max_ulps() -> (r: u32) {
        Scalar::default_max_ulps()
    }

    fn ulps_eq(&self, other: &Quat, epsilon: Scalar, max_ulps: u32) -> (r: bool) {
        self.x.ulps_eq(&other.x, epsilon, max_ulps) && self.y.ulps_eq(&other.y, epsilon, max_ulps)
            && self.z.ulps_eq(&other.z, epsilon, max_ulps) && self.w.ulps_eq(
            &other.w,
            epsilon,
            max_ulps,
        )
    }
}

impl ApproxEq for Mat3 {
    open spec fn abs_diff_eq_spec(&self, other: &Mat3, epsilon: Scalar) -> bool {
        self.x_axis.abs_diff_eq_spec(&other.x_axis, epsilon) && self.y_axis.abs_diff_eq_spec(
            &other.y_axis,
            epsilon,
        ) && self.z_axis.abs_diff_eq_spec(&other.z_axis, epsilon)
    }

    open spec fn relative_eq_spec(
        &self,
        other: &Mat3,
        epsilon: Scalar,
        max_relative: Scalar,
    ) -> bool {
        self.x_axis.relative_eq_spec(&other.x_axis, epsilon, max_relative)
            && self.y_axis.relative_eq_spec(&other.y_axis, epsilon, max_relative)
            && self.z_axis.relative_eq_spec(&other.z_axis, epsilon, max_relative)
    }

    open spec fn ulps_eq_spec(&self, other: &Mat3, epsilon: Scalar, max_ulps: u32) -> bool {
        self.x_axis.ulps_eq_spec(&other.x_axis, epsilon, max_ulps) && self.y_axis.ulps_eq_spec(
            &other.y_axis,
            epsilon,
            max_ulps,
        ) && self.z_axis.ulps_eq_spec(&other.z_axis, epsilon, max_ulps)
    }

    fn default_epsilon() -> (r: Scalar) {
        Scalar::default_epsilon()
    }

    fn abs_diff_eq(&self, other: &Mat3, epsilon: Scalar) -> (r: bool) {
        self.x_axis.abs_diff_eq(&other.x_axis, epsilon) && self.y_axis.abs_diff_eq(
            &other.y_axis,
            epsilon,
        ) && self.z_axis.abs_diff_eq(&other.z_axis, epsilon)
    }

    fn default_max_relative() -> (r: Scalar) {
        Scalar::default_max_relative()
    }

    fn relative_eq(&self, other: &Mat3, epsilon: Scalar, max_relative: Scalar) -> (r: bool) {
        self.x_axis.relative_eq(&other.x_axis, epsilon, max_relative) && self.y_axis.relative_eq(
            &other.y_axis,
            epsilon,
            max_relative,
        ) && self.z_axis.relative_eq(&other.z_axis, epsilon, max_relative)
    }

    fn default_max_ulps() -> (r: u32) {
        Scalar::default_max_ulps()
    }

    fn ulps_eq(&self, other: &Mat3, epsilon: Scalar, max_ulps: u32) -> (r: bool) {
        self.x_axis.ulps_eq(&other.x_axis, epsilon, max_ulps) && self.y_axis.ulps_eq(
            &other.y_axis,
            epsilon,
            max_ulps,
        ) && self.z_axis.ulps_eq(&other.z_axis, epsilon, max_ulps)
    }
}

/// A finite value differs from itself by positive zero.
pub proof fn lemma_distance_to_self(a: Value)
    requires
        a.is_finite(),
    ensures
        distance(a, a) == zero_value(),
{
}

/// A finite scalar is approximately equal to itself in each of the three
/// tiers, whatever the relative tolerance and the distance between
/// encodings, as long as the absolute tolerance is a number not below zero.
pub proof fn lemma_scalar_approx_reflexive(
    a: Scalar,
    epsilon: Scalar,
    max_relative: Scalar,
    max_ulps: u32,
)
    requires
        a@.is_finite(),
        zero_value().at_most(epsilon@),
    ensures
        a.abs_diff_eq_spec(&a, epsilon),
        a.relative_eq_spec(&a, epsilon, max_relative),
        a.ulps_eq_spec(&a, epsilon, max_ulps),
{
    lemma_distance_to_self(a@);
}

/// A scalar that is no NaN is relatively equal to itself whatever the
/// tolerances, and equal to itself by distance between encodings whenever
/// `max_ulps` is below `2^31`.
pub proof fn lemma_scalar_relative_reflexive(
    a: Scalar,
    epsilon: Scalar,
    max_relative: Scalar,
    max_ulps: u32,
)
    requires
        !a@.is_nan(),
    ensures
        a.relative_eq_spec(&a, epsilon, max_relative),
        max_ulps < 0x8000_0000 ==> a.ulps_eq_spec(&a, epsilon, max_ulps),
{
}

/// A vector of finite components is approximately equal to itself in each
/// of the three tiers, as long as the absolute tolerance is a number not
/// below zero.
pub proof fn lemma_vec3_approx_reflexive(
    v: Vec3,
    epsilon: Scalar,
    max_relative: Scalar,
    max_ulps: u32,
)
    requires
        v@.is_finite(),
        zero_value().at_most(epsilon@),
    ensures
        v.abs_diff_eq_spec(&v, epsilon),
        v.relative_eq_spec(&v, epsilon, max_relative),
        v.ulps_eq_spec(&v, epsilon, max_ulps),
{
    lemma_scalar_approx_reflexive(v.x, epsilon, max_relative, max_ulps);
    lemma_scalar_approx_reflexive(v.y, epsilon, max_relative, max_ulps);
    lemma_scalar_approx_reflexive(v.z, epsilon, max_relative, max_ulps);
}

/// A vector compares as the list of its components does, in each of the
/// three tiers.
pub proof fn lemma_vec3_compares_as_components(
    v: Vec3,
    w: Vec3,
    epsilon: Scalar,
    max_relative: Scalar,
    max_ulps: u32,
)
    ensures
        v.abs_diff_eq_spec(&w, epsilon) == abs_diff_eq_seqs(
            seq![v.x, v.y, v.z],
            seq![w.x, w.y, w.z],
            epsilon,
        ),
        v.relative_eq_spec(&w, epsilon, max_relative) == relative_eq_seqs(
            seq![v.x, v.y, v.z],
            seq![w.x, w.y, w.z],
            epsilon,
            max_relative,
        ),
        v.ulps_eq_spec(&w, epsilon, max_ulps) == ulps_eq_seqs(
            seq![v.x, v.y, v.z],
            seq![w.x, w.y, w.z],
            epsilon,
            max_ulps,
        ),
{
    let a = seq![v.x, v.y, v.z];
    let b = seq![w.x, w.y, w.z];
    assert(a.len() == 3 && b.len() == 3);
    assert(a[0] == v.x && a[1] == v.y && a[2] == v.z);
    assert(b[0] == w.x && b[1] == w.y && b[2] == w.z);
    assert(abs_diff_eq_seqs(a, b, epsilon) == (a[0].abs_diff_eq_spec(&b[0], epsilon)
        && a[1].abs_diff_eq_spec(&b[1], epsilon) && a[2].abs_diff_eq_spec(&b[2], epsilon)));
    assert(relative_eq_seqs(a, b, epsilon, max_relative) == (a[0].relative_eq_spec(
        &b[0],
        epsilon,
        max_relative,
    ) && a[1].relative_eq_spec(&b[1], epsilon, max_relative) && a[2].relative_eq_spec(
        &b[2],
        epsilon,
        max_relative,
    )));
    assert(ulps_eq_seqs(a, b, epsilon, max_ulps) == (a[0].ulps_eq_spec(&b[0], epsilon, max_ulps)
        && a[1].ulps_eq_spec(&b[1], epsilon, max_ulps) && a[2].ulps_eq_spec(
        &b[2],
        epsilon,
        max_ulps,
    )));
}

/// A quaternion of finite components is approximately equal to itself in
/// each of the three tiers, as long as the absolute tolerance is a number
/// not below zero.
pub proof fn lemma_quat_approx_reflexive(
    q: Quat,
    epsilon: Scalar,
    max_relative: Scalar,
    max_ulps: u32,
)
    requires
        q@.x.is_finite() && q@.y.is_finite() && q@.z.is_finite() && q@.w.is_finite(),
        zero_value().at_most(epsilon@),
    ensures
        q.abs_diff_eq_spec(&q, epsilon),
        q.relative_eq_spec(&q, epsilon, max_relative),
        q.ulps_eq_spec(&q, epsilon, max_ulps),
{
    lemma_scalar_approx_reflexive(q.x, epsilon, max_relative, max_ulps);
    lemma_scalar_approx_reflexive(q.y, epsilon, max_relative, max_ulps);
    lemma_scalar_approx_reflexive(q.z, epsilon, max_relative, max_ulps);
    lemma_scalar_approx_reflexive(q.w, epsilon, max_relative, max_ulps);
}

/// A matrix of finite entries is approximately equal to itself in each of
/// the three tiers, as long as the absolute tolerance is a number not below
/// zero.
pub proof fn lemma_mat3_approx_reflexive(
    m: Mat3,
    epsilon: Scalar,
    max_relative: Scalar,
    max_ulps: u32,
)
    requires
        m@.is_finite(),
        zero_value().at_most(epsilon@),
    ensures
        m.abs_diff_eq_spec(&m, epsilon),
        m.relative_eq_spec(&m, epsilon, max_relative),
        m.ulps_eq_spec(&m, epsilon, max_ulps),
{
    lemma_vec3_approx_reflexive(m.x_axis, epsilon, max_relative, max_ulps);
    lemma_vec3_approx_reflexive(m.y_axis, epsilon, max_relative, max_ulps);
    lemma_vec3_approx_reflexive(m.z_axis, epsilon, max_relative, max_ulps);
}

} // verus!
