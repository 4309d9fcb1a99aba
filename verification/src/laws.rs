//! Laws of vectors and matrices, proved from the definitions of their
//! operations.
use crate::algebra::{
    lemma_one_representable, lemma_results_representable, lemma_round_own_magnitude,
    lemma_scalar_representable, lemma_sum_with_zeros, lemma_times_one, lemma_times_one_any,
    lemma_times_zero, lemma_zero_representable,
};
use crate::mat3::{quat_axes, transformed, Mat3, Mat3Value};
use crate::quat::QuatValue;
use crate::scalar::{one_value, representable, zero_value};
use crate::vec3::{Vec3, Vec3Value};
use vstd::arithmetic::power2::lemma_pow2_pos;
use vstd::prelude::*;

verus! {

/// Whether every component of a vector has an encoding.
pub open spec fn vector_representable(v: Vec3Value) -> bool {
    representable(v.x) && representable(v.y) && representable(v.z)
}

/// Whether every entry of a matrix has an encoding.
pub open spec fn matrix_representable(m: Mat3Value) -> bool {
    vector_representable(m.x_axis) && vector_representable(m.y_axis) && vector_representable(
        m.z_axis,
    )
}

/// The values of a vector have encodings.
pub proof fn lemma_vector_representable(v: Vec3)
    ensures
        vector_representable(v@),
{
    lemma_scalar_representable(v.x);
    lemma_scalar_representable(v.y);
    lemma_scalar_representable(v.z);
}

/// The values of a matrix have encodings.
pub proof fn lemma_matrix_representable(m: Mat3)
    ensures
        matrix_representable(m@),
{
    lemma_vector_representable(m.x_axis);
    lemma_vector_representable(m.y_axis);
    lemma_vector_representable(m.z_axis);
}

/// A vector of finite values with encodings, carried through the identity
/// matrix, comes out as the same numbers.
pub proof fn lemma_transformed_by_identity(v: Vec3Value)
    requires
        v.is_finite(),
        vector_representable(v),
    ensures
        transformed(v, Mat3Value::identity()).same_numbers(v),
{
    let zero = zero_value();
    let one = one_value();
    lemma_times_one(v.x);
    lemma_times_one(v.y);
    lemma_times_one(v.z);
    lemma_times_zero(zero, v.x);
    lemma_times_zero(zero, v.y);
    lemma_times_zero(zero, v.z);
    lemma_sum_with_zeros(v.x.times(one), v.y.times(zero), v.z.times(zero), v.x, 1);
    lemma_sum_with_zeros(v.x.times(zero), v.y.times(one), v.z.times(zero), v.y, 2);
    lemma_sum_with_zeros(v.x.times(zero), v.y.times(zero), v.z.times(one), v.z, 3);
}

/// A unit vector, carried through a matrix of finite values with encodings,
/// picks the matching column: the same numbers come out.  `place` says
/// which unit vector, counted from one.
pub proof fn lemma_unit_transformed(place: int, m: Mat3Value)
    requires
        1 <= place <= 3,
        m.is_finite(),
        matrix_representable(m),
    ensures
        place == 1 ==> transformed(Vec3Value::unit_x(), m).same_numbers(m.x_axis),
        place == 2 ==> transformed(Vec3Value::unit_y(), m).same_numbers(m.y_axis),
        place == 3 ==> transformed(Vec3Value::unit_z(), m).same_numbers(m.z_axis),
{
    let zero = zero_value();
    let one = one_value();
    let v = if place == 1 {
        Vec3Value::unit_x()
    } else if place == 2 {
        Vec3Value::unit_y()
    } else {
        Vec3Value::unit_z()
    };
    let picked = if place == 1 {
        m.x_axis
    } else if place == 2 {
        m.y_axis
    } else {
        m.z_axis
    };
    lemma_times_one(picked.x);
    lemma_times_one(picked.y);
    lemma_times_one(picked.z);
    lemma_times_zero(zero, m.x_axis.x);
    lemma_times_zero(zero, m.x_axis.y);
    lemma_times_zero(zero, m.x_axis.z);
    lemma_times_zero(zero, m.y_axis.x);
    lemma_times_zero(zero, m.y_axis.y);
    lemma_times_zero(zero, m.y_axis.z);
    lemma_times_zero(zero, m.z_axis.x);
    lemma_times_zero(zero, m.z_axis.y);
    lemma_times_zero(zero, m.z_axis.z);
    lemma_sum_with_zeros(
        v.x.times(m.x_axis.x),
        v.y.times(m.y_axis.x),
        v.z.times(m.z_axis.x),
        picked.x,
        place,
    );
    lemma_sum_with_zeros(
        v.x.times(m.x_axis.y),
        v.y.times(m.y_axis.y),
        v.z.times(m.z_axis.y),
        picked.y,
        place,
    );
    lemma_sum_with_zeros(
        v.x.times(m.x_axis.z),
        v.y.times(m.y_axis.z),
        v.z.times(m.z_axis.z),
        picked.z,
        place,
    );
}

/// The identity matrix is neutral for the matrix product on either side:
/// for every matrix `m` whose entries are all finite, `identity * m` and
/// `m * identity` are, entry by entry, the same numbers as `m`.
pub proof fn lemma_identity_neutral(m: Mat3)
    requires
        m@.is_finite(),
    ensures
        Mat3Value::identity().times(m@).same_numbers(m@),
        m@.times(Mat3Value::identity()).same_numbers(m@),
{
    lemma_matrix_representable(m);
    lemma_unit_transformed(1, m@);
    lemma_unit_transformed(2, m@);
    lemma_unit_transformed(3, m@);
    lemma_transformed_by_identity(m@.x_axis);
    lemma_transformed_by_identity(m@.y_axis);
    lemma_transformed_by_identity(m@.z_axis);
}

/// Transposing twice gives the matrix back, encoding for encoding.  The
/// result is therefore numerically equal to the matrix wherever the matrix
/// is numerically equal to itself, which is wherever no entry is a NaN.
pub proof fn lemma_transpose_involution(m: Mat3)
    ensures
        m.transposed().transposed() == m,
        m@.transposed().transposed() == m@,
        m.transposed().transposed()@.same_numbers(m@) == m@.same_numbers(m@),
{
}

/// The determinant of the identity matrix is one.
pub proof fn lemma_determinant_identity()
    ensures
        Mat3Value::identity().determinant() == one_value(),
{
    let zero = zero_value();
    let one = one_value();
    lemma_pow2_pos(149);
    lemma_zero_representable(false);
    lemma_one_representable();
    lemma_times_one(one);
    lemma_times_one(zero);
    lemma_times_zero(zero, zero);
    lemma_times_zero(zero, one);
    assert(zero.times(zero) == zero);
    assert(zero.times(one) == zero);
    assert(one.times(zero) == zero);
    lemma_round_own_magnitude(one);
    assert(zero.minus(zero) == zero);
    assert(one.minus(zero) == one);
    assert(Mat3Value::identity().first_cofactors() == Vec3Value::unit_x());
    assert(one.plus(zero) == one);
}

/// The determinant of the zero matrix is positive zero.
pub proof fn lemma_determinant_zero()
    ensures
        Mat3Value::zero().determinant() == zero_value(),
{
    let zero = zero_value();
    lemma_times_zero(zero, zero);
    assert(zero.times(zero) == zero);
    assert(zero.minus(zero) == zero);
    assert(zero.plus(zero) == zero);
    assert(Mat3Value::zero().first_cofactors() == Vec3Value::zero());
}

/// Scaling a matrix whose entries have encodings by one leaves every entry
/// as it is.
pub proof fn lemma_values_scaled_by_one(m: Mat3Value)
    requires
        matrix_representable(m),
    ensures
        m.scaled(one_value()) == m,
{
    lemma_times_one_any(m.x_axis.x);
    lemma_times_one_any(m.x_axis.y);
    lemma_times_one_any(m.x_axis.z);
    lemma_times_one_any(m.y_axis.x);
    lemma_times_one_any(m.y_axis.y);
    lemma_times_one_any(m.y_axis.z);
    lemma_times_one_any(m.z_axis.x);
    lemma_times_one_any(m.z_axis.y);
    lemma_times_one_any(m.z_axis.z);
}

/// Scaling a matrix by one leaves every entry as it is.
pub proof fn lemma_scaled_by_one(m: Mat3)
    ensures
        m@.scaled(one_value()) == m@,
{
    lemma_matrix_representable(m);
    lemma_values_scaled_by_one(m@);
}

/// A rotation scaled by one along every axis is the rotation itself.
pub proof fn lemma_unit_scale_rotation(rotation: QuatValue)
    ensures
        Mat3Value::from_scale_rotation(Vec3Value::splat(one_value()), rotation) == quat_axes(
            rotation,
        ),
{
    let q = rotation;
    let x2 = q.x.plus(q.x);
    let y2 = q.y.plus(q.y);
    let z2 = q.z.plus(q.z);
    let xx = q.x.times(x2);
    let xy = q.x.times(y2);
    let xz = q.x.times(z2);
    let yy = q.y.times(y2);
    let yz = q.y.times(z2);
    let zz = q.z.times(z2);
    let wx = q.w.times(x2);
    let wy = q.w.times(y2);
    let wz = q.w.times(z2);
    let one = one_value();
    lemma_results_representable(one, yy.plus(zz));
    lemma_results_representable(xy, wz);
    lemma_results_representable(xz, wy);
    lemma_results_representable(one, xx.plus(zz));
    lemma_results_representable(yz, wx);
    lemma_results_representable(one, xx.plus(yy));
    lemma_values_scaled_by_one(quat_axes(rotation));
}

/// A vector carried through a scale matrix is scaled component by
/// component: for finite vectors `v` and `scale`, the result is, component
/// by component, the same number as the product of the two components.
pub proof fn lemma_scale_transforms(v: Vec3Value, scale: Vec3Value)
    requires
        v.is_finite(),
        scale.is_finite(),
    ensures
        transformed(v, Mat3Value::from_scale(scale)).same_numbers(v.times(scale)),
{
    let zero = zero_value();
    lemma_times_zero(zero, v.x);
    lemma_times_zero(zero, v.y);
    lemma_times_zero(zero, v.z);
    lemma_results_representable(v.x, scale.x);
    lemma_results_representable(v.y, scale.y);
    lemma_results_representable(v.z, scale.z);
    lemma_sum_with_zeros(
        v.x.times(scale.x),
        v.y.times(zero),
        v.z.times(zero),
        v.x.times(scale.x),
        1,
    );
    lemma_sum_with_zeros(
        v.x.times(zero),
        v.y.times(scale.y),
        v.z.times(zero),
        v.y.times(scale.y),
        2,
    );
    lemma_sum_with_zeros(
        v.x.times(zero),
        v.y.times(zero),
        v.z.times(scale.z),
        v.z.times(scale.z),
        3,
    );
}

} // verus!
