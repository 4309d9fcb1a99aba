//! The arithmetic operators between matrices, and between a matrix and a
//! vector or a scalar.
use crate::mat3::{transformed, Mat3};
use crate::scalar::Scalar;
use crate::vec3::Vec3;
use core::ops::{Add, Mul, Sub};
use vstd::prelude::*;

verus! {

impl Add<Mat3> for Mat3 {
    type Output = Mat3;

    /// The sum, entry by entry.
    fn add(self, rhs: Mat3) -> (r: Mat3)
        ensures
            r@ == self@.plus(rhs@),
            r.is_canonical(),
    {
        self.add_mat3(&rhs)
    }
}

impl vstd::std_specs::ops::AddSpecImpl<Mat3> for Mat3 {
    open spec fn obeys_add_spec() -> bool {
        true
    }

    open spec fn add_req(self, rhs: Mat3) -> bool {
        true
    }

    open spec fn add_spec(self, rhs: Mat3) -> Mat3 {
        self.add_exact(rhs)
    }
}

impl Add<&Mat3> for Mat3 {
    type Output = Mat3;

    /// The sum, entry by entry.
    fn add(self, rhs: &Mat3) -> (r: Mat3)
        ensures
            r@ == self@.plus(rhs@),
            r.is_canonical(),
    {
        self.add_mat3(rhs)
    }
}

impl vstd::std_specs::ops::AddSpecImpl<&Mat3> for Mat3 {
    open spec fn obeys_add_spec() -> bool {
        true
    }

    open spec fn add_req(self, rhs: &Mat3) -> bool {
        true
    }

    open spec fn add_spec(self, rhs: &Mat3) -> Mat3 {
        self.add_exact(*rhs)
    }
}

impl Sub<Mat3> for Mat3 {
    type Output = Mat3;

    /// The difference, entry by entry.
    fn sub(self, rhs: Mat3) -> (r: Mat3)
        ensures
            r@ == self@.minus(rhs@),
            r.is_canonical(),
    {
        self.sub_mat3(&rhs)
    }
}

impl vstd::std_specs::ops::SubSpecImpl<Mat3> for Mat3 {
    open spec fn obeys_sub_spec() -> bool {
        true
    }

    open spec fn sub_req(self, rhs: Mat3) -> bool {
        true
    }

    open spec fn sub_spec(self, rhs: Mat3) -> Mat3 {
        self.sub_exact(rhs)
    }
}

impl Sub<&Mat3> for Mat3 {
    type Output = Mat3;

    /// The difference, entry by entry.
    fn sub(self, rhs: &Mat3) -> (r: Mat3)
        ensures
            r@ == self@.minus(rhs@),
            r.is_canonical(),
    {
        self.sub_mat3(rhs)
    }
}

impl vstd::std_specs::ops::SubSpecImpl<&Mat3> for Mat3 {
    open spec fn obeys_sub_spec() -> bool {
        true
    }

    open spec fn sub_req(self, rhs: &Mat3) -> bool {
        true
    }

    open spec fn sub_spec(self, rhs: &Mat3) -> Mat3 {
        self.sub_exact(*rhs)
    }
}

impl Mul<Mat3> for Mat3 {
    type Output = Mat3;

    /// The matrix product.
    fn mul(self, rhs: Mat3) -> (r: Mat3)
        ensures
            r@ == self@.times(rhs@),
            r.is_canonical(),
    {
        self.mul_mat3(&rhs)
    }
}

impl vstd::std_specs::ops::MulSpecImpl<Mat3> for Mat3 {
    open spec fn obeys_mul_spec() -> bool {
        true
    }

    open spec fn mul_req(self, rhs: Mat3) -> bool {
        true
    }

    open spec fn mul_spec(self, rhs: Mat3) -> Mat3 {
        self.mul_exact(rhs)
    }
}

impl Mul<&Mat3> for Mat3 {
    type Output = Mat3;

    /// The matrix product.
    fn mul(self, rhs: &Mat3) -> (r: Mat3)
        ensures
            r@ == self@.times(rhs@),
            r.is_canonical(),
    {
        self.mul_mat3(rhs)
    }
}

impl vstd::std_specs::ops::MulSpecImpl<&Mat3> for Mat3 {
    open spec fn obeys_mul_spec() -> bool {
        true
    }

    open spec fn mul_req(self, rhs: &Mat3) -> bool {
        true
    }

    open spec fn mul_spec(self, rhs: &Mat3) -> Mat3 {
        self.mul_exact(*rhs)
    }
}

impl Mul<Mat3> for Vec3 {
    type Output = Vec3;

    /// The vector carried through the matrix.
    fn mul(self, rhs: Mat3) -> (r: Vec3)
        ensures
            r@ == transformed(self@, rhs@),
            r.is_canonical(),
    {
        self.transform_mat3(&rhs)
    }
}

impl vstd::std_specs::ops::MulSpecImpl<Mat3> for Vec3 {
    open spec fn obeys_mul_spec() -> bool {
        true
    }

    open spec fn mul_req(self, rhs: Mat3) -> bool {
        true
    }

    open spec fn mul_spec(self, rhs: Mat3) -> Vec3 {
        self.transform_exact(rhs)
    }
}

impl Mul<&Mat3> for Vec3 {
    type Output = Vec3;

    /// The vector carried through the matrix.
    fn mul(self, rhs: &Mat3) -> (r: Vec3)
        ensures
            r@ == transformed(self@, rhs@),
            r.is_canonical(),
    {
        self.transform_mat3(rhs)
    }
}

impl vstd::std_specs::ops::MulSpecImpl<&Mat3> for Vec3 {
    open spec fn obeys_mul_spec() -> bool {
        true
    }

    open spec fn mul_req(self, rhs: &Mat3) -> bool {
        true
    }

    open spec fn mul_spec(self, rhs: &Mat3) -> Vec3 {
        self.transform_exact(*rhs)
    }
}

impl Mul<Mat3> for Scalar {
    type Output = Mat3;

    /// Every entry of the matrix times the scalar.
    fn mul(self, rhs: Mat3) -> (r: Mat3)
        ensures
            r@ == rhs@.scaled(self@),
            r.is_canonical(),
    {
        rhs.mul_scalar(self)
    }
}

impl vstd::std_specs::ops::MulSpecImpl<Mat3> for Scalar {
    open spec fn obeys_mul_spec() -> bool {
        true
    }

    open spec fn mul_req(self, rhs: Mat3) -> bool {
        true
    }

    open spec fn mul_spec(self, rhs: Mat3) -> Mat3 {
        rhs.scaled_exact(self)
    }
}

impl Mul<&Mat3> for Scalar {
    type Output = Mat3;

    /// Every entry of the matrix times the scalar.
    fn mul(self, rhs: &Mat3) -> (r: Mat3)
        ensures
            r@ == rhs@.scaled(self@),
            r.is_canonical(),
    {
        rhs.mul_scalar(self)
    }
}

impl vstd::std_specs::ops::MulSpecImpl<&Mat3> for Scalar {
    open spec fn obeys_mul_spec() -> bool {
        true
    }

    open spec fn mul_req(self, rhs: &Mat3) -> bool {
        true
    }

    open spec fn mul_spec(self, rhs: &Mat3) -> Mat3 {
        rhs.scaled_exact(self)
    }
}

impl Mul<Scalar> for Mat3 {
    type Output = Mat3;

    /// Every entry of the matrix times the scalar.
    fn mul(self, rhs: Scalar) -> (r: Mat3)
        ensures
            r@ == self@.scaled(rhs@),
            r.is_canonical(),
    {
        self.mul_scalar(rhs)
    }
}

impl vstd::std_specs::ops::MulSpecImpl<Scalar> for Mat3 {
    open spec fn obeys_mul_spec() -> bool {
        true
    }

    open spec fn mul_req(self, rhs: Scalar) -> bool {
        true
    }

    open spec fn mul_spec(self, rhs: Scalar) -> Mat3 {
        self.scaled_exact(rhs)
    }
}

} // verus!
