//! Matrices to and from arrays of columns.
use crate::mat3::Mat3;
use crate::scalar::Scalar;
use crate::vec3::Vec3;
use vstd::prelude::*;
use vstd::std_specs::convert::FromSpecImpl;

verus! {

/// The matrix whose columns are the three entries of `m` in order.
pub open spec fn mat3_of_columns(m: [[Scalar; 3]; 3]) -> Mat3 {
    Mat3 {
        x_axis: Vec3 { x: m@[0]@[0], y: m@[0]@[1], z: m@[0]@[2] },
        y_axis: Vec3 { x: m@[1]@[0], y: m@[1]@[1], z: m@[1]@[2] },
        z_axis: Vec3 { x: m@[2]@[0], y: m@[2]@[1], z: m@[2]@[2] },
    }
}

/// The three columns of `m` in order, each as an array.
pub open spec fn columns_of_mat3(m: Mat3) -> [[Scalar; 3]; 3] {
    [
        [m.x_axis.x, m.x_axis.y, m.x_axis.z],
        [m.y_axis.x, m.y_axis.y, m.y_axis.z],
        [m.z_axis.x, m.z_axis.y, m.z_axis.z],
    ]
}

/// The columns of a matrix, made into a matrix again, are that matrix.
pub proof fn lemma_columns_round_trip(m: Mat3)
    ensures
        mat3_of_columns(columns_of_mat3(m)) == m,
{
}

impl From<[[Scalar; 3]; 3]> for Mat3 {
    /// The matrix whose columns are the three entries of `m` in order.
    fn from(m: [[Scalar; 3]; 3]) -> (r: Mat3) {
        Mat3 {
            x_axis: Vec3::from_array(m[0]),
            y_axis: Vec3::from_array(m[1]),
            z_axis: Vec3::from_array(m[2]),
        }
    }
}

impl FromSpecImpl<[[Scalar; 3]; 3]> for Mat3 {
    open spec fn obeys_from_spec() -> bool {
        true
    }

    open spec fn from_spec(m: [[Scalar; 3]; 3]) -> Mat3 {
        mat3_of_columns(m)
    }
}

impl From<&[[Scalar; 3]; 3]> for Mat3 {
    /// The matrix whose columns are the three entries of `m` in order.
    fn from(m: &[[Scalar; 3]; 3]) -> (r: Mat3) {
        Mat3 {
            x_axis: Vec3::from_array(m[0]),
            y_axis: Vec3::from_array(m[1]),
            z_axis: Vec3::from_array(m[2]),
        }
    }
}

impl FromSpecImpl<&[[Scalar; 3]; 3]> for Mat3 {
    open spec fn obeys_from_spec() -> bool {
        true
    }

    open spec fn from_spec(m: &[[Scalar; 3]; 3]) -> Mat3 {
        mat3_of_columns(*m)
    }
}

impl From<Mat3> for [[Scalar; 3]; 3] {
    /// The three columns of `m` in order, each as an array.
    fn from(m: Mat3) -> (r: [[Scalar; 3]; 3]) {
        let r = [m.x_axis.to_array(), m.y_axis.to_array(), m.z_axis.to_array()];
        proof {
            let want = columns_of_mat3(m);
            assert(r[0] =~= want[0]);
            assert(r[1] =~= want[1]);
            assert(r[2] =~= want[2]);
            assert(r =~= want);
        }
        r
    }
}

impl FromSpecImpl<Mat3> for [[Scalar; 3]; 3] {
    open spec fn obeys_from_spec() -> bool {
        true
    }

    open spec fn from_spec(m: Mat3) -> [[Scalar; 3]; 3] {
        columns_of_mat3(m)
    }
}

impl From<&Mat3> for [[Scalar; 3]; 3] {
    /// The three columns of `m` in order, each as an array.
    fn from(m: &Mat3) -> (r: [[Scalar; 3]; 3]) {
        let r = [m.x_axis.to_array(), m.y_axis.to_array(), m.z_axis.to_array()];
        proof {
            let want = columns_of_mat3(*m);
            assert(r[0] =~= want[0]);
            assert(r[1] =~= want[1]);
            assert(r[2] =~= want[2]);
            assert(r =~= want);
        }
        r
    }
}

impl FromSpecImpl<&Mat3> for [[Scalar; 3]; 3] {
    open spec fn obeys_from_spec() -> bool {
        true
    }

    open spec fn from_spec(m: &Mat3) -> [[Scalar; 3]; 3] {
        columns_of_mat3(*m)
    }
}

} // verus!
