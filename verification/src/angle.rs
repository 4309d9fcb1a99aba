//! Angles, held as the sines and cosines that rotations are built from.
use crate::scalar::{Scalar, Value};
use vstd::prelude::*;

verus! {

/// The four values that an angle stands for.
pub struct AngleValue {
    pub sin: Value,
    pub cos: Value,
    pub half_sin: Value,
    pub half_cos: Value,
}

/// An angle.
///
/// Sine and cosine are not computed here.  An angle carries the sine and
/// cosine of itself, from which rotation matrices are built, and those of
/// its half, from which quaternions are built; whoever makes an angle
/// evaluates the four and hands them over.
#[derive(Clone, Copy, Debug)]
pub struct Angle {
    pub sin: Scalar,
    pub cos: Scalar,
    pub half_sin: Scalar,
    pub half_cos: Scalar,
}

impl View for Angle {
    type V = AngleValue;

    open spec fn view(&self) -> AngleValue {
        AngleValue {
            sin: self.sin@,
            cos: self.cos@,
            half_sin: self.half_sin@,
            half_cos: self.half_cos@,
        }
    }
}

impl Angle {
    /// The angle with the given sine and cosine, and the given sine and
    /// cosine of its half.
    pub fn new(sin: Scalar, cos: Scalar, half_sin: Scalar, half_cos: Scalar) -> (r: Angle)
        ensures
            r == (Angle { sin, cos, half_sin, half_cos }),
    {
        Angle { sin, cos, half_sin, half_cos }
    }

    /// The zero angle: sines zero, cosines one.
    pub fn zero() -> (r: Angle)
        ensures
            r == (Angle {
                sin: Scalar { bits: 0 },
                cos: Scalar { bits: crate::scalar::ONE_BITS },
                half_sin: Scalar { bits: 0 },
                half_cos: Scalar { bits: crate::scalar::ONE_BITS },
            }),
    {
        Angle {
            sin: Scalar::zero(),
            cos: Scalar::one(),
            half_sin: Scalar::zero(),
            half_cos: Scalar::one(),
        }
    }

    /// The sine and the cosine of the angle.
    pub fn sin_cos(self) -> (r: (Scalar, Scalar))
        ensures
            r == (self.sin, self.cos),
    {
        (self.sin, self.cos)
    }

    /// The sine and the cosine of half the angle.
    pub fn half_sin_cos(self) -> (r: (Scalar, Scalar))
        ensures
            r == (self.half_sin, self.half_cos),
    {
        (self.half_sin, self.half_cos)
    }
}

} // verus!
