//! Three-dimensional linear algebra on IEEE 754 single-precision values.
//!
//! A scalar is held as its 32-bit encoding, and every operation on it is
//! integer code whose result is proved against the value that the encoding
//! stands for: a sign and a whole number of steps of two to the power -149.
//! Sums, differences, products and quotients are the exact results, rounded
//! once to nearest with ties to even.  Vectors, quaternions and 3x3
//! matrices are built on that scalar, and what they compute is stated as
//! the same formulas on values.
//!
//! - `scalar`: the scalar and the value of an encoding
//! - `rounding`: rounding to nearest, and the code that carries it out
//! - `arith`: `+`, `-`, `*`, `/` and negation of scalars
//! - `order`: equality and order of scalars
//! - `algebra`: what one and zero do in products and sums
//! - `vec3`, `quat`, `angle`, `mat3`: the composite types
//! - `ops`, `convert`: operators on matrices, and matrices as arrays
//! - `approx_eq`: approximate equality in three tiers
//! - `laws`: what vectors and matrices obey
pub mod scalar;
pub mod rounding;
pub mod arith;
pub mod order;
pub mod algebra;
pub mod vec3;
pub mod angle;
pub mod quat;
pub mod mat3;
pub mod approx_eq;
pub mod laws;
pub mod ops;
pub mod convert;
