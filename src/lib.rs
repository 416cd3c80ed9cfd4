//! A small library of vector algebra and kinematics formulas.
//!
//! Every formula is generic over the scalar type: the arithmetic on scalars
//! (product, sum, the test for zero, the cosine, ...) is handed in by the
//! caller as closures, and each contract states the result in terms of what
//! those closures promise. For a floating-point type the contracts therefore
//! describe the exact sequence of rounded operations that is performed.

pub mod circular_motion;
pub mod error;
pub mod kinematics;
pub mod vector;
