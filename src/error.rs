use vstd::prelude::*;

verus! {

/// Why a vector operation or a formula refused its arguments.
#[derive(Debug, Clone, Copy, PartialEq, Eq, Structural)]
pub enum PhysicsError {
    /// Two vectors that must have the same length do not.
    LengthMismatch,
    /// A documented precondition (a non-negative time or distance) is violated.
    InvalidArgument,
}

} // verus!
