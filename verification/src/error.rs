//! The failures that the library reports.

use vstd::prelude::*;

verus! {

/// The ways in which building, driving or training a network can fail.
///
/// Every failure is reported as a value; no operation of the library aborts.
#[derive(Clone, Copy, Debug, PartialEq, Eq, Structural)]
pub enum EsnError {
    /// A parameter is outside the values the operation accepts: a reservoir
    /// without units or without inputs, a reservoir too large to be
    /// addressed, or a ridge coefficient that is not at least zero.
    Configuration,
    /// A vector or a batch of vectors does not have the length that the
    /// receiving component was built for.
    DimensionMismatch,
    /// The regularised Gram matrix of a training run has no inverse.
    SingularMatrix,
}

impl EsnError {
    /// A short description of the failure, for messages.
    pub fn message(&self) -> (r: &'static str)
        ensures
            *self == EsnError::Configuration ==> r@ == "invalid configuration"@,
            *self == EsnError::DimensionMismatch ==> r@ == "dimension mismatch"@,
            *self == EsnError::SingularMatrix ==> r@ == "singular matrix"@,
    {
        match self {
            EsnError::Configuration => "invalid configuration",
            EsnError::DimensionMismatch => "dimension mismatch",
            EsnError::SingularMatrix => "singular matrix",
        }
    }
}

} // verus!
