//! The error conditions the library reports.

use vstd::prelude::*;

verus! {

/// Why a library operation failed.
#[derive(Debug, Clone, Copy, PartialEq, Eq, Structural)]
pub enum FitError {
    /// A distribution's support interval was empty or inverted (`a >= b`).
    InvalidSupport,
    /// A gradient or update step of the optimizer left the representable
    /// range, the fixed-point counterpart of a non-finite value.
    OptimizerFailure,
}

impl FitError {
    /// A short description, in place of a `Display` implementation.
    pub fn describe(&self) -> (r: &'static str)
    {
        match self {
            FitError::InvalidSupport => "empty or inverted support interval",
            FitError::OptimizerFailure => "optimizer step left the representable range",
        }
    }
}

} // verus!
