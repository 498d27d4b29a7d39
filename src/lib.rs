use vstd::prelude::*;

pub mod chi2;
pub mod ks;
pub mod numerical;
pub mod sums;
pub mod ttest;

verus! {

/// Why a computation of this library could not produce a result.
#[derive(Debug, Clone, Copy, PartialEq, Eq, Structural)]
pub enum StatError {
    /// Malformed input: an empty sample, too few categories, a zero count of tests.
    InvalidParameter,
    /// Two inputs that must have the same length do not.
    DimensionMismatch,
    /// A marginal total is zero, so an expected frequency would be zero.
    DegenerateInput,
    /// An iteration ran out of steps before it converged.
    NonConvergence,
    /// A slope too flat to divide by.
    DegenerateDerivative,
}

} // verus!
