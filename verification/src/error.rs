//! What can go wrong in an analysis.

use vstd::prelude::*;

verus! {

/// Why an operation of this library refused its input or could not finish.
#[derive(Clone, Copy, Debug, PartialEq, Eq, Structural)]
pub enum AnalysisError {
    /// The solver gave up before the end time; what it had computed is kept.
    IntegrationFailure,
    /// The caller broke a stated condition on the input, such as two
    /// trajectories of unequal length or a tolerance that is not positive.
    PreconditionViolation,
    /// A function was asked for a value outside its domain.
    NumericDomainError,
    /// The tag names no system that this library knows.
    UnrecognizedSystem,
}

} // verus!
