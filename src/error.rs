//! The ways an operation of this library can refuse its input.

use vstd::prelude::*;

verus! {

/// Why an operation failed.
#[derive(Clone, Copy, Debug, PartialEq, Eq, Structural)]
pub enum VssError {
    /// Two vectors that must have one length do not: a defect of the caller.
    InvariantViolation,
    /// A share identifier is zero or past the number of shares.
    OutOfRange,
    /// A share does not agree with the published commitments.
    VerificationFailure,
}

} // verus!
