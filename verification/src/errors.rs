//! The failure kinds of token issuance.

use vstd::prelude::*;

verus! {

/// Everything that can go wrong while issuing a token.
///
/// Every stage of issuance returns exactly one of these kinds; the
/// orchestrator propagates the first failure unchanged and never returns a
/// partial token.
#[derive(Clone, Copy, Debug, PartialEq, Eq, Structural)]
pub enum JWTError {
    /// The credential does not split into exactly one non-empty id and one
    /// non-empty secret around a single `.` separator.
    InvalidCredentialFormat,
    /// The requested lifetime is not strictly positive, or its value in
    /// milliseconds is not representable.
    InvalidDuration,
    /// Arithmetic on the supplied current time overflows the representable
    /// range of millisecond timestamps.
    ClockError,
    /// Encoding a segment failed; unreachable for the fixed record shapes
    /// produced here, but kept as a distinct reportable kind.
    SerializationError,
}

} // verus!
