//! The error taxonomy of the signaling subsystem.
//!
//! Domain errors are surfaced to callers verbatim with user-facing text;
//! infrastructure failures are mapped to `InternalServerError` before they
//! cross the boundary, so internal representations never leak.

use vstd::prelude::*;

verus! {

/// A caller-visible failure of a signaling operation.
#[derive(Clone, Copy, Debug, PartialEq, Eq, Structural)]
pub enum SignalingError {
    /// Malformed input, e.g. neither a host slug nor an invite was given.
    InvalidRequest,
    /// An invite credential that could not be decoded.
    InvalidInvite,
    /// No live connector for the target host at lookup or dispatch time.
    HostOffline,
    /// Thirty seconds elapsed without the host answering.
    ResponseTimeout,
    /// The caller lacks the identity a protected operation demands.
    Unauthorized,
    /// An infrastructure failure unrelated to the signaling contract.
    InternalServerError,
}

impl SignalingError {
    /// The user-facing text of each error.
    pub open spec fn spec_message(&self) -> Seq<char> {
        match self {
            SignalingError::InvalidRequest => "A hostSlug or invite is required"@,
            SignalingError::InvalidInvite => "Invalid invite code"@,
            SignalingError::HostOffline => (
            "Printer appears to be offline. Make sure it is plugged in and connected to wifi."@),
            SignalingError::ResponseTimeout => "The printer did not respond in time"@,
            SignalingError::Unauthorized => "Unauthorized Access"@,
            SignalingError::InternalServerError => "Internal Server Error"@,
        }
    }

    /// The user-facing text of this error, actionable where the caller can act.
    pub fn message(&self) -> (r: &'static str)
        ensures
            r@ == self.spec_message(),
    {
        match self {
            SignalingError::InvalidRequest => "A hostSlug or invite is required",
            SignalingError::InvalidInvite => "Invalid invite code",
            SignalingError::HostOffline => {
                "Printer appears to be offline. Make sure it is plugged in and connected to wifi."
            },
            SignalingError::ResponseTimeout => "The printer did not respond in time",
            SignalingError::Unauthorized => "Unauthorized Access",
            SignalingError::InternalServerError => "Internal Server Error",
        }
    }
}

/// The error returned by every protected operation that lacks a caller identity.
pub fn unauthorized() -> (r: SignalingError)
    ensures
        r == SignalingError::Unauthorized,
{
    SignalingError::Unauthorized
}

/// Marker for a request rejected before it reached the schema; the transport
/// layer answers it with a bare HTTP 500.
#[derive(Clone, Copy, Debug)]
pub struct InternalServerError;

} // verus!
