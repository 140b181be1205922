//! The errors the workflows see, and the retry policy over them: connectivity
//! trouble is retried quietly, anything else is escalated first — and either
//! way the owning loop keeps running.

use vstd::prelude::*;

verus! {

/// How a platform call failed: connectivity-class trouble (no network, a
/// request that never got through), or any other failure the platform
/// reported.
#[derive(Debug, Clone, Copy, PartialEq, Eq, Structural)]
pub enum PlatformFailure {
    Connectivity,
    Api,
}

/// Everything that can go wrong inside a workflow or a command acting on it.
#[derive(Debug, Clone, PartialEq, Eq)]
pub enum Error {
    InvalidChannel,
    InvalidUser,
    InvalidEvent(String),
    InvalidParam(String),
    MissingActionRoutine,
    Platform(PlatformFailure),
}

/// What a workflow loop does about a failed iteration before its next retry.
#[derive(Debug, Clone, Copy, PartialEq, Eq, Structural)]
pub enum FailureAction {
    RetryQuietly,
    EscalateThenRetry,
}

impl Error {
    /// The user-facing description of the error.
    pub fn text(&self) -> (r: String)
        ensures
            *self == Error::InvalidChannel ==> r@ == "**Error: Invalid channel**"@,
            *self == Error::InvalidUser ==> r@ == "**Error: Invalid user**"@,
            self matches Error::InvalidEvent(s) ==> r@ == "**Error: Invalid event**\n"@ + s@,
            self matches Error::InvalidParam(s) ==> r@ == "**Error: Invalid parameter**\n"@ + s@,
            *self == Error::MissingActionRoutine ==> r@ == "**Error: Missing action routine**"@,
            *self == Error::Platform(PlatformFailure::Connectivity) ==> r@
                == "**Platform error: no connection**"@,
            *self == Error::Platform(PlatformFailure::Api) ==> r@ == "**Platform error**"@,
    {
        match self {
            Error::InvalidChannel => String::from_str("**Error: Invalid channel**"),
            Error::InvalidUser => String::from_str("**Error: Invalid user**"),
            Error::InvalidEvent(s) => {
                let mut out = String::from_str("**Error: Invalid event**\n");
                out.append(s.as_str());
                out
            },
            Error::InvalidParam(s) => {
                let mut out = String::from_str("**Error: Invalid parameter**\n");
                out.append(s.as_str());
                out
            },
            Error::MissingActionRoutine => String::from_str("**Error: Missing action routine**"),
            Error::Platform(PlatformFailure::Connectivity) => String::from_str(
                "**Platform error: no connection**",
            ),
            Error::Platform(PlatformFailure::Api) => String::from_str("**Platform error**"),
        }
    }
}

/// Connectivity-class errors are the ones retried without escalation.
pub open spec fn is_transient(e: Error) -> bool {
    e matches Error::Platform(PlatformFailure::Connectivity)
}

/// The retry policy: a transient error is logged and retried quietly; every
/// other error is escalated to the notification sink first. No error stops
/// the loop.
pub fn failure_action(e: &Error) -> (r: FailureAction)
    ensures
        r == (if is_transient(*e) {
            FailureAction::RetryQuietly
        } else {
            FailureAction::EscalateThenRetry
        }),
{
    match e {
        Error::Platform(PlatformFailure::Connectivity) => FailureAction::RetryQuietly,
        _ => FailureAction::EscalateThenRetry,
    }
}

} // verus!
