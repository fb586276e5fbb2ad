//! Typed errors exposed by the verification core.

use vstd::prelude::*;

verus! {

/// Every failure of the core is one of these kinds, so a caller can tell a
/// stale proof (retryable) from a frozen client or a malformed input.
#[derive(Clone, Copy, Debug, PartialEq, Eq, Structural)]
pub enum Error {
    /// A header failed the finality or continuity checks of its algorithm;
    /// the caller may retry with a fresher header.
    HeaderVerificationFailed,
    /// A membership or non-membership proof does not match the expected
    /// value at the given root; the caller may retry with a fresh proof.
    ProofVerificationFailed,
    /// The client is frozen after misbehaviour; no further operation on it
    /// can succeed.
    ClientFrozen,
    /// A structurally invalid identifier, height or payload; a caller bug,
    /// not retried.
    MalformedInput,
}

impl Error {
    /// A short stable name for the error kind.
    pub fn text(&self) -> (r: &'static str)
        ensures
            r@ == match *self {
                Error::HeaderVerificationFailed => "header verification failed"@,
                Error::ProofVerificationFailed => "proof verification failed"@,
                Error::ClientFrozen => "client is frozen"@,
                Error::MalformedInput => "malformed input"@,
            },
    {
        match self {
            Error::HeaderVerificationFailed => "header verification failed",
            Error::ProofVerificationFailed => "proof verification failed",
            Error::ClientFrozen => "client is frozen",
            Error::MalformedInput => "malformed input",
        }
    }
}

} // verus!
