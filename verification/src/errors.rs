//! Error taxonomy of the interception engine.
//!
//! Every failure the engine can surface is one of these variants; each maps
//! to the HTTP status code the proxy answers with. None of them is fatal to
//! the process: a failed request leaves other connections untouched.

use vstd::prelude::*;

verus! {

/// A per-request failure of the interception engine.
#[derive(Clone, Copy, Debug, PartialEq, Eq, Structural)]
pub enum ProxyError {
    /// TLS handshake or certificate issuance failed; the connection closes.
    Tls,
    /// The upstream registry could not be reached.
    UpstreamUnavailable,
    /// Session or repository mismatch, or a malformed registry path.
    ProtocolViolation,
    /// The policy decision point refused the artifact.
    PolicyDenied,
    /// A stored artifact failed its digest or size check; treated as a miss.
    StorageCorruption,
    /// A manifest list offers no entry for the supported platform.
    ArchitectureMismatch,
}

/// The HTTP status code a response reporting this error carries.
pub open spec fn spec_status_code(e: ProxyError) -> u16 {
    match e {
        ProxyError::Tls => 502,
        ProxyError::UpstreamUnavailable => 502,
        ProxyError::ProtocolViolation => 403,
        ProxyError::PolicyDenied => 403,
        ProxyError::StorageCorruption => 404,
        ProxyError::ArchitectureMismatch => 404,
    }
}

impl ProxyError {
    /// The HTTP status code the proxy answers with for this error.
    pub fn status_code(&self) -> (r: u16)
        ensures
            r == spec_status_code(*self),
    {
        match self {
            ProxyError::Tls => 502,
            ProxyError::UpstreamUnavailable => 502,
            ProxyError::ProtocolViolation => 403,
            ProxyError::PolicyDenied => 403,
            ProxyError::StorageCorruption => 404,
            ProxyError::ArchitectureMismatch => 404,
        }
    }
}

} // verus!
