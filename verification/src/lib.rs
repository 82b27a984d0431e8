//! Interception engine for a TLS-terminating container-image registry proxy.
//!
//! The crate holds the verified core of the proxy: certificate issuance
//! bookkeeping, the tunnel state machine, pull-session and image-completion
//! tracking, the content-addressed cache/quarantine store, the policy
//! decision point, and the per-request orchestration. Network and file
//! I/O live outside the crate and exchange plain values with it.

pub mod assoc;
pub mod cert;
pub mod digest;
pub mod errors;
pub mod json;
pub mod manifest;
pub mod orchestrator;
pub mod policy;
pub mod registry;
pub mod response;
pub mod scan;
pub mod session;
pub mod store;
pub mod strutil;
pub mod tracker;
pub mod tunnel;
pub mod upstream;
