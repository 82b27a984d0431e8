//! The plain shape of an HTTP response the engine hands back.
//!
//! The engine never touches a socket; it describes each response as a
//! status code, a header list and a body, and the surrounding server sends
//! it. Header values reproduce the registry protocol exactly, digests and
//! lengths included.

use vstd::prelude::*;
use crate::errors::{spec_status_code, ProxyError};

verus! {

/// A response as the engine describes it.
pub struct ProxyResponse {
    pub status: u16,
    pub headers: Vec<(String, String)>,
    pub body: Vec<u8>,
}

/// The mathematical shape of a response.
pub struct RespModel {
    pub status: int,
    pub headers: Seq<(Seq<char>, Seq<char>)>,
    pub body: Seq<u8>,
}

impl ProxyResponse {
    /// The mathematical shape of this response.
    pub open spec fn model(self) -> RespModel {
        RespModel {
            status: self.status as int,
            headers: self.headers@.map_values(|p: (String, String)| (p.0@, p.1@)),
            body: self.body@,
        }
    }
}

/// The empty success answer, as the registry ping gets it.
pub open spec fn spec_ok_empty() -> RespModel {
    RespModel { status: 200, headers: Seq::<(Seq<char>, Seq<char>)>::empty(), body: Seq::<u8>::empty() }
}

/// Builds the empty success answer.
pub fn ok_empty() -> (r: ProxyResponse)
    ensures
        r.model() == spec_ok_empty(),
{
    let r = ProxyResponse { status: 200, headers: Vec::new(), body: Vec::new() };
    proof {
        assert(r.model().headers =~= spec_ok_empty().headers);
    }
    r
}

/// The body text a failure answers with. A policy denial carries a
/// structured error body registry clients can parse.
pub open spec fn spec_error_message(e: ProxyError) -> Seq<char> {
    match e {
        ProxyError::Tls => "tls failure"@,
        ProxyError::UpstreamUnavailable => "upstream registry unreachable"@,
        ProxyError::ProtocolViolation => "session or path violates the registry protocol"@,
        ProxyError::PolicyDenied => "{\"errors\":[{\"code\":\"FORBIDDEN\",\"message\":\"blocked by policy\"}]}"@,
        ProxyError::StorageCorruption => "stored artifact failed its digest check"@,
        ProxyError::ArchitectureMismatch => "No matching manifest for linux/amd64"@,
    }
}

/// The content type of a failure answer.
pub open spec fn spec_error_content_type(e: ProxyError) -> Seq<char> {
    if e is PolicyDenied {
        "application/json"@
    } else {
        "text/plain"@
    }
}

/// The failure answer for an error: its status code, content type and
/// message body.
pub open spec fn spec_error_response(e: ProxyError) -> RespModel {
    RespModel {
        status: spec_status_code(e) as int,
        headers: seq![("Content-Type"@, spec_error_content_type(e))],
        body: vstd::utf8::encode_utf8(spec_error_message(e)),
    }
}

/// Builds the failure answer for an error.
pub fn error_response(e: ProxyError) -> (r: ProxyResponse)
    ensures
        r.model() == spec_error_response(e),
{
    let message: &str = match e {
        ProxyError::Tls => "tls failure",
        ProxyError::UpstreamUnavailable => "upstream registry unreachable",
        ProxyError::ProtocolViolation => "session or path violates the registry protocol",
        ProxyError::PolicyDenied => "{\"errors\":[{\"code\":\"FORBIDDEN\",\"message\":\"blocked by policy\"}]}",
        ProxyError::StorageCorruption => "stored artifact failed its digest check",
        ProxyError::ArchitectureMismatch => "No matching manifest for linux/amd64",
    };
    let content_type: &str = match e {
        ProxyError::PolicyDenied => "application/json",
        _ => "text/plain",
    };
    let mut headers: Vec<(String, String)> = Vec::new();
    headers.push((String::from_str("Content-Type"), content_type.to_owned()));
    let r = ProxyResponse { status: e.status_code(), headers, body: message.as_bytes_vec() };
    proof {
        assert(r.model().headers =~= spec_error_response(e).headers);
    }
    r
}

} // verus!
