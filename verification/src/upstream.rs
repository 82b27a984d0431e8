//! Addressing the real registry.
//!
//! A missed request is forwarded to the upstream registry over the
//! server's own outbound TLS connection, with a bearer token obtained from
//! the registry's token endpoint. The URLs and the header-forwarding rule
//! are computed and verified here; the connections themselves live outside
//! the crate. The token response is read by `manifest::parse_token`.

use vstd::prelude::*;
use crate::strutil::str_eq;

verus! {

/// The upstream registry.
pub open spec fn spec_upstream_base() -> Seq<char> {
    "https://registry-1.docker.io"@
}

/// The URL a request path-and-query forwards to.
pub open spec fn spec_upstream_url(path_and_query: Seq<char>) -> Seq<char> {
    spec_upstream_base() + path_and_query
}

/// Builds the upstream URL for a request.
pub fn upstream_url(path_and_query: &str) -> (r: String)
    ensures
        r@ == spec_upstream_url(path_and_query@),
{
    let mut s = String::from_str("https://registry-1.docker.io");
    s.append(path_and_query);
    s
}

/// The token-endpoint URL granting pull access to a repository.
pub open spec fn spec_token_url(repo: Seq<char>) -> Seq<char> {
    "https://auth.docker.io/token?service=registry.docker.io&scope=repository:"@ + repo + ":pull"@
}

/// Builds the token-endpoint URL for a repository.
pub fn token_url(repo: &str) -> (r: String)
    ensures
        r@ == spec_token_url(repo@),
{
    let mut s = String::from_str(
        "https://auth.docker.io/token?service=registry.docker.io&scope=repository:",
    );
    s.append(repo);
    s.append(":pull");
    s
}

/// Whether a request header is forwarded upstream: connection-scoped
/// headers are not.
pub open spec fn spec_forward_request_header(name: Seq<char>) -> bool {
    name != "host"@ && name != "connection"@ && name != "proxy-connection"@
}

/// Decides whether a request header is forwarded upstream. Header names
/// arrive lower-cased from the HTTP layer.
pub fn forward_request_header(name: &str) -> (r: bool)
    ensures
        r == spec_forward_request_header(name@),
{
    !(str_eq(name, "host") || str_eq(name, "connection") || str_eq(name, "proxy-connection"))
}

} // verus!
