//! The tunnel terminator's per-connection state machine.
//!
//! A connection is awaited, upgraded after its CONNECT, TLS-terminated
//! when the target is an intercepted registry host, and then either serves
//! the embedded HTTP session or relays raw bytes to the target. Every
//! failure tears the connection down; nothing is retried. The surrounding
//! server performs the actions; which action follows which event is
//! decided and verified here.

use vstd::prelude::*;
use crate::strutil::{lemma_spec_split_len, seq_views, spec_split, split_char, vec_contains_str};

verus! {

/// Where a connection stands.
#[derive(Clone, Copy, Debug, PartialEq, Eq, Structural)]
pub enum TunnelState {
    /// No CONNECT seen yet.
    AwaitingConnect,
    /// CONNECT answered; waiting for the protocol upgrade.
    Upgrading { intercept: bool },
    /// Performing the TLS server handshake with a forged certificate.
    TlsHandshaking,
    /// Moving bytes: serving the embedded HTTP session when intercepting,
    /// copying raw bytes otherwise.
    Relaying { intercept: bool },
    /// Torn down.
    Closed,
}

/// What happened on the connection.
#[derive(Clone, Copy, Debug, PartialEq, Eq, Structural)]
pub enum TunnelEvent {
    /// A CONNECT arrived; `intercept` is the interception decision for its
    /// target authority.
    ConnectReceived { intercept: bool },
    UpgradeSucceeded,
    UpgradeFailed,
    HandshakeSucceeded,
    HandshakeFailed,
    /// Either side closed, or the upstream connection failed.
    PeerClosed,
}

/// What the server must do next.
#[derive(Clone, Copy, Debug, PartialEq, Eq, Structural)]
pub enum TunnelAction {
    /// Answer the CONNECT with success and start the upgrade.
    RespondConnectOk,
    /// Issue a certificate for the target and run the TLS server
    /// handshake over the hijacked stream.
    BeginTlsHandshake,
    /// Open a plain connection to the target and copy bytes both ways.
    OpenPassthrough,
    /// Parse the decrypted stream as HTTP and dispatch each request.
    ServeEmbeddedHttp,
    /// Tear the connection down.
    Close,
}

/// The next state and action for an event: the machine walks
/// AwaitingConnect, Upgrading, TlsHandshaking (interception only),
/// Relaying, Closed, and any unexpected or failing event closes the
/// connection.
pub open spec fn spec_tunnel_step(state: TunnelState, event: TunnelEvent) -> (
    TunnelState,
    TunnelAction,
) {
    match (state, event) {
        (
            TunnelState::AwaitingConnect,
            TunnelEvent::ConnectReceived { intercept },
        ) => (TunnelState::Upgrading { intercept }, TunnelAction::RespondConnectOk),
        (TunnelState::Upgrading { intercept: true }, TunnelEvent::UpgradeSucceeded) => (
            TunnelState::TlsHandshaking,
            TunnelAction::BeginTlsHandshake,
        ),
        (TunnelState::Upgrading { intercept: false }, TunnelEvent::UpgradeSucceeded) => (
            TunnelState::Relaying { intercept: false },
            TunnelAction::OpenPassthrough,
        ),
        (TunnelState::TlsHandshaking, TunnelEvent::HandshakeSucceeded) => (
            TunnelState::Relaying { intercept: true },
            TunnelAction::ServeEmbeddedHttp,
        ),
        _ => (TunnelState::Closed, TunnelAction::Close),
    }
}

/// Advances the connection state machine by one event.
pub fn tunnel_step(state: TunnelState, event: TunnelEvent) -> (r: (TunnelState, TunnelAction))
    ensures
        r == spec_tunnel_step(state, event),
{
    match (state, event) {
        (
            TunnelState::AwaitingConnect,
            TunnelEvent::ConnectReceived { intercept },
        ) => (TunnelState::Upgrading { intercept }, TunnelAction::RespondConnectOk),
        (TunnelState::Upgrading { intercept: true }, TunnelEvent::UpgradeSucceeded) => (
            TunnelState::TlsHandshaking,
            TunnelAction::BeginTlsHandshake,
        ),
        (TunnelState::Upgrading { intercept: false }, TunnelEvent::UpgradeSucceeded) => (
            TunnelState::Relaying { intercept: false },
            TunnelAction::OpenPassthrough,
        ),
        (TunnelState::TlsHandshaking, TunnelEvent::HandshakeSucceeded) => (
            TunnelState::Relaying { intercept: true },
            TunnelAction::ServeEmbeddedHttp,
        ),
        _ => (TunnelState::Closed, TunnelAction::Close),
    }
}

/// A closed connection stays closed: no event leaves the Closed state.
pub proof fn lemma_closed_is_final(event: TunnelEvent)
    ensures
        spec_tunnel_step(TunnelState::Closed, event).0 == TunnelState::Closed,
{
}

/// The host named by a CONNECT authority: the authority up to any port
/// suffix.
pub open spec fn spec_base_host(authority: Seq<char>) -> Seq<char> {
    spec_split(authority, ':')[0]
}

/// Whether traffic to a CONNECT authority is intercepted: its host, with
/// any port suffix stripped, stands on the interception list.
pub open spec fn spec_should_intercept(authority: Seq<char>, list: Seq<Seq<char>>) -> bool {
    list.contains(spec_base_host(authority))
}

/// Decides interception for a CONNECT target against the list of
/// registry hosts to intercept.
pub fn should_intercept(authority: &str, intercept_list: &Vec<String>) -> (r: bool)
    ensures
        r == spec_should_intercept(authority@, seq_views(intercept_list@)),
{
    let parts = split_char(authority, ':');
    proof {
        lemma_spec_split_len(authority@, ':');
        assert(seq_views(parts@)[0] == parts@[0]@);
    }
    vec_contains_str(intercept_list, parts[0].as_str())
}

} // verus!
