use dockdockgo::session::{PullSessionTracker, PullSession};
use dockdockgo::tunnel::{
    should_intercept, tunnel_step, TunnelAction, TunnelEvent, TunnelState,
};

#[test]
fn each_client_gets_its_own_session() {
    let mut tracker = PullSessionTracker::new();
    let a = tracker.resolve("10.0.0.1", "library/nginx", Some("latest"));
    let b = tracker.resolve("10.0.0.2", "library/nginx", None);
    assert_eq!(a.client_id, "10.0.0.1");
    assert_eq!(b.client_id, "10.0.0.2");
    assert_eq!(a.repo, "library/nginx");
    assert_eq!(b.repo, "library/nginx");
    assert_eq!(a.tag.as_deref(), Some("latest"));
    assert_eq!(b.tag, None);
}

#[test]
fn a_session_presented_from_the_wrong_address_is_rejected() {
    let mut tracker = PullSessionTracker::new();
    let a = tracker.resolve("10.0.0.1", "library/nginx", Some("latest"));
    assert!(PullSessionTracker::session_matches(&a, "10.0.0.1", "library/nginx"));
    assert!(!PullSessionTracker::session_matches(&a, "10.0.0.2", "library/nginx"));
    assert!(!PullSessionTracker::session_matches(&a, "10.0.0.1", "library/alpine"));
}

#[test]
fn the_session_survives_across_requests() {
    let mut tracker = PullSessionTracker::new();
    let first = tracker.resolve("10.0.0.1", "library/alpine", Some("latest"));
    let second = tracker.resolve("10.0.0.1", "library/alpine", None);
    assert_eq!(first.session_id, second.session_id);
    assert_eq!(second.tag.as_deref(), Some("latest"));
}

#[test]
fn a_digest_request_never_overwrites_the_tag() {
    let mut tracker = PullSessionTracker::new();
    let first = tracker.resolve("10.0.0.1", "library/alpine", Some("latest"));
    assert_eq!(first.tag.as_deref(), Some("latest"));
    let second = tracker.resolve("10.0.0.1", "library/alpine", None);
    assert_eq!(second.tag.as_deref(), Some("latest"));
    let third = tracker.resolve("10.0.0.1", "library/alpine", Some("edge"));
    assert_eq!(third.tag.as_deref(), Some("edge"));
}

#[test]
fn sessions_are_per_repository() {
    let mut tracker = PullSessionTracker::new();
    let alpine = tracker.resolve("10.0.0.1", "library/alpine", Some("latest"));
    let nginx = tracker.resolve("10.0.0.1", "library/nginx", None);
    assert_eq!(alpine.tag.as_deref(), Some("latest"));
    assert_eq!(nginx.tag, None);
    let sessions: Vec<PullSession> = vec![alpine, nginx];
    assert_eq!(sessions[0].repo, "library/alpine");
    assert_eq!(sessions[1].repo, "library/nginx");
}

#[test]
fn interception_walks_the_tls_states() {
    let (s, a) = tunnel_step(
        TunnelState::AwaitingConnect,
        TunnelEvent::ConnectReceived { intercept: true },
    );
    assert_eq!(s, TunnelState::Upgrading { intercept: true });
    assert_eq!(a, TunnelAction::RespondConnectOk);
    let (s, a) = tunnel_step(s, TunnelEvent::UpgradeSucceeded);
    assert_eq!(s, TunnelState::TlsHandshaking);
    assert_eq!(a, TunnelAction::BeginTlsHandshake);
    let (s, a) = tunnel_step(s, TunnelEvent::HandshakeSucceeded);
    assert_eq!(s, TunnelState::Relaying { intercept: true });
    assert_eq!(a, TunnelAction::ServeEmbeddedHttp);
    let (s, a) = tunnel_step(s, TunnelEvent::PeerClosed);
    assert_eq!(s, TunnelState::Closed);
    assert_eq!(a, TunnelAction::Close);
}

#[test]
fn passthrough_skips_the_handshake() {
    let (s, _) = tunnel_step(
        TunnelState::AwaitingConnect,
        TunnelEvent::ConnectReceived { intercept: false },
    );
    let (s, a) = tunnel_step(s, TunnelEvent::UpgradeSucceeded);
    assert_eq!(s, TunnelState::Relaying { intercept: false });
    assert_eq!(a, TunnelAction::OpenPassthrough);
}

#[test]
fn failures_tear_the_connection_down() {
    let (s, a) = tunnel_step(TunnelState::TlsHandshaking, TunnelEvent::HandshakeFailed);
    assert_eq!(s, TunnelState::Closed);
    assert_eq!(a, TunnelAction::Close);
    let (s, a) = tunnel_step(
        TunnelState::Upgrading { intercept: true },
        TunnelEvent::UpgradeFailed,
    );
    assert_eq!(s, TunnelState::Closed);
    assert_eq!(a, TunnelAction::Close);
    let (s, _) = tunnel_step(TunnelState::Closed, TunnelEvent::UpgradeSucceeded);
    assert_eq!(s, TunnelState::Closed);
}

#[test]
fn interception_applies_to_listed_hosts_only() {
    let list = vec!["registry-1.docker.io".to_string(), "ghcr.io".to_string()];
    assert!(should_intercept("registry-1.docker.io:443", &list));
    assert!(should_intercept("registry-1.docker.io", &list));
    assert!(should_intercept("ghcr.io:443", &list));
    assert!(!should_intercept("example.com:443", &list));
    assert!(!should_intercept("registry-1.docker.io.evil.com:443", &list));
}
