use dockdockgo::errors::ProxyError;
use dockdockgo::response::error_response;
use dockdockgo::scan::{Action, ScanType};
use dockdockgo::strutil::{contains_sub, dec_string, starts_with_sub};

#[test]
fn every_error_maps_to_its_status_code() {
    assert_eq!(ProxyError::Tls.status_code(), 502);
    assert_eq!(ProxyError::UpstreamUnavailable.status_code(), 502);
    assert_eq!(ProxyError::ProtocolViolation.status_code(), 403);
    assert_eq!(ProxyError::PolicyDenied.status_code(), 403);
    assert_eq!(ProxyError::StorageCorruption.status_code(), 404);
    assert_eq!(ProxyError::ArchitectureMismatch.status_code(), 404);
}

#[test]
fn the_policy_denial_carries_a_structured_body() {
    let resp = error_response(ProxyError::PolicyDenied);
    assert_eq!(resp.status, 403);
    assert_eq!(resp.headers, vec![("Content-Type".to_string(), "application/json".to_string())]);
    let v: serde_json::Value = serde_json::from_slice(&resp.body).expect("registry-parsable body");
    assert_eq!(v["errors"][0]["code"], "FORBIDDEN");
}

#[test]
fn other_errors_answer_plain_text() {
    let resp = error_response(ProxyError::UpstreamUnavailable);
    assert_eq!(resp.status, 502);
    assert_eq!(resp.headers, vec![("Content-Type".to_string(), "text/plain".to_string())]);
    assert_eq!(resp.body, b"upstream registry unreachable".to_vec());
    let resp = error_response(ProxyError::Tls);
    assert_eq!(resp.status, 502);
}

#[test]
fn decimal_rendering_matches_std_formatting() {
    assert_eq!(dec_string(0), "0");
    assert_eq!(dec_string(7), "7");
    assert_eq!(dec_string(1234), "1234");
    assert_eq!(dec_string(usize::MAX), format!("{}", usize::MAX));
}

#[test]
fn substring_search_is_exact() {
    assert!(contains_sub("/v2/library/alpine/manifests/latest", "/manifests/"));
    assert!(!contains_sub("/v2/library/alpine/blobs/sha256:a", "/manifests/"));
    assert!(contains_sub("abc", ""));
    assert!(!contains_sub("ab", "abc"));
    assert!(starts_with_sub("sha256:abc", "sha256:"));
    assert!(!starts_with_sub("latest", "sha256:"));
}

#[test]
fn the_scan_vocabulary_is_complete() {
    let actions = vec![
        Action::RunStaticScan,
        Action::RunDynamicScan,
        Action::RunComplianceScan,
        Action::RunObsolescenceAnalysis,
        Action::ComputeFinalScore,
    ];
    assert_eq!(actions.len(), 5);
    assert_ne!(Action::RunStaticScan, Action::ComputeFinalScore);
    let kinds = vec![ScanType::Static, ScanType::Dynamic, ScanType::Compliance, ScanType::Obsolescence];
    assert_eq!(kinds.len(), 4);
    assert_ne!(ScanType::Static, ScanType::Dynamic);
}
