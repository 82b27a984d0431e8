use dockdockgo::orchestrator::{
    HttpMethod, ProxyOrchestrator, RequestOutcome, UpstreamPlan,
};
use dockdockgo::response::ProxyResponse;
use dockdockgo::store::{Area, ArtifactKey, ArtifactKind};
use dockdockgo::upstream::{forward_request_header, token_url, upstream_url};

const MANIFEST: &[u8] = b"{\"schemaVersion\": 2, \"layers\": [\
    {\"digest\": \"sha256:aaa\"},\
    {\"digest\": \"sha256:bbb\"}\
]}";

const ARM_ONLY_LIST: &[u8] = b"{\"manifests\": [\
    {\"digest\": \"sha256:one\", \"platform\": {\"os\": \"linux\", \"architecture\": \"arm64\"}}\
]}";

fn expect_respond(outcome: RequestOutcome) -> ProxyResponse {
    match outcome {
        RequestOutcome::Respond(resp) => resp,
        RequestOutcome::FetchUpstream(_) => panic!("expected an immediate response"),
    }
}

fn expect_fetch(outcome: RequestOutcome) -> UpstreamPlan {
    match outcome {
        RequestOutcome::FetchUpstream(plan) => plan,
        RequestOutcome::Respond(_) => panic!("expected an upstream fetch"),
    }
}

#[test]
fn ping_succeeds_even_with_the_toggle_off() {
    let mut px = ProxyOrchestrator::new();
    let resp = expect_respond(px.handle_request(HttpMethod::Get, "/v2/", "/v2/", "10.0.0.1", false));
    assert_eq!(resp.status, 200);
    assert!(resp.body.is_empty());
}

#[test]
fn toggle_off_denies_everything_but_the_ping() {
    let mut px = ProxyOrchestrator::new();
    let resp = expect_respond(px.handle_request(
        HttpMethod::Get,
        "/v2/library/nginx/manifests/latest",
        "/v2/library/nginx/manifests/latest",
        "10.0.0.1",
        false,
    ));
    assert_eq!(resp.status, 403);
    assert_eq!(
        resp.body,
        b"{\"errors\":[{\"code\":\"FORBIDDEN\",\"message\":\"blocked by policy\"}]}".to_vec()
    );
    let head = expect_respond(px.handle_request(
        HttpMethod::Head,
        "/v2/library/nginx/blobs/sha256:abc",
        "/v2/library/nginx/blobs/sha256:abc",
        "10.0.0.1",
        false,
    ));
    assert_eq!(head.status, 403);
}

#[test]
fn malformed_paths_are_protocol_violations() {
    let mut px = ProxyOrchestrator::new();
    let resp = expect_respond(px.handle_request(
        HttpMethod::Get,
        "/v2/library",
        "/v2/library",
        "10.0.0.1",
        true,
    ));
    assert_eq!(resp.status, 403);
    assert_eq!(resp.body, b"session or path violates the registry protocol".to_vec());

    let resp = expect_respond(px.handle_request(
        HttpMethod::Get,
        "/v2/library/alpine/tags/list",
        "/v2/library/alpine/tags/list",
        "10.0.0.1",
        true,
    ));
    assert_eq!(resp.status, 403);
}

#[test]
fn a_full_pull_signals_completion_exactly_once() {
    let mut px = ProxyOrchestrator::new();
    let client = "10.0.0.1";
    let toggle = true;

    // The client probes the manifest by tag; the tag enters the session.
    let path = "/v2/library/alpine/manifests/latest";
    let plan = expect_fetch(px.handle_request(HttpMethod::Head, path, path, client, toggle));
    assert_eq!(plan.url, format!("https://registry-1.docker.io{path}"));
    assert_eq!(plan.session.tag.as_deref(), Some("latest"));
    let out = px.handle_upstream_response(
        HttpMethod::Head,
        path,
        client,
        &plan.session,
        200,
        vec![],
        vec![],
        toggle,
    );
    assert_eq!(out.response.status, 200);
    assert!(!out.pull_complete);

    // The manifest body declares two layers.
    let plan = expect_fetch(px.handle_request(HttpMethod::Get, path, path, client, toggle));
    let out = px.handle_upstream_response(
        HttpMethod::Get,
        path,
        client,
        &plan.session,
        200,
        vec![("content-type".to_string(), "application/json".to_string())],
        MANIFEST.to_vec(),
        toggle,
    );
    assert_eq!(out.response.status, 200);
    assert_eq!(out.response.body, MANIFEST.to_vec());
    assert_eq!(out.response.headers.len(), 1);
    assert!(!out.pull_complete);

    // The first declared blob does not complete the pull.
    let blob_a = "/v2/library/alpine/blobs/sha256:aaa";
    let plan = expect_fetch(px.handle_request(HttpMethod::Get, blob_a, blob_a, client, toggle));
    assert_eq!(plan.session.tag.as_deref(), Some("latest"));
    let out = px.handle_upstream_response(
        HttpMethod::Get,
        blob_a,
        client,
        &plan.session,
        200,
        vec![],
        b"layer a".to_vec(),
        toggle,
    );
    assert!(!out.pull_complete);
    assert_eq!(out.response.body, b"layer a".to_vec());

    // The second, last declared blob completes it.
    let blob_b = "/v2/library/alpine/blobs/sha256:bbb";
    let plan = expect_fetch(px.handle_request(HttpMethod::Get, blob_b, blob_b, client, toggle));
    let out = px.handle_upstream_response(
        HttpMethod::Get,
        blob_b,
        client,
        &plan.session,
        200,
        vec![],
        b"layer b".to_vec(),
        toggle,
    );
    assert!(out.pull_complete);
    assert_eq!(out.response.status, 200);

    // A redundant re-fetch of a declared blob leaves the tracker state
    // as it stands: the pull stays complete and is still served.
    let plan = expect_fetch(px.handle_request(HttpMethod::Get, blob_a, blob_a, client, toggle));
    let out = px.handle_upstream_response(
        HttpMethod::Get,
        blob_a,
        client,
        &plan.session,
        200,
        vec![],
        b"layer a".to_vec(),
        toggle,
    );
    assert!(out.pull_complete);
    assert_eq!(out.response.status, 200);

    // Every fetched artifact sits in quarantine under the session's tag.
    let key = ArtifactKey {
        repo: "library/alpine".to_string(),
        tag: "latest".to_string(),
        kind: ArtifactKind::Manifest,
        reference: "latest".to_string(),
    };
    assert_eq!(px.store.get(Area::Quarantine, &key).map(|v| v.as_slice()), Some(MANIFEST));
    let key = ArtifactKey {
        repo: "library/alpine".to_string(),
        tag: "latest".to_string(),
        kind: ArtifactKind::Blob,
        reference: "sha256:bbb".to_string(),
    };
    assert_eq!(px.store.get(Area::Quarantine, &key).map(|v| v.as_slice()), Some(&b"layer b"[..]));
    assert!(px.store.get(Area::Cache, &key).is_none());
}

#[test]
fn a_session_from_another_client_or_repository_is_rejected() {
    let mut px = ProxyOrchestrator::new();
    let toggle = true;
    let path = "/v2/library/nginx/manifests/latest";
    let plan_a = expect_fetch(px.handle_request(HttpMethod::Get, path, path, "10.0.0.1", toggle));

    // Client A's session presented from client B's address: rejected, and
    // neither stored nor tracked.
    let out = px.handle_upstream_response(
        HttpMethod::Get,
        path,
        "10.0.0.2",
        &plan_a.session,
        200,
        vec![],
        MANIFEST.to_vec(),
        toggle,
    );
    assert_eq!(out.response.status, 403);
    assert_eq!(out.response.body, b"session or path violates the registry protocol".to_vec());
    assert!(!out.pull_complete);
    let key = ArtifactKey {
        repo: "library/nginx".to_string(),
        tag: "latest".to_string(),
        kind: ArtifactKind::Manifest,
        reference: "latest".to_string(),
    };
    assert!(px.store.get(Area::Quarantine, &key).is_none());

    // The same session presented for another repository: rejected too.
    let other = "/v2/library/alpine/manifests/latest";
    let out = px.handle_upstream_response(
        HttpMethod::Get,
        other,
        "10.0.0.1",
        &plan_a.session,
        200,
        vec![],
        MANIFEST.to_vec(),
        toggle,
    );
    assert_eq!(out.response.status, 403);

    // Presented correctly, the same exchange goes through.
    let out = px.handle_upstream_response(
        HttpMethod::Get,
        path,
        "10.0.0.1",
        &plan_a.session,
        200,
        vec![],
        MANIFEST.to_vec(),
        toggle,
    );
    assert_eq!(out.response.status, 200);
    assert!(px.store.get(Area::Quarantine, &key).is_some());
}

#[test]
fn a_manifest_list_without_the_platform_is_not_found() {
    let mut px = ProxyOrchestrator::new();
    let path = "/v2/library/alpine/manifests/latest";
    let plan = expect_fetch(px.handle_request(HttpMethod::Get, path, path, "10.0.0.1", true));
    let out = px.handle_upstream_response(
        HttpMethod::Get,
        path,
        "10.0.0.1",
        &plan.session,
        200,
        vec![],
        ARM_ONLY_LIST.to_vec(),
        true,
    );
    assert_eq!(out.response.status, 404);
    assert_eq!(out.response.body, b"No matching manifest for linux/amd64".to_vec());
    assert!(!out.pull_complete);
}

#[test]
fn a_cached_artifact_is_served_without_an_upstream_fetch() {
    let mut px = ProxyOrchestrator::new();
    let body = b"{\"schemaVersion\": 2, \"layers\": []}".to_vec();
    let key = ArtifactKey {
        repo: "library/alpine".to_string(),
        tag: "latest".to_string(),
        kind: ArtifactKind::Manifest,
        reference: "latest".to_string(),
    };
    px.store.put_cache(&key, body.clone()).expect("stored");
    let path = "/v2/library/alpine/manifests/latest";
    let resp = expect_respond(px.handle_request(HttpMethod::Get, path, path, "10.0.0.1", true));
    assert_eq!(resp.status, 200);
    assert_eq!(resp.body, body);
}

#[test]
fn only_get_requests_are_served_from_the_cache() {
    let mut px = ProxyOrchestrator::new();
    let body = b"{\"schemaVersion\": 2, \"layers\": []}".to_vec();
    let key = ArtifactKey {
        repo: "library/alpine".to_string(),
        tag: "latest".to_string(),
        kind: ArtifactKind::Manifest,
        reference: "latest".to_string(),
    };
    px.store.put_cache(&key, body).expect("stored");
    let path = "/v2/library/alpine/manifests/latest";
    let plan = expect_fetch(px.handle_request(HttpMethod::Head, path, path, "10.0.0.1", true));
    assert_eq!(plan.url, format!("https://registry-1.docker.io{path}"));
}

#[test]
fn the_ping_is_path_based() {
    // The liveness probe is allowed by path, whatever the method.
    let mut px = ProxyOrchestrator::new();
    let resp = expect_respond(px.handle_request(HttpMethod::Head, "/v2/", "/v2/", "10.0.0.1", false));
    assert_eq!(resp.status, 200);
}

#[test]
fn upstream_addresses_have_the_expected_shape() {
    assert_eq!(
        upstream_url("/v2/library/alpine/manifests/latest"),
        "https://registry-1.docker.io/v2/library/alpine/manifests/latest"
    );
    assert_eq!(
        token_url("library/alpine"),
        "https://auth.docker.io/token?service=registry.docker.io&scope=repository:library/alpine:pull"
    );
    assert!(forward_request_header("accept"));
    assert!(forward_request_header("authorization"));
    assert!(!forward_request_header("host"));
    assert!(!forward_request_header("connection"));
    assert!(!forward_request_header("proxy-connection"));
}
