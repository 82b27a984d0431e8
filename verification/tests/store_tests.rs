use dockdockgo::digest::sha256_hex;
use dockdockgo::errors::ProxyError;
use dockdockgo::store::{
    artifact_path, cache_path, quarantine_path, Area, ArtifactKey, ArtifactKind, ArtifactStore,
};
use sha2::{Digest, Sha256};

fn blob_key(repo: &str, tag: &str, bytes: &[u8]) -> ArtifactKey {
    let hex = format!("{:x}", Sha256::digest(bytes));
    ArtifactKey {
        repo: repo.to_string(),
        tag: tag.to_string(),
        kind: ArtifactKind::Blob,
        reference: format!("sha256:{hex}"),
    }
}

fn header<'a>(resp: &'a dockdockgo::response::ProxyResponse, name: &str) -> Option<&'a str> {
    resp.headers.iter().find(|p| p.0 == name).map(|p| p.1.as_str())
}

#[test]
fn sha256_matches_reference_values() {
    assert_eq!(
        sha256_hex(b"abc"),
        "ba7816bf8f01cfea414140de5dae2223b00361a396177a9cb410ff61f20015ad"
    );
    assert_eq!(
        sha256_hex(b""),
        "e3b0c44298fc1c149afbf4c8996fb92427ae41e4649b934ca495991b7852b855"
    );
}

#[test]
fn cached_blob_reads_back_with_matching_digest() {
    let mut store = ArtifactStore::new();
    let content = b"layer bytes, large enough to matter".to_vec();
    let key = blob_key("library/alpine", "latest", &content);
    store.put_cache(&key, content.clone()).expect("digest matches, so the write succeeds");

    let resp = store.serve_from_cache(&key, false).expect("cache hit");
    assert_eq!(resp.status, 200);
    assert_eq!(resp.body, content);
    let expected_digest = format!("sha256:{:x}", Sha256::digest(&content));
    assert_eq!(header(&resp, "Docker-Content-Digest"), Some(expected_digest.as_str()));
    assert_eq!(header(&resp, "Content-Type"), Some("application/octet-stream"));
    assert_eq!(header(&resp, "Content-Length"), Some(format!("{}", content.len()).as_str()));
}

#[test]
fn blob_with_wrong_digest_is_refused() {
    let mut store = ArtifactStore::new();
    let key = ArtifactKey {
        repo: "library/alpine".to_string(),
        tag: "latest".to_string(),
        kind: ArtifactKind::Blob,
        reference: "sha256:0000000000000000000000000000000000000000000000000000000000000000"
            .to_string(),
    };
    let r = store.put_cache(&key, b"not those bytes at all, certainly".to_vec());
    assert_eq!(r, Err(ProxyError::StorageCorruption));
    assert!(store.serve_from_cache(&key, false).is_none());
}

#[test]
fn truncated_manifest_is_a_miss() {
    let mut store = ArtifactStore::new();
    let key = ArtifactKey {
        repo: "library/alpine".to_string(),
        tag: "latest".to_string(),
        kind: ArtifactKind::Manifest,
        reference: "latest".to_string(),
    };
    store.put_cache(&key, b"tiny".to_vec()).expect("manifests are not digest-checked");
    assert!(store.serve_from_cache(&key, false).is_none());
}

#[test]
fn sound_manifest_is_served_with_recomputed_digest() {
    let mut store = ArtifactStore::new();
    let body = b"{\"schemaVersion\": 2, \"layers\": []}".to_vec();
    let key = ArtifactKey {
        repo: "library/alpine".to_string(),
        tag: "latest".to_string(),
        kind: ArtifactKind::Manifest,
        reference: "latest".to_string(),
    };
    store.put_cache(&key, body.clone()).expect("stored");
    let resp = store.serve_from_cache(&key, false).expect("hit");
    assert_eq!(resp.status, 200);
    assert_eq!(resp.body, body);
    assert_eq!(header(&resp, "Docker-Distribution-API-Version"), Some("registry/2.0"));
    assert_eq!(
        header(&resp, "Content-Type"),
        Some("application/vnd.docker.distribution.manifest.v2+json")
    );
    let expected_digest = format!("sha256:{:x}", Sha256::digest(&body));
    assert_eq!(header(&resp, "Docker-Content-Digest"), Some(expected_digest.as_str()));

    let head = store.serve_from_cache(&key, true).expect("hit");
    assert!(head.body.is_empty());
    assert_eq!(header(&head, "Content-Length"), Some(format!("{}", body.len()).as_str()));
}

#[test]
fn quarantine_holds_unchecked_bytes() {
    let mut store = ArtifactStore::new();
    let key = ArtifactKey {
        repo: "library/nginx".to_string(),
        tag: "1.25".to_string(),
        kind: ArtifactKind::Blob,
        reference: "sha256:feed".to_string(),
    };
    store.put_quarantine(&key, b"unverified".to_vec());
    assert_eq!(store.get(Area::Quarantine, &key).map(|v| v.as_slice()), Some(&b"unverified"[..]));
    assert!(store.get(Area::Cache, &key).is_none());
}

#[test]
fn storage_paths_have_the_expected_shape() {
    let key = ArtifactKey {
        repo: "library/alpine".to_string(),
        tag: "latest".to_string(),
        kind: ArtifactKind::Blob,
        reference: "sha256:abc123".to_string(),
    };
    assert_eq!(artifact_path(Area::Cache, &key), "cache/library/alpine/latest/blobs/sha256/abc123");
    assert_eq!(
        artifact_path(Area::Quarantine, &key),
        "quarantine/library/alpine/latest/blobs/sha256/abc123"
    );
    let manifest = ArtifactKey {
        repo: "library/alpine".to_string(),
        tag: "latest".to_string(),
        kind: ArtifactKind::Manifest,
        reference: "sha256:abc123".to_string(),
    };
    assert_eq!(
        artifact_path(Area::Cache, &manifest),
        "cache/library/alpine/latest/manifests/abc123.json"
    );
    let referrers = ArtifactKey {
        repo: "library/alpine".to_string(),
        tag: "latest".to_string(),
        kind: ArtifactKind::Referrers,
        reference: "sha256:abc123".to_string(),
    };
    assert_eq!(
        artifact_path(Area::Quarantine, &referrers),
        "quarantine/library/alpine/latest/referrers/abc123.json"
    );
}

#[test]
fn referrers_are_served_only_when_plausible() {
    let mut store = ArtifactStore::new();
    let key = ArtifactKey {
        repo: "library/alpine".to_string(),
        tag: "latest".to_string(),
        kind: ArtifactKind::Referrers,
        reference: "sha256:abc".to_string(),
    };
    store.put_cache(&key, b"short".to_vec()).expect("referrers are not digest-checked");
    assert!(store.serve_from_cache(&key, false).is_none());

    let body = b"{\"referrers\": [], \"padding\": 1}".to_vec();
    store.put_cache(&key, body.clone()).expect("stored");
    let resp = store.serve_from_cache(&key, false).expect("hit");
    assert_eq!(resp.status, 200);
    assert_eq!(resp.body, body);
    assert_eq!(header(&resp, "Content-Type"), Some("application/vnd.oci.image.index.v1+json"));
    assert_eq!(header(&resp, "Docker-Content-Digest"), None);
}

#[test]
fn flat_paths_have_the_expected_shape() {
    assert_eq!(cache_path("/v2/library/alpine/manifests/latest"), "cache/v2_library_alpine_manifests_latest");
    assert_eq!(quarantine_path("/v2/library/alpine/blobs/sha256:x"), "quarantine/v2_library_alpine_blobs_sha256:x");
    assert_eq!(cache_path("plain"), "cache/plain");
    assert_eq!(cache_path("///x"), "cache/x");
    assert_eq!(cache_path(""), "cache/");
}
