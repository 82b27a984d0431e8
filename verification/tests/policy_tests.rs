use dockdockgo::policy::{
    is_allowed, parse_bool_from_str, select_platform, toggle_file_content,
};

#[test]
fn ping_is_always_allowed() {
    assert!(is_allowed("/v2/", b"", false));
    assert!(is_allowed("/v2/", b"", true));
}

#[test]
fn toggle_off_denies_everything_else() {
    assert!(!is_allowed("/v2/library/nginx/manifests/latest", b"{}", false));
    assert!(!is_allowed("/v2/library/nginx/blobs/sha256:abc", b"data", false));
    assert!(!is_allowed("/anything", b"", false));
}

#[test]
fn toggle_on_is_permissive() {
    assert!(is_allowed("/v2/library/nginx/manifests/latest", b"{}", true));
    assert!(is_allowed("/v2/library/nginx/blobs/sha256:abc", b"", true));
    assert!(is_allowed("/v2/library/nginx/manifests/latest", b"", true));
    assert!(is_allowed("/other", b"", true));
}

#[test]
fn parses_persisted_toggle_values() {
    assert!(parse_bool_from_str("1\n"));
    assert!(!parse_bool_from_str("0\n"));
    assert!(!parse_bool_from_str("  \t0"));
    assert!(parse_bool_from_str("x"));
    assert!(parse_bool_from_str(""));
    assert!(parse_bool_from_str(" \t\n"));
}

#[test]
fn renders_persisted_toggle_values() {
    assert_eq!(toggle_file_content(true), "1\n");
    assert_eq!(toggle_file_content(false), "0\n");
}

#[test]
fn toggle_value_round_trips() {
    assert!(parse_bool_from_str(&toggle_file_content(true)));
    assert!(!parse_bool_from_str(&toggle_file_content(false)));
}

const AMD64_LIST: &[u8] = b"{\"manifests\": [\
    {\"digest\": \"sha256:one\", \"platform\": {\"os\": \"linux\", \"architecture\": \"arm64\"}},\
    {\"digest\": \"sha256:two\", \"platform\": {\"os\": \"linux\", \"architecture\": \"amd64\"}}\
]}";

const ARM_ONLY_LIST: &[u8] = b"{\"manifests\": [\
    {\"digest\": \"sha256:one\", \"platform\": {\"os\": \"linux\", \"architecture\": \"arm64\"}},\
    {\"digest\": \"sha256:two\", \"platform\": {\"os\": \"windows\", \"architecture\": \"amd64\"}},\
    {\"digest\": \"sha256:three\"}\
]}";

#[test]
fn selects_matching_platform() {
    assert!(select_platform(AMD64_LIST, "linux", "amd64"));
    assert!(select_platform(ARM_ONLY_LIST, "linux", "arm64"));
}

#[test]
fn reports_missing_platform() {
    assert!(!select_platform(ARM_ONLY_LIST, "linux", "amd64"));
    assert!(!select_platform(b"{\"manifests\": []}", "linux", "amd64"));
    assert!(!select_platform(b"{}", "linux", "amd64"));
    assert!(!select_platform(b"not json", "linux", "amd64"));
}
