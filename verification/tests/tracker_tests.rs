use dockdockgo::tracker::ImageCompletionTracker;

const MANIFEST: &[u8] = b"{\"schemaVersion\": 2, \"layers\": [\
    {\"digest\": \"sha256:aaa\"},\
    {\"digest\": \"sha256:bbb\"}\
]}";

#[test]
fn completion_is_signalled_only_after_the_last_declared_blob() {
    let mut tracker = ImageCompletionTracker::new();
    tracker.observe_manifest("library/alpine", "latest", MANIFEST);
    assert!(!tracker.observe_blob("library/alpine", "latest", "sha256:aaa"));
    assert!(tracker.observe_blob("library/alpine", "latest", "sha256:bbb"));
}

#[test]
fn redundant_blob_observation_changes_nothing() {
    let mut tracker = ImageCompletionTracker::new();
    tracker.observe_manifest("library/alpine", "latest", MANIFEST);
    assert!(!tracker.observe_blob("library/alpine", "latest", "sha256:aaa"));
    assert!(!tracker.observe_blob("library/alpine", "latest", "sha256:aaa"));
    assert!(tracker.observe_blob("library/alpine", "latest", "sha256:bbb"));
    assert!(tracker.observe_blob("library/alpine", "latest", "sha256:bbb"));
    assert!(tracker.observe_blob("library/alpine", "latest", "sha256:aaa"));
}

#[test]
fn undeclared_blobs_do_not_complete_a_pull() {
    let mut tracker = ImageCompletionTracker::new();
    tracker.observe_manifest("library/alpine", "latest", MANIFEST);
    assert!(!tracker.observe_blob("library/alpine", "latest", "sha256:zzz"));
    assert!(!tracker.observe_blob("library/alpine", "latest", "sha256:aaa"));
    assert!(tracker.observe_blob("library/alpine", "latest", "sha256:bbb"));
}

#[test]
fn blob_without_a_manifest_is_a_no_op() {
    let mut tracker = ImageCompletionTracker::new();
    assert!(!tracker.observe_blob("library/alpine", "latest", "sha256:aaa"));
    assert!(!tracker.observe_blob("library/alpine", "latest", "sha256:aaa"));
}

#[test]
fn images_are_tracked_independently() {
    let mut tracker = ImageCompletionTracker::new();
    tracker.observe_manifest("library/alpine", "latest", MANIFEST);
    tracker.observe_manifest("library/nginx", "1.25", b"{\"layers\": [{\"digest\": \"sha256:n\"}]}");
    assert!(!tracker.observe_blob("library/alpine", "latest", "sha256:aaa"));
    assert!(tracker.observe_blob("library/nginx", "1.25", "sha256:n"));
    assert!(tracker.observe_blob("library/alpine", "latest", "sha256:bbb"));
}

#[test]
fn same_repo_different_tags_are_distinct_images() {
    let mut tracker = ImageCompletionTracker::new();
    tracker.observe_manifest("library/alpine", "latest", MANIFEST);
    tracker.observe_manifest("library/alpine", "edge", b"{\"layers\": [{\"digest\": \"sha256:e\"}]}");
    assert!(!tracker.observe_blob("library/alpine", "latest", "sha256:aaa"));
    assert!(tracker.observe_blob("library/alpine", "edge", "sha256:e"));
    assert!(tracker.observe_blob("library/alpine", "latest", "sha256:bbb"));
}

#[test]
fn a_new_manifest_resets_the_image_state() {
    let mut tracker = ImageCompletionTracker::new();
    tracker.observe_manifest("library/alpine", "latest", MANIFEST);
    assert!(!tracker.observe_blob("library/alpine", "latest", "sha256:aaa"));
    tracker.observe_manifest("library/alpine", "latest", MANIFEST);
    assert!(!tracker.observe_blob("library/alpine", "latest", "sha256:bbb"));
    assert!(tracker.observe_blob("library/alpine", "latest", "sha256:aaa"));
}

#[test]
fn an_unparsable_manifest_changes_nothing() {
    let mut tracker = ImageCompletionTracker::new();
    tracker.observe_manifest("library/alpine", "latest", MANIFEST);
    tracker.observe_manifest("library/alpine", "latest", b"garbage {");
    assert!(!tracker.observe_blob("library/alpine", "latest", "sha256:aaa"));
    assert!(tracker.observe_blob("library/alpine", "latest", "sha256:bbb"));
}

#[test]
fn a_manifest_without_layers_is_complete_at_once() {
    let mut tracker = ImageCompletionTracker::new();
    tracker.observe_manifest("library/empty", "latest", b"{\"schemaVersion\": 2}");
    assert!(tracker.observe_blob("library/empty", "latest", "sha256:any"));
}
