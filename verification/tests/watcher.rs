use mdmirror::watcher::{
    extract_filename, filter_relevant_paths, should_filter_event, EventKind, WatchTarget,
};
use mdmirror::codec::FileChange;

#[test]
fn access_and_metadata_notifications_are_dropped() {
    assert!(should_filter_event(&EventKind::Access));
    assert!(should_filter_event(&EventKind::ModifyMetadata));
    assert!(should_filter_event(&EventKind::Other));
    assert!(!should_filter_event(&EventKind::ModifyContent));
    assert!(!should_filter_event(&EventKind::Create));
    assert!(!should_filter_event(&EventKind::Remove));
}

#[test]
fn filename_is_the_suffix_after_the_last_separator() {
    assert_eq!(extract_filename("README.md"), "README.md");
    assert_eq!(extract_filename("/home/user/notes/README.md"), "README.md");
    assert_eq!(extract_filename("docs/guide.md"), "guide.md");
    assert_eq!(extract_filename(""), "");
    // trailing separators are ignored, as the platform's path handling does
    assert_eq!(extract_filename("docs/"), "docs");
    assert_eq!(extract_filename("a/b//"), "b");
    assert_eq!(extract_filename("/"), "");
}

#[test]
fn file_state_records_content_and_stamp() {
    let state = mdmirror::FileState::new("hello".to_string(), 1234);
    assert_eq!(state.content, "hello");
    assert_eq!(state.last_modified_ms, 1234);
    let fresh = mdmirror::FileState::default();
    assert_eq!(fresh.content, "");
    assert_eq!(fresh.last_modified_ms, 0);
}

#[test]
fn only_paths_matching_the_target_filename_are_kept() {
    let paths = vec![
        "/watch/README.md".to_string(),
        "/watch/other.md".to_string(),
        "/watch/sub/README.md".to_string(),
        "/watch/README.md.swp".to_string(),
    ];
    let relevant = filter_relevant_paths(&paths, "README.md");
    assert_eq!(
        relevant,
        vec!["/watch/README.md".to_string(), "/watch/sub/README.md".to_string()]
    );
}

#[test]
fn two_writes_within_the_debounce_window_produce_one_event() {
    let mut target = WatchTarget::new("README.md".to_string());
    let mut produced = 0;
    // first write at t = 1000 ms
    if target.should_process_path("/watch/README.md", 1000) {
        if target.detect_file_changes("first").is_some() {
            produced += 1;
        }
    }
    // second write 10 ms later, inside the 25 ms window: dropped
    if target.should_process_path("/watch/README.md", 1010) {
        if target.detect_file_changes("second").is_some() {
            produced += 1;
        }
    }
    assert_eq!(produced, 1);
}

#[test]
fn a_write_after_the_window_is_accepted_again() {
    let mut target = WatchTarget::new("README.md".to_string());
    assert!(target.should_process_path("/watch/README.md", 1000));
    assert!(!target.should_process_path("/watch/README.md", 1024));
    assert!(target.should_process_path("/watch/README.md", 1049));
    // distinct paths debounce independently
    assert!(target.should_process_path("/elsewhere/README.md", 1050));
}

#[test]
fn unchanged_content_emits_nothing() {
    let mut target = WatchTarget::new("README.md".to_string());
    assert!(target.detect_file_changes("hello").is_some());
    assert!(target.detect_file_changes("hello").is_none());
    assert!(target.detect_file_changes("hello world").is_some());
}

#[test]
fn small_snapshot_becomes_one_full_content_event() {
    let mut target = WatchTarget::new("README.md".to_string());
    let events = target.detect_file_changes("# Title\n").expect("changed content");
    assert_eq!(events.len(), 1);
    match &events[0] {
        FileChange::FullContent { file_id, content } => {
            assert_eq!(file_id, "README.md");
            assert_eq!(content, "# Title\n");
        }
        FileChange::Diff { .. } => panic!("small snapshot must be sent whole"),
    }
}

#[test]
fn large_snapshot_becomes_positional_diffs_against_last_snapshot() {
    let mut target = WatchTarget::new("README.md".to_string());
    let first = format!("{}hello", "a".repeat(1100));
    let second = format!("{}goodbye", "a".repeat(1100));
    assert!(target.detect_file_changes(&first).is_some());
    let events = target.detect_file_changes(&second).expect("changed content");
    for event in &events {
        assert!(matches!(event, FileChange::Diff { .. }));
    }
    let mut mirrored = first.clone();
    FileChange::apply_all(&events, &mut mirrored);
    assert_eq!(mirrored, second);
}
