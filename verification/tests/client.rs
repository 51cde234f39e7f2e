use mdmirror::client::{
    ClientMirror, ClientSync, ConnectionState, RetryDecision, INITIAL_RECONNECT_DELAY_MS,
    MAX_RECONNECT_ATTEMPTS, MAX_RECONNECT_DELAY_MS,
};
use mdmirror::codec::FileChange;

#[test]
fn mirror_rebuilds_content_from_seed_and_diff() {
    let mut mirror = ClientMirror::new();
    let seed = FileChange::FullContent {
        file_id: "README.md".to_string(),
        content: "# Title\n".to_string(),
    };
    let updated = mirror.apply_change(&seed).expect("a snapshot always applies");
    assert_eq!(updated, "# Title\n");
    let edit = FileChange::Diff {
        file_id: "README.md".to_string(),
        position: 8,
        delete_count: 0,
        insert_text: "\nBody".to_string(),
    };
    let updated = mirror.apply_change(&edit).expect("a valid edit applies");
    assert_eq!(updated, "# Title\n\nBody");
    assert_eq!(mirror.content_of("README.md"), "# Title\n\nBody");
}

#[test]
fn an_invalid_edit_is_rejected_and_the_mirror_unchanged() {
    let mut mirror = ClientMirror::new();
    let seed = FileChange::FullContent {
        file_id: "f".to_string(),
        content: "12345".to_string(),
    };
    mirror.apply_change(&seed);
    let bad = FileChange::Diff {
        file_id: "f".to_string(),
        position: 6,
        delete_count: 0,
        insert_text: "!".to_string(),
    };
    assert!(mirror.apply_change(&bad).is_none());
    assert_eq!(mirror.content_of("f"), "12345");
}

#[test]
fn a_diff_for_an_unseen_file_patches_empty_content() {
    let mut mirror = ClientMirror::new();
    let edit = FileChange::Diff {
        file_id: "new.md".to_string(),
        position: 0,
        delete_count: 0,
        insert_text: "hello".to_string(),
    };
    let updated = mirror.apply_change(&edit).expect("position 0 is valid for empty content");
    assert_eq!(updated, "hello");
    assert_eq!(mirror.content_of("new.md"), "hello");
    assert_eq!(mirror.content_of("never-seen.md"), "");
}

#[test]
fn a_full_snapshot_supersedes_diff_history() {
    let mut mirror = ClientMirror::new();
    let edit = FileChange::Diff {
        file_id: "f".to_string(),
        position: 0,
        delete_count: 0,
        insert_text: "scratch".to_string(),
    };
    mirror.apply_change(&edit);
    let seed = FileChange::FullContent {
        file_id: "f".to_string(),
        content: "authoritative".to_string(),
    };
    mirror.apply_change(&seed);
    assert_eq!(mirror.content_of("f"), "authoritative");
}

#[test]
fn backoff_doubles_per_attempt_and_is_capped() {
    let mut machine = ClientSync::new();
    let mut sleeps = Vec::new();
    for _ in 0..8 {
        machine.start_connect();
        match machine.on_failure(0) {
            RetryDecision::RetryAfter(ms) => sleeps.push(ms),
            RetryDecision::GiveUp => panic!("the budget is not exhausted yet"),
        }
    }
    assert_eq!(sleeps, vec![100, 200, 400, 800, 1600, 2000, 2000, 2000]);
}

#[test]
fn jitter_is_bounded_and_the_sleep_capped() {
    let mut machine = ClientSync::new();
    machine.start_connect();
    match machine.on_failure(1234) {
        // 1234 % 100 = 34 of jitter over the 100 ms base
        RetryDecision::RetryAfter(ms) => assert_eq!(ms, INITIAL_RECONNECT_DELAY_MS + 34),
        RetryDecision::GiveUp => panic!("the budget is not exhausted yet"),
    }
    let mut capped = ClientSync::new();
    for _ in 0..6 {
        capped.start_connect();
        capped.on_failure(99);
    }
    capped.start_connect();
    match capped.on_failure(99) {
        RetryDecision::RetryAfter(ms) => assert_eq!(ms, MAX_RECONNECT_DELAY_MS),
        RetryDecision::GiveUp => panic!("the budget is not exhausted yet"),
    }
}

#[test]
fn exhausting_the_reconnect_budget_is_fatal() {
    let mut machine = ClientSync::new();
    let mut decisions = Vec::new();
    for attempt in 0..MAX_RECONNECT_ATTEMPTS {
        assert_eq!(machine.state, ConnectionState::Disconnected);
        machine.start_connect();
        assert_eq!(machine.state, ConnectionState::Connecting);
        let decision = machine.on_failure(attempt as u64 * 37);
        decisions.push(decision);
        if machine.state == ConnectionState::Terminated {
            break;
        }
    }
    assert_eq!(decisions.len(), MAX_RECONNECT_ATTEMPTS as usize);
    assert_eq!(*decisions.last().unwrap(), RetryDecision::GiveUp);
    for early in &decisions[..decisions.len() - 1] {
        assert!(matches!(early, RetryDecision::RetryAfter(_)));
    }
    assert_eq!(machine.state, ConnectionState::Terminated);
}

#[test]
fn a_graceful_peer_close_terminates_without_retry() {
    let mut machine = ClientSync::new();
    machine.start_connect();
    machine.on_connect_success();
    assert_eq!(machine.state, ConnectionState::Connected);
    machine.on_peer_close();
    assert_eq!(machine.state, ConnectionState::Terminated);
}

#[test]
fn a_transport_error_while_connected_leads_back_to_disconnected() {
    let mut machine = ClientSync::new();
    machine.start_connect();
    machine.on_connect_success();
    let decision = machine.on_failure(0);
    assert!(matches!(decision, RetryDecision::RetryAfter(_)));
    assert_eq!(machine.state, ConnectionState::Disconnected);
    // the attempt still counts against the budget
    assert_eq!(machine.attempts, 1);
}
