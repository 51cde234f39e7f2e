use mdmirror::bus::{ChangeBus, RecvOutcome, BACKLOG_CAPACITY};
use mdmirror::codec::FileChange;
use mdmirror::session::{
    handle_broadcast, handle_incoming_message, initial_event, InboundEvent, InboundFrame,
    OutboundFrame, SessionCounter, MAX_SESSIONS,
};

fn diff(n: usize) -> FileChange {
    FileChange::Diff {
        file_id: "f".to_string(),
        position: n,
        delete_count: 0,
        insert_text: format!("{}", n),
    }
}

#[test]
fn each_subscriber_sees_its_seed_then_only_later_events_in_order() {
    let mut bus = ChangeBus::new(BACKLOG_CAPACITY);
    bus.publish(diff(0));
    bus.publish(diff(1));

    // first mirror connects: its session seeds it from current content,
    // then it sees only what is produced afterwards
    let mut first = bus.subscribe();
    let first_seed = initial_event("f", "current content".to_string());
    let mut first_received = vec![first_seed];

    bus.publish(diff(2));

    // second mirror connects later: its own seed, then later events only
    let mut second = bus.subscribe();
    let second_seed = initial_event("f", "newer content".to_string());
    let mut second_received = vec![second_seed];

    bus.publish(diff(3));
    bus.publish(diff(4));

    first_received.extend(bus.drain(&mut first));
    second_received.extend(bus.drain(&mut second));

    assert_eq!(
        first_received,
        vec![
            initial_event("f", "current content".to_string()),
            diff(2),
            diff(3),
            diff(4),
        ]
    );
    assert_eq!(
        second_received,
        vec![initial_event("f", "newer content".to_string()), diff(3), diff(4)]
    );
}

#[test]
fn a_lagged_subscriber_is_disconnected_not_fed_gapped_data() {
    let mut bus = ChangeBus::new(3);
    let mut sub = bus.subscribe();
    for n in 0..5 {
        bus.publish(diff(n));
    }
    // the subscriber trails 5 events behind a backlog bound of 3
    let outcome = bus.recv(&mut sub);
    assert!(matches!(outcome, RecvOutcome::Lagged));
    let step = handle_broadcast(outcome);
    assert!(!step.continues);
    assert!(matches!(step.reply, Some(OutboundFrame::Close)));
}

#[test]
fn a_subscriber_at_the_backlog_bound_still_gets_everything() {
    let mut bus = ChangeBus::new(3);
    let mut sub = bus.subscribe();
    for n in 0..3 {
        bus.publish(diff(n));
    }
    assert_eq!(bus.drain(&mut sub), vec![diff(0), diff(1), diff(2)]);
    assert!(matches!(bus.recv(&mut sub), RecvOutcome::Empty));
}

#[test]
fn received_events_are_relayed_and_the_session_goes_on() {
    let step = handle_broadcast(RecvOutcome::Event(diff(7)));
    assert!(step.continues);
    assert!(matches!(step.reply, Some(OutboundFrame::Event(_))));
    let waiting = handle_broadcast(RecvOutcome::Empty);
    assert!(waiting.continues);
    assert!(waiting.reply.is_none());
    let closed = handle_broadcast(RecvOutcome::Closed);
    assert!(!closed.continues);
    assert!(matches!(closed.reply, Some(OutboundFrame::Close)));
}

#[test]
fn pings_are_answered_with_pongs_echoing_the_payload() {
    let step = handle_incoming_message(InboundEvent::Frame(InboundFrame::Ping(vec![1, 2, 3])));
    assert!(step.continues);
    match step.reply {
        Some(OutboundFrame::Pong(payload)) => assert_eq!(payload, vec![1, 2, 3]),
        _ => panic!("a ping must be answered with a pong"),
    }
}

#[test]
fn a_close_frame_ends_the_session_gracefully() {
    let step = handle_incoming_message(InboundEvent::Frame(InboundFrame::Close));
    assert!(!step.continues);
    assert!(matches!(step.reply, Some(OutboundFrame::Close)));
}

#[test]
fn other_frames_are_ignored_and_errors_end_the_session() {
    let text = handle_incoming_message(InboundEvent::Frame(InboundFrame::Text("hi".into())));
    assert!(text.continues && text.reply.is_none());
    let pong = handle_incoming_message(InboundEvent::Frame(InboundFrame::Pong(vec![])));
    assert!(pong.continues && pong.reply.is_none());
    let binary = handle_incoming_message(InboundEvent::Frame(InboundFrame::Binary(vec![0])));
    assert!(binary.continues && binary.reply.is_none());
    let error = handle_incoming_message(InboundEvent::TransportError);
    assert!(!error.continues && error.reply.is_none());
    let end = handle_incoming_message(InboundEvent::StreamEnd);
    assert!(!end.continues && end.reply.is_none());
}

#[test]
fn the_seed_is_a_full_snapshot_of_the_current_content() {
    let seed = initial_event("README.md", "# Title\n".to_string());
    match seed {
        FileChange::FullContent { file_id, content } => {
            assert_eq!(file_id, "README.md");
            assert_eq!(content, "# Title\n");
        }
        FileChange::Diff { .. } => panic!("the seed must be a full snapshot"),
    }
}

#[test]
fn connections_beyond_the_ceiling_are_refused() {
    let mut counter = SessionCounter::new();
    for _ in 0..MAX_SESSIONS {
        assert!(counter.try_accept());
    }
    assert!(!counter.try_accept());
    counter.session_closed();
    assert!(counter.try_accept());
    assert!(!counter.try_accept());
}
