//! Observer subscriptions.

use running_process::daemon::observer_registry::{
    ObserverBackpressure, ObserverRegistry, ObserverSubscriberId,
};
use running_process::observer::{EventCategory, ObserverEvent, ObserverEventKind};

fn lifecycle_started(pid: u32) -> ObserverEvent {
    ObserverEvent {
        category: EventCategory::Lifecycle,
        kind: ObserverEventKind::Started,
        pid,
        timestamp_ms: 0,
    }
}

fn file_event(pid: u32) -> ObserverEvent {
    ObserverEvent {
        category: EventCategory::File,
        kind: ObserverEventKind::Started,
        pid,
        timestamp_ms: 0,
    }
}

#[test]
fn registry_emits_to_subscribed_sinks_only() {
    let mut reg = ObserverRegistry::new();
    let lifecycle_id = reg.add_channel(
        vec![EventCategory::Lifecycle],
        4,
        ObserverBackpressure::Block,
        1,
        1000,
    );
    let file_id = reg.add_channel(
        vec![EventCategory::File],
        4,
        ObserverBackpressure::Block,
        2,
        1000,
    );

    assert!(reg.emit(lifecycle_started(101)).is_empty());

    let lifecycle_event = reg
        .try_recv(&lifecycle_id)
        .expect("lifecycle sink should receive the event");
    assert_eq!(lifecycle_event.category, EventCategory::Lifecycle);
    assert_eq!(lifecycle_event.pid, 101);

    assert!(
        reg.try_recv(&file_id).is_none(),
        "file sink should not receive a lifecycle event"
    );

    assert!(reg.emit(file_event(202)).is_empty());
    let file_event_received = reg
        .try_recv(&file_id)
        .expect("file sink should receive a file event");
    assert_eq!(file_event_received.category, EventCategory::File);
    assert_eq!(file_event_received.pid, 202);
}

#[test]
fn dropoldest_increments_missed_when_consumer_slow() {
    let mut reg = ObserverRegistry::new();
    let id = reg.add_channel(
        vec![EventCategory::Lifecycle],
        2,
        ObserverBackpressure::DropOldest,
        1,
        1000,
    );

    for pid in 0..5 {
        reg.emit(lifecycle_started(pid));
    }

    let status = reg.status(&id).expect("sink should still be registered");
    assert_eq!(status.missed_events, 3, "expected 3 missed events");
    assert_eq!(status.delivered_events, 2, "expected 2 delivered events");
    assert!(!status.disconnected);
}

#[test]
fn unregister_removes_sink() {
    let mut reg = ObserverRegistry::new();
    let id = reg.add_channel(
        vec![EventCategory::Lifecycle],
        4,
        ObserverBackpressure::Block,
        1,
        1000,
    );
    assert!(reg.remove(&id));
    reg.emit(lifecycle_started(7));
    assert!(reg.try_recv(&id).is_none());
    assert!(reg.is_empty());
    assert!(!reg.remove(&id));
}

#[test]
fn empty_registry_emit_is_cheap_and_safe() {
    let mut reg = ObserverRegistry::new();
    reg.emit(lifecycle_started(1));
    assert_eq!(reg.len(), 0);
}

#[test]
fn generated_subscriber_ids_are_unique() {
    let a = ObserverSubscriberId::new(1, 1_700_000_000_000_000_000);
    let b = ObserverSubscriberId::new(2, 1_700_000_000_000_000_001);
    assert_ne!(a, b);
    assert_eq!(a.as_str().len(), 36);
}

#[test]
fn a_full_blocking_sink_makes_the_emitter_wait_until_it_is_read() {
    let mut reg = ObserverRegistry::new();
    let id = reg.add_channel(
        vec![EventCategory::Lifecycle],
        1,
        ObserverBackpressure::Block,
        5,
        77,
    );
    assert!(reg.emit(lifecycle_started(1)).is_empty());
    let waiting = reg.emit(lifecycle_started(2));
    assert_eq!(waiting.len(), 1);
    assert_eq!(waiting[0].as_str(), id.as_str());
    assert!(!reg.offer(&id, lifecycle_started(2)));
    assert_eq!(reg.try_recv(&id).unwrap().pid, 1);
    assert!(reg.offer(&id, lifecycle_started(2)));
    assert_eq!(reg.try_recv(&id).unwrap().pid, 2);
    assert_eq!(reg.status(&id).unwrap().delivered_events, 2);
}

#[test]
fn a_receiver_that_went_away_is_reported() {
    let mut reg = ObserverRegistry::default();
    let id = reg.add_channel(
        vec![EventCategory::Lifecycle],
        1,
        ObserverBackpressure::Block,
        5,
        77,
    );
    reg.drop_receiver(&id);
    assert!(reg.emit(lifecycle_started(1)).is_empty());
    let status = reg.status(&id).unwrap();
    assert!(status.disconnected);
    assert_eq!(status.missed_events, 0);
    assert_eq!(status.delivered_events, 0);
}

#[test]
fn a_dropping_sink_counts_full_channels_and_not_gone_receivers() {
    let mut reg = ObserverRegistry::new();
    let id = reg.add_channel(
        vec![EventCategory::Lifecycle],
        1,
        ObserverBackpressure::DropOldest,
        6,
        78,
    );
    reg.emit(lifecycle_started(1));
    reg.emit(lifecycle_started(2));
    assert_eq!(reg.status(&id).unwrap().missed_events, 1);
    reg.drop_receiver(&id);
    reg.emit(lifecycle_started(3));
    let status = reg.status(&id).unwrap();
    assert!(status.disconnected);
    assert_eq!(status.missed_events, 1);
    assert_eq!(status.delivered_events, 1);
}

#[test]
fn identifiers_have_the_canonical_layout() {
    let id = ObserverSubscriberId::new(3, 42);
    let text = id.copied().into_string();
    let dashes: Vec<usize> = text
        .char_indices()
        .filter(|(_, c)| *c == '-')
        .map(|(i, _)| i)
        .collect();
    assert_eq!(dashes, vec![8, 13, 18, 23]);
    assert_eq!(&text[14..15], "4");
    assert!("89ab".contains(&text[19..20]));
    assert!(text.chars().all(|c| c == '-' || c.is_ascii_hexdigit()));
    assert!(text.chars().all(|c| !c.is_ascii_uppercase()));
    assert_eq!(ObserverSubscriberId::from_string("x".to_string()).as_str(), "x");
    let same_time: Vec<String> = (0..64)
        .map(|counter| ObserverSubscriberId::new(counter, 42).into_string())
        .collect();
    let mut distinct = same_time.clone();
    distinct.sort();
    distinct.dedup();
    assert_eq!(distinct.len(), same_time.len());
}
