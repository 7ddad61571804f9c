//! Output tees: rings, channels and what a tee file receives.

use running_process::client::telemetry::{
    ensure_ok, get_session_tee_status, register_session_file_tee, registered_tee, tee_status,
    unregister_session_tee, Answer, AnsweredStatus, AnsweredStream, SessionTeeBackpressure,
    SessionTeeFileMode, SessionTeeFileRequest, SessionTeeKind, SessionTeeStatus, SessionTeeStream,
    TeeCall,
};
use running_process::daemon::protocol::StatusCode;
use running_process::daemon::telemetry::{
    tee_file_bytes, TeeBackpressure, TeeEvent, TeeFileMode, TeeFileOptions, TeeOptions,
    TeeRegistry, TeeStream,
};

#[test]
fn ring_tee_keeps_tail_and_reports_missed_bytes() {
    let mut registry = TeeRegistry::new();
    let handle = registry.add_ring(TeeStream::Stdout, 5);

    registry.write(TeeStream::Stdout, b"abc");
    registry.write(TeeStream::Stdout, b"defgh");

    let snapshot = registry.snapshot(handle).expect("snapshot");
    assert_eq!(snapshot.stream, TeeStream::Stdout);
    assert_eq!(snapshot.bytes, b"defgh");
    assert_eq!(snapshot.missed_bytes, 3);
    assert_eq!(snapshot.capacity, 5);
}

#[test]
fn rings_are_stream_specific() {
    let mut registry = TeeRegistry::new();
    let stdout = registry.add_ring(TeeStream::Stdout, 64);
    let stderr = registry.add_ring(TeeStream::Stderr, 64);

    registry.write(TeeStream::Stdout, b"out");
    registry.write(TeeStream::Stderr, b"err");

    assert_eq!(registry.snapshot(stdout).unwrap().bytes, b"out");
    assert_eq!(registry.snapshot(stderr).unwrap().bytes, b"err");
}

#[test]
fn multiple_rings_receive_identical_bytes() {
    let mut registry = TeeRegistry::new();
    let a = registry.add_ring(TeeStream::PtyOutput, 64);
    let b = registry.add_ring(TeeStream::PtyOutput, 64);

    registry.write(TeeStream::PtyOutput, b"pty bytes");

    assert_eq!(registry.snapshot(a).unwrap().bytes, b"pty bytes");
    assert_eq!(registry.snapshot(b).unwrap().bytes, b"pty bytes");
}

#[test]
fn removed_ring_stops_receiving_bytes() {
    let mut registry = TeeRegistry::new();
    let handle = registry.add_ring(TeeStream::Stdout, 64);

    registry.write(TeeStream::Stdout, b"before");
    assert!(registry.remove(handle));
    registry.write(TeeStream::Stdout, b"after");

    assert!(registry.snapshot(handle).is_none());
    assert!(registry.is_empty());
}

#[test]
fn zero_capacity_ring_reports_every_byte_missed() {
    let mut registry = TeeRegistry::new();
    let handle = registry.add_ring(TeeStream::Stdout, 0);

    registry.write(TeeStream::Stdout, b"abc");

    let snapshot = registry.snapshot(handle).unwrap();
    assert!(snapshot.bytes.is_empty());
    assert_eq!(snapshot.missed_bytes, 3);
}

#[test]
fn channel_sink_reports_missed_bytes_out_of_band() {
    let mut registry = TeeRegistry::new();
    let handle = registry.add_channel(TeeStream::Stdout, 2);

    registry.write(TeeStream::Stdout, b"a");
    registry.write(TeeStream::Stdout, b"b");
    registry.write(TeeStream::Stdout, b"c");

    assert_eq!(
        registry.try_recv(handle).unwrap(),
        TeeEvent::Bytes(b"a".to_vec())
    );
    assert_eq!(
        registry.try_recv(handle).unwrap(),
        TeeEvent::Bytes(b"b".to_vec())
    );

    registry.write(TeeStream::Stdout, b"d");

    assert_eq!(registry.try_recv(handle).unwrap(), TeeEvent::MissedBytes(1));
    assert_eq!(
        registry.try_recv(handle).unwrap(),
        TeeEvent::Bytes(b"d".to_vec())
    );

    let status = registry.status(handle).expect("status");
    assert_eq!(status.stream, TeeStream::Stdout);
    assert_eq!(status.missed_bytes, 1);
    assert!(!status.disconnected);
    assert!(registry.snapshot(handle).is_none());
}

#[test]
fn a_channel_without_capacity_hands_over_to_a_waiting_receiver() {
    let mut registry = TeeRegistry::new();
    let handle = registry.add_channel(TeeStream::Stdout, 0);
    registry.write(TeeStream::Stdout, b"ab");
    assert!(registry.try_recv(handle).is_none());
    assert_eq!(registry.status(handle).unwrap().missed_bytes, 2);
    registry.await_item(handle);
    registry.write(TeeStream::Stdout, b"c");
    assert_eq!(registry.try_recv(handle).unwrap(), TeeEvent::MissedBytes(2));
    assert_eq!(registry.status(handle).unwrap().missed_bytes, 3);
    registry.await_item(handle);
    registry.write(TeeStream::Stdout, b"d");
    assert_eq!(registry.try_recv(handle).unwrap(), TeeEvent::MissedBytes(1));
    registry.await_item(handle);
    registry.write(TeeStream::Stdout, b"e");
    registry.write(TeeStream::Stdout, b"f");
    assert_eq!(registry.try_recv(handle).unwrap(), TeeEvent::MissedBytes(1));
    assert!(registry.try_recv(handle).is_none());
}

#[test]
fn a_waiting_receiver_gets_bytes_while_nothing_is_missed() {
    let mut registry = TeeRegistry::new();
    let handle = registry.add_channel(TeeStream::Stdout, 0);
    registry.await_item(handle);
    registry.write(TeeStream::Stdout, b"x");
    registry.write(TeeStream::Stdout, b"y");
    assert_eq!(
        registry.try_recv(handle).unwrap(),
        TeeEvent::Bytes(b"x".to_vec())
    );
    assert_eq!(registry.status(handle).unwrap().missed_bytes, 1);
}

#[test]
fn channel_sink_marks_disconnected_receivers() {
    let mut registry = TeeRegistry::new();
    let handle = registry.add_channel(TeeStream::Stdout, 1);
    registry.drop_receiver(handle);

    registry.write(TeeStream::Stdout, b"abc");

    let status = registry.status(handle).expect("status");
    assert_eq!(status.missed_bytes, 3);
    assert!(status.disconnected);
}

#[test]
fn handles_are_fresh_and_options_have_defaults() {
    let mut registry = TeeRegistry::default();
    let first = registry.add_ring_with_options(
        TeeStream::Stdin,
        4,
        TeeOptions {
            backpressure: TeeBackpressure::DropOldest,
        },
    );
    let second = registry.add_channel(TeeStream::Stdin, 4);
    assert_ne!(first.as_u64(), second.as_u64());
    assert!(!registry.remove(running_process::telemetry::TeeRegistry::new().add_ring(
        TeeStream::Stdin,
        1,
    )) || registry.snapshot(second).is_none());
    assert_eq!(TeeOptions::default().backpressure, TeeBackpressure::DropOldest);
    assert_eq!(TeeFileOptions::default().mode, TeeFileMode::Append);
    assert!(TeeFileOptions::default().write_missed_markers);
}

#[test]
fn tee_files_mark_missed_bytes_only_when_asked() {
    assert_eq!(
        tee_file_bytes(&TeeEvent::Bytes(b"x\xff".to_vec()), false),
        b"x\xff".to_vec()
    );
    let marker = tee_file_bytes(&TeeEvent::MissedBytes(12), true);
    assert!(String::from_utf8(marker).unwrap().contains("12"));
    assert!(tee_file_bytes(&TeeEvent::MissedBytes(12), false).is_empty());
}

#[test]
fn file_tee_requests_carry_their_options() {
    let request = SessionTeeFileRequest::new(
        "s-1".to_string(),
        SessionTeeKind::Pty,
        SessionTeeStream::PtyOutput,
        b"/tmp/\xff",
    )
    .truncate()
    .queue_capacity(9)
    .suppress_missed_markers()
    .backpressure(SessionTeeBackpressure::Block);
    assert_eq!(
        register_session_file_tee(request),
        TeeCall::Register {
            session_id: "s-1".to_string(),
            session_kind: SessionTeeKind::Pty,
            stream: SessionTeeStream::PtyOutput,
            file_path: b"/tmp/\xff".to_vec(),
            file_mode: SessionTeeFileMode::Truncate,
            queue_capacity: 9,
            suppress_missed_markers: true,
            backpressure: SessionTeeBackpressure::Block,
        }
    );
    assert_eq!(
        unregister_session_tee(SessionTeeKind::Pipe, "a".to_string(), 3),
        TeeCall::Unregister {
            session_id: "a".to_string(),
            session_kind: SessionTeeKind::Pipe,
            tee_handle: 3,
        }
    );
    assert_eq!(
        get_session_tee_status(SessionTeeKind::Pipe, "b".to_string(), 4),
        TeeCall::Status {
            session_id: "b".to_string(),
            session_kind: SessionTeeKind::Pipe,
            tee_handle: 4,
        }
    );
}

fn answer<T>(code: Option<StatusCode>, payload: Option<T>) -> Answer<T> {
    Answer {
        code,
        message: "why".to_string(),
        payload,
    }
}

#[test]
fn answers_about_tees_are_judged() {
    assert!(ensure_ok(&answer::<u64>(Some(StatusCode::Done), None)).is_ok());
    let refused = ensure_ok(&answer::<u64>(Some(StatusCode::NotFound), None)).unwrap_err();
    assert_eq!((refused.code, refused.message.as_str()), (StatusCode::NotFound, "why"));
    let unknown = ensure_ok(&answer::<u64>(None, None)).unwrap_err();
    assert_eq!(unknown.code, StatusCode::UnknownRequest);

    assert_eq!(registered_tee(answer(Some(StatusCode::Done), Some(8))).unwrap(), 8);
    assert_eq!(
        registered_tee(answer(Some(StatusCode::Done), None))
            .unwrap_err()
            .message,
        "register_session_tee response missing payload"
    );

    let status = |stream| {
        tee_status(answer(
            Some(StatusCode::Done),
            Some(AnsweredStatus {
                stream,
                missed_bytes: 5,
                disconnected: true,
            }),
        ))
    };
    assert_eq!(
        status(AnsweredStream::Known(SessionTeeStream::Stderr)).unwrap(),
        SessionTeeStatus {
            stream: SessionTeeStream::Stderr,
            missed_bytes: 5,
            disconnected: true,
        }
    );
    assert_eq!(
        status(AnsweredStream::Unknown).unwrap_err().message,
        "get_session_tee_status response has invalid stream"
    );
    assert_eq!(
        status(AnsweredStream::Unspecified).unwrap_err().message,
        "get_session_tee_status response has unspecified stream"
    );
    assert_eq!(
        tee_status(answer(Some(StatusCode::Done), None))
            .unwrap_err()
            .message,
        "get_session_tee_status response missing payload"
    );
}
