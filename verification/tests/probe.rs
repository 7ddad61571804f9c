//! Enrolling with a probe daemon, captures, content hashes and descendants.

use running_process::content_hash::{blake3_contents, content_stamp};
use running_process::descendant_monitor::{
    deliver, start, DescendantEvent, StopOwner, WatchNotice,
};
use running_process::errors::{ErrorKind, IoFailure};
use running_process::observer::ObserverEventKind;
use running_process::probe::capture::{
    artifact_name, capture, create_artifact_name, worker_payload, AttributedCapture,
    AttributedFrame, AttributedModule, AttributedThread, CaptureFailure, WrittenCapture,
};
use running_process::probe::client::{
    acknowledge, register, reply_cap, Body, ClientError, ProbeSession, ProcessKey, Reply,
};
use running_process::probe::worker::{
    build_register_request, declare, next_backoff, resolve_socket_path, sleep_interruptible,
    ProcessFacts, Worker, WorkerAction, WorkerEvent, BACKOFF_CAP, BACKOFF_START,
};
use running_process::probe::{Config, Runtime};

fn facts() -> ProcessFacts {
    ProcessFacts {
        exe_path: "/bin/app".to_string(),
        pid: 41,
        now_unix_ms: 1000,
        boot_id: "boot".to_string(),
        arch: "x86_64".to_string(),
        os: "linux".to_string(),
    }
}

#[test]
fn register_request_describes_this_process() {
    let req = build_register_request(&Config::new("test-app"), facts()).ok().unwrap();
    let key = req.key.expect("key");
    assert_eq!(key.pid, 41);
    assert_eq!(key.start_time, Some(1000));
    assert_eq!(key.boot_id.as_deref(), Some("boot"));
    assert!(!req.exe_path.is_empty());
    assert_eq!(req.app_class, "test-app");
    assert_eq!(req.arch, "x86_64");
    assert_eq!(req.os, "linux");
}

#[test]
fn the_declared_runtime_reaches_the_request() {
    let native = build_register_request(&Config::new("a"), facts()).ok().unwrap();
    assert_eq!(
        native.runtime,
        Runtime::Native,
        "a Rust registrant defaults to native, not unspecified"
    );
    let python = build_register_request(&Config::new("a").with_runtime(Runtime::Python), facts())
        .ok()
        .unwrap();
    assert_eq!(python.runtime, Runtime::Python);
}

#[test]
fn each_registration_gets_a_fresh_nonce() {
    let a = build_register_request(&Config::new("a"), facts()).ok().unwrap();
    let b = build_register_request(&Config::new("a"), facts()).ok().unwrap();
    assert_eq!(a.registration_nonce.len(), 32);
    assert_ne!(
        a.registration_nonce, b.registration_nonce,
        "a reused nonce would be rejected as a replay"
    );
}

#[test]
fn backoff_doubles_and_is_capped() {
    let mut d = BACKOFF_START;
    assert_eq!(next_backoff(d), 2 * BACKOFF_START);
    for _ in 0..10 {
        d = next_backoff(d);
    }
    assert_eq!(d, BACKOFF_CAP, "backoff must saturate, not grow unbounded");
}

#[test]
fn interruptible_sleep_wakes_early_on_stop() {
    assert_eq!(sleep_interruptible(0, 30_000, true), None);
}

#[test]
fn interruptible_sleep_waits_when_not_stopped() {
    let mut slept = 0;
    let mut steps = Vec::new();
    while let Some(step) = sleep_interruptible(slept, 120, false) {
        steps.push(step);
        slept += step;
    }
    assert_eq!(steps, vec![50, 50, 20]);
    assert_eq!(slept, 120);
}

#[test]
fn missing_discovery_is_unreachable_not_a_panic() {
    let err = resolve_socket_path(&Config::new("app")).expect_err("no daemon");
    assert!(matches!(err, ClientError::Unreachable(_)));
    assert_eq!(err.source().map(|f| f.kind), Some(ErrorKind::NotFound));
}

#[test]
fn socket_override_wins_over_discovery() {
    let mut cfg = Config::new("app");
    cfg.socket_override = Some("/tmp/x.sock".to_string());
    assert_eq!(resolve_socket_path(&cfg).unwrap(), "/tmp/x.sock");
}

fn key() -> ProcessKey {
    ProcessKey {
        pid: 1,
        start_time: Some(2),
        boot_id: Some("b".to_string()),
    }
}

#[test]
fn fake_client_round_trips_for_worker_tests() {
    let mut request = declare(&Config::new("a"), facts(), vec![1]);
    request.key = Some(key());
    let armed = |state, detail: &str| {
        Ok(Reply::RegistrationStatus {
            state,
            detail: detail.to_string(),
        })
    };
    assert_eq!(register(&request, armed(2, "")).unwrap(), key());
    assert_eq!(
        register(&request, armed(1, "test")).unwrap_err(),
        ClientError::Refused {
            reason: "test".to_string()
        }
    );
    assert_eq!(
        register(&request, Ok(Reply::Another)).unwrap_err(),
        ClientError::UnexpectedReply
    );
    request.key = None;
    assert_eq!(
        register(&request, armed(2, "")).unwrap_err(),
        ClientError::UnexpectedReply
    );
    assert!(acknowledge(Ok(Reply::Another)).is_ok());
    assert!(acknowledge(Err(ClientError::Wire("x".to_string()))).is_err());
}

#[test]
fn requests_are_numbered_and_errors_have_their_texts() {
    let mut session = ProbeSession::new();
    let first = session.request(Body::Heartbeat(key()));
    assert_eq!((first.wire_version, first.request_id, first.deadline_unix_ms), (1, 1, 0));
    assert_eq!(session.next_request_id(), 2);
    assert_eq!(reply_cap(10), 10);
    assert_eq!(reply_cap(1 << 20), 64 * 1024);
    let unreachable = ClientError::Unreachable(IoFailure {
        kind: ErrorKind::ConnectionRefused,
        raw_os_error: Some(111),
        text: "refused".to_string(),
    });
    assert_eq!(unreachable.message(), "probe daemon unreachable: refused");
    assert_eq!(ClientError::Wire("w".to_string()).message(), "probe wire error: w");
    assert_eq!(
        ClientError::Refused { reason: "r".to_string() }.message(),
        "probe daemon refused the request: r"
    );
    assert_eq!(
        ClientError::UnexpectedReply.message(),
        "unexpected reply from probe daemon"
    );
}

#[test]
fn the_worker_backs_off_registers_beats_and_leaves() {
    let (mut worker, action) = Worker::run(false);
    assert_eq!(action, WorkerAction::Connect);
    assert_eq!(worker.step(WorkerEvent::Refused), WorkerAction::Wait(100));
    assert_eq!(worker.step(WorkerEvent::Woke { stop: false }), WorkerAction::Connect);
    assert_eq!(worker.step(WorkerEvent::Refused), WorkerAction::Wait(200));
    assert_eq!(worker.step(WorkerEvent::Woke { stop: false }), WorkerAction::Connect);
    assert_eq!(worker.step(WorkerEvent::Registered(key())), WorkerAction::Rest);
    assert_eq!(worker.key(), Some(&key()));
    assert_eq!(worker.step(WorkerEvent::Woke { stop: false }), WorkerAction::Beat);
    assert_eq!(
        worker.step(WorkerEvent::Beat { alive: true, stop: false }),
        WorkerAction::Rest
    );
    assert_eq!(worker.step(WorkerEvent::Woke { stop: false }), WorkerAction::Beat);
    assert_eq!(
        worker.step(WorkerEvent::Beat { alive: false, stop: false }),
        WorkerAction::Connect
    );
    assert_eq!(worker.key(), None);
    assert_eq!(worker.step(WorkerEvent::Refused), WorkerAction::Wait(100));
    assert_eq!(worker.step(WorkerEvent::Woke { stop: false }), WorkerAction::Connect);
    assert_eq!(worker.step(WorkerEvent::Registered(key())), WorkerAction::Rest);
    assert_eq!(worker.step(WorkerEvent::Woke { stop: true }), WorkerAction::Unregister);
    assert_eq!(worker.step(WorkerEvent::Left), WorkerAction::Done);
    assert_eq!(Worker::run(true).1, WorkerAction::Done);
}

fn attributed(threads: usize) -> AttributedCapture {
    AttributedCapture {
        modules: vec![
            AttributedModule {
                name: "app.exe".into(),
                path: Some("app.exe".into()),
                base: 0x1000,
            },
            AttributedModule {
                name: "lib".into(),
                path: None,
                base: 0x2000,
            },
        ],
        threads: (0..threads)
            .map(|i| AttributedThread {
                os_tid: 7 + i as u64,
                frames: vec![
                    AttributedFrame {
                        module_index: Some(0),
                        relative_address: 0x10,
                    },
                    AttributedFrame {
                        module_index: None,
                        relative_address: 0xDEAD,
                    },
                ],
            })
            .collect(),
    }
}

#[test]
fn worker_payload_is_bounded_and_keeps_unknown_frames_explicit() {
    let payload = worker_payload(attributed(1), 2, 0);
    assert_eq!(payload.threads.len(), 1);
    assert_eq!(payload.threads[0].frames[0].module_index, 0);
    assert_eq!(payload.threads[0].frames[1].module_index, u32::MAX);
    assert_eq!(payload.threads[0].frames[1].relative_address, 0xDEAD);
}

#[test]
fn payloads_are_cut_and_filtered() {
    let payload = worker_payload(attributed(40), 1, 0b101);
    let tids: Vec<u64> = payload.threads.iter().map(|t| t.os_tid).collect();
    assert_eq!(tids, vec![7, 9]);
    assert!(payload.threads.iter().all(|t| t.frames.len() == 1));
    assert_eq!(payload.format, "cooperative_frames");
    assert_eq!(payload.modules[0].name, "app.exe");
    assert_eq!(payload.modules[1].base_avma, 0x2000);
    assert_eq!(payload.modules[1].path_hint, None);
    assert_eq!(worker_payload(attributed(40), 0, 0).threads.len(), 40);
}

#[test]
fn captures_are_answered() {
    let reply = capture(
        5,
        Ok(WrittenCapture {
            path: "/tmp/c".to_string(),
            threads_captured: 3,
            threads_dropped: 1,
            pause_ns: 9,
        }),
    );
    assert_eq!((reply.error, reply.threads_captured), (0, 3));
    assert_eq!(reply.artifact_path, "/tmp/c");
    for (failure, text) in [
        (
            CaptureFailure::Snapshot("a".to_string()),
            "cooperative capture failed: a",
        ),
        (CaptureFailure::Modules("b".to_string()), "module inventory failed: b"),
        (CaptureFailure::Artifact("c".to_string()), "c"),
        (CaptureFailure::Encoding("d".to_string()), "encode capture: d"),
    ] {
        let reply = capture(5, Err(failure));
        assert_eq!(reply.error, 5);
        assert_eq!(reply.detail, text);
        assert_eq!(reply.started_unix_ms, 5);
    }
}

#[test]
fn artifacts_have_fresh_names() {
    assert_eq!(
        artifact_name(12, &[0, 0xab, 0xff]),
        "rp-probe-capture-12-00abff.json"
    );
    let first = create_artifact_name(12).ok().unwrap();
    let second = create_artifact_name(12).ok().unwrap();
    assert_ne!(first, second);
    assert_eq!(first.len(), "rp-probe-capture-12-".len() + 16 + ".json".len());
}

#[test]
fn hashes_the_bytes_not_the_path() {
    let bytes = b"the quick brown fox jumps over the lazy dog";
    assert_eq!(blake3_contents(bytes), *blake3::hash(bytes).as_bytes());
}

#[test]
fn different_contents_hash_differently() {
    assert_ne!(blake3_contents(b"content one"), blake3_contents(b"content two"));
}

#[test]
fn empty_file_hashes_like_empty_input() {
    let got = blake3_contents(b"");
    assert_eq!(got, *blake3::hash(b"").as_bytes());
    assert_eq!(got[..4], [0xaf, 0x13, 0x49, 0xb9]);
}

#[test]
fn first_16_hex_is_a_stable_stamp() {
    let bytes = b"stamp me";
    let stamp = content_stamp("1.2.3", &blake3_contents(bytes));
    let stamp16 = stamp.strip_prefix("1.2.3-").unwrap();
    assert_eq!(stamp16.len(), 16);
    assert!(stamp16.chars().all(|c| c.is_ascii_hexdigit()));
    assert_eq!(stamp16, &blake3::hash(bytes).to_hex()[..16]);
}

#[test]
fn watches_own_the_monitor_and_observers_hear_while_they_listen() {
    assert_eq!(start(true, true), Some(StopOwner::Watch));
    assert_eq!(start(true, false), Some(StopOwner::Observer));
    assert_eq!(start(false, false), None);
    let started = DescendantEvent::Started {
        pid: 4,
        parent_pid: Some(1),
    };
    let delivery = deliver(started, true, true);
    let notice = delivery.observer.unwrap();
    assert_eq!(notice.kind, ObserverEventKind::DescendantStarted);
    assert_eq!(notice.parent_pid, Some(1));
    assert_eq!(
        delivery.watch,
        Some(WatchNotice::Inferred { pid: 4, started: true })
    );
    let delivery = deliver(DescendantEvent::Exited(4), false, true);
    assert_eq!(delivery.observer, None);
    assert_eq!(
        delivery.watch,
        Some(WatchNotice::Inferred { pid: 4, started: false })
    );
    let delivery = deliver(DescendantEvent::Completed, true, true);
    assert_eq!(delivery.observer, None);
    assert_eq!(delivery.watch, Some(WatchNotice::FinishDelivery));
}
