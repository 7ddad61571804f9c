//! Observation capabilities, events, descendants and process watches.

use running_process::host::{HostNumbers, HostOs};
use running_process::observer::descendants::{
    emit_diff, parse_children, queue_turn, register_for_tracking, take_notes, DescendantPump,
    DescendantWalk, PidSet, QueueNote, QueueTurn,
};
use running_process::observer::process_watch::{
    choose_observation, exit_code_matches, make_safe_label, plan_dump, render_origin, CaptureSource,
    DumpPlan, ExactDelivery, ExactTraceEvent, ExactTraceEventKind, ProcessWatchEmitter,
    TraceOriginArtifact, DEFAULT_RETAINED_MATCHES,
};
use running_process::observer::{ObserverEmitter, Received};
use running_process::{
    CapabilitySupport, EventCategory, ObservationGrade, ObservationPolicy, ObserverCapabilities,
    ObserverConfig, ObserverEvent, ObserverEventKind, ProcessObservationCapabilities, ProcessWatch,
    ProcessWatchRead, StackCapture, StackDump,
};
use std::collections::HashSet;

#[test]
fn negotiate_reports_lifecycle_supported() {
    let caps = ObserverCapabilities::negotiate(HostOs::Linux);
    assert!(caps.is_supported(EventCategory::Lifecycle));
    assert_eq!(
        caps.support(EventCategory::Lifecycle),
        CapabilitySupport::Supported
    );
    let entry = caps.category(EventCategory::Lifecycle);
    assert_eq!(entry.backend, "portable-lifecycle");
    assert!(!entry.reason.is_empty());
}

#[test]
fn negotiate_reports_syscall_categories_unavailable_with_reason() {
    let caps = ObserverCapabilities::negotiate(HostOs::Linux);
    for category in [
        EventCategory::File,
        EventCategory::Network,
        EventCategory::Process,
    ] {
        let entry = caps.category(category);
        assert_eq!(
            entry.support,
            CapabilitySupport::Unavailable,
            "{} should be unavailable in Phase 1",
            category.as_str()
        );
        assert!(
            entry.reason.contains("Phase 3"),
            "{} reason must explain the deferral: {:?}",
            category.as_str(),
            entry.reason
        );
        assert!(!caps.is_supported(category));
    }
}

fn backends(caps: &ObserverCapabilities) -> [&'static str; 3] {
    [
        caps.category(EventCategory::File).backend,
        caps.category(EventCategory::Network).backend,
        caps.category(EventCategory::Process).backend,
    ]
}

#[test]
fn syscall_categories_advertise_per_os_backend_name() {
    let caps = ObserverCapabilities::negotiate(HostOs::Linux);
    assert_eq!(
        backends(&caps),
        ["seccomp-user-notify", "ebpf", "seccomp-user-notify"]
    );
    assert_eq!(
        backends(&ObserverCapabilities::negotiate(HostOs::Windows)),
        ["etw", "etw", "etw"]
    );
    assert_eq!(
        backends(&ObserverCapabilities::negotiate(HostOs::MacOs)),
        ["kqueue", "endpoint-security", "endpoint-security"]
    );
    assert_eq!(
        backends(&ObserverCapabilities::negotiate(HostOs::Other)),
        ["none", "none", "none"]
    );

    for os in [HostOs::Linux, HostOs::Windows, HostOs::MacOs, HostOs::Other] {
        let caps = ObserverCapabilities::negotiate(os);
        for category in [
            EventCategory::File,
            EventCategory::Network,
            EventCategory::Process,
        ] {
            let entry = caps.category(category);
            assert!(
                !entry.reason.contains("seccomp/eBPF/ETW"),
                "stale multi-backend reason: {:?}",
                entry.reason
            );
            assert!(
                entry.reason.contains("Phase 3"),
                "reason must keep the Phase 3 anchor: {:?}",
                entry.reason
            );
        }
    }
}

#[test]
fn negotiate_covers_every_category_exactly_once() {
    let caps = ObserverCapabilities::negotiate(HostOs::Linux);
    assert_eq!(caps.categories().len(), EventCategory::ALL.len());
    for category in EventCategory::ALL {
        let _ = caps.category(category);
    }
}

#[test]
fn config_observes_only_requested_categories() {
    let lifecycle = ObserverConfig::lifecycle();
    assert!(lifecycle.observes(EventCategory::Lifecycle));
    assert!(!lifecycle.observes(EventCategory::File));

    let none = ObserverConfig::with_categories(vec![]);
    assert!(!none.observes(EventCategory::Lifecycle));
}

#[test]
fn category_and_support_string_forms_are_stable() {
    assert_eq!(EventCategory::Lifecycle.as_str(), "lifecycle");
    assert_eq!(EventCategory::File.as_str(), "file");
    assert_eq!(EventCategory::Network.as_str(), "network");
    assert_eq!(EventCategory::Process.as_str(), "process");
    assert_eq!(CapabilitySupport::Supported.as_str(), "supported");
    assert_eq!(CapabilitySupport::Partial.as_str(), "partial");
    assert_eq!(CapabilitySupport::Unavailable.as_str(), "unavailable");
}

#[test]
fn observed_child_emits_started_then_exited() {
    let (mut emitter, mut subscriber) = ObserverEmitter::new(ObserverConfig::lifecycle());
    emitter.emit_started(&mut subscriber, 41, 1000);
    emitter.emit_exited(&mut subscriber, 41, 0, 1001);
    let events = subscriber.drain();
    assert_eq!(events.len(), 2);
    assert_eq!(events[0].category, EventCategory::Lifecycle);
    assert_eq!(events[0].kind, ObserverEventKind::Started);
    assert_eq!(events[0].kind.as_str(), "started");
    assert_eq!(events[0].pid, 41);
    assert_eq!(events[1].category, EventCategory::Lifecycle);
    assert_eq!(events[1].kind, ObserverEventKind::Exited { exit_code: 0 });
    assert_eq!(events[1].kind.as_str(), "exited");
    assert_eq!(events[1].pid, 41);
    assert!(events[1].timestamp_ms >= events[0].timestamp_ms);
}

#[test]
fn exited_event_is_emitted_exactly_once_across_paths() {
    let (mut emitter, mut subscriber) = ObserverEmitter::new(ObserverConfig::lifecycle());
    emitter.emit_started(&mut subscriber, 1, 0);
    emitter.emit_exited(&mut subscriber, 1, 3, 1);
    emitter.emit_exited(&mut subscriber, 1, 4, 2);
    let exited_count = subscriber
        .drain()
        .into_iter()
        .filter(|e| matches!(e.kind, ObserverEventKind::Exited { .. }))
        .count();
    assert_eq!(exited_count, 1, "exited must fire exactly once");
}

#[test]
fn unobserved_category_produces_no_events() {
    let (mut emitter, mut subscriber) =
        ObserverEmitter::new(ObserverConfig::with_categories(vec![EventCategory::File]));
    emitter.emit_started(&mut subscriber, 1, 0);
    emitter.emit_exited(&mut subscriber, 1, 3, 1);
    assert!(subscriber.drain().is_empty());
}

#[test]
fn subscribers_tell_waiting_from_closed() {
    let (emitter, mut subscriber) = ObserverEmitter::new(ObserverConfig::lifecycle());
    assert!(matches!(subscriber.recv(), Received::Pending));
    emitter.emit_started(&mut subscriber, 5, 9);
    subscriber.close();
    assert!(matches!(subscriber.recv(), Received::Event(event) if event.pid == 5));
    assert!(matches!(subscriber.recv(), Received::Closed));
}

#[test]
fn summaries_list_every_category() {
    let caps = ObserverCapabilities::negotiate(HostOs::Linux);
    let rows = caps.to_table_rows();
    assert_eq!(rows.len(), 4);
    assert_eq!(rows[0][0], "lifecycle");
    assert_eq!(rows[0][1], "supported");
    let summary = caps.render_summary();
    for category in EventCategory::ALL {
        assert!(summary.contains(category.as_str()));
    }
    let lines: Vec<&str> = summary.lines().collect();
    assert_eq!(lines[0], "observer capabilities:");
    assert_eq!(lines.len(), rows.len() + 1);
    assert!(summary.ends_with('\n'));
    for (line, row) in lines[1..].iter().zip(&rows) {
        for column in 1..4 {
            let mut offset = 2;
            for before in 0..column {
                offset += rows.iter().map(|row| row[before].len()).max().unwrap_or(0) + 2;
            }
            assert!(line[offset..].starts_with(row[column].as_str()));
        }
        assert!(line.starts_with(&format!("  {}", row[0])));
        assert!(line.ends_with(row[3].as_str()));
    }
}

#[test]
fn emit_diff_fires_one_started_per_new_pid() {
    let mut evs: Vec<ObserverEvent> = Vec::new();
    let prev = PidSet::from_list(&[10, 20]);
    let current = PidSet::from_list(&[10, 20, 30, 40]);
    emit_diff(&prev, &current, &mut evs, 0);
    assert_eq!(evs.len(), 2);
    let started_pids: HashSet<u32> = evs
        .iter()
        .filter(|e| matches!(e.kind, ObserverEventKind::DescendantStarted))
        .map(|e| e.pid)
        .collect();
    assert_eq!(started_pids, [30, 40].into_iter().collect::<HashSet<_>>());
}

#[test]
fn emit_diff_fires_one_exited_per_gone_pid() {
    let mut evs: Vec<ObserverEvent> = Vec::new();
    let prev = PidSet::from_list(&[10, 20, 30]);
    let current = PidSet::from_list(&[10]);
    emit_diff(&prev, &current, &mut evs, 0);
    assert_eq!(evs.len(), 2);
    let exited_pids: HashSet<u32> = evs
        .iter()
        .filter(|e| matches!(e.kind, ObserverEventKind::DescendantExited))
        .map(|e| e.pid)
        .collect();
    assert_eq!(exited_pids, [20, 30].into_iter().collect::<HashSet<_>>());
}

#[test]
fn emit_diff_no_events_when_steady_state() {
    let mut evs: Vec<ObserverEvent> = Vec::new();
    let prev = PidSet::from_list(&[10, 20]);
    let current = PidSet::from_list(&[10, 20]);
    emit_diff(&prev, &current, &mut evs, 0);
    assert_eq!(evs.len(), 0);
}

#[test]
fn every_descendant_that_started_exits_once() {
    let mut pump = DescendantPump::new();
    let mut evs: Vec<ObserverEvent> = Vec::new();
    pump.observe(&[2, 3, 2], &mut evs, 1);
    pump.observe(&[3, 4], &mut evs, 2);
    pump.finish(&mut evs, 3);
    let started: Vec<u32> = evs
        .iter()
        .filter(|e| e.kind == ObserverEventKind::DescendantStarted)
        .map(|e| e.pid)
        .collect();
    let mut exited: Vec<u32> = evs
        .iter()
        .filter(|e| e.kind == ObserverEventKind::DescendantExited)
        .map(|e| e.pid)
        .collect();
    exited.sort();
    assert_eq!(started, vec![2, 3, 4]);
    assert_eq!(exited, vec![2, 3, 4]);
}

#[test]
fn descendant_pids_for_nonexistent_root_returns_empty() {
    let mut walk = DescendantWalk::new(0x7FFF_FFFE);
    assert_eq!(walk.next(), Some(0x7FFF_FFFE));
    walk.feed(None);
    assert_eq!(walk.next(), None);
    assert!(walk.into_found().is_empty());
}

#[test]
fn descendant_walks_visit_every_generation() {
    let mut walk = DescendantWalk::new(1);
    let mut visited = Vec::new();
    while let Some(pid) = walk.next() {
        visited.push(pid);
        walk.feed(match pid {
            1 => Some("2 3\n"),
            3 => Some("4 junk 5 "),
            _ => None,
        });
    }
    visited.sort();
    assert_eq!(visited, vec![1, 2, 3, 4, 5]);
    let mut found = walk.into_found();
    found.sort();
    assert_eq!(found, vec![2, 3, 4, 5]);
    assert_eq!(parse_children("7 x 4294967296 8"), vec![7, 8]);
}

#[test]
fn queue_notes_become_descendant_events() {
    let note = |pid, child, track_error, exit| QueueNote {
        pid,
        child,
        track_error,
        exit,
    };
    let mut evs: Vec<ObserverEvent> = Vec::new();
    let ended = take_notes(
        &[note(8, true, false, false), note(8, false, false, true)],
        1,
        &mut evs,
        5,
    );
    assert!(!ended);
    assert_eq!(evs.len(), 2);
    assert_eq!(evs[0].kind, ObserverEventKind::DescendantStarted);
    assert_eq!(evs[1].kind, ObserverEventKind::DescendantExited);
    assert!(take_notes(&[note(1, false, false, true)], 1, &mut evs, 6));
}

#[test]
fn minus_one_matches_unix_truncated_status() {
    assert!(exit_code_matches(-1, Some(255)));
    assert!(exit_code_matches(-1, Some(-1)));
    assert!(!exit_code_matches(-1, Some(254)));
    assert!(!exit_code_matches(-1, None));
}

#[test]
fn ambiguous_exec_selector_is_rejected() {
    assert!(ProcessWatch::on_exec(
        Some("soldr".to_owned()),
        Some(b"/usr/bin/soldr".to_vec()),
        None,
        Some(1),
        0,
        "recursive-soldr".to_owned(),
    )
    .is_err());
}

fn no_exact() -> ProcessObservationCapabilities {
    ProcessObservationCapabilities {
        exact_available: false,
        exact_backend: "ptrace",
        reason: "not here",
    }
}

fn exact() -> ProcessObservationCapabilities {
    ProcessObservationCapabilities {
        exact_available: true,
        exact_backend: "ptrace",
        reason: "",
    }
}

#[test]
fn bounded_log_reports_an_explicit_cursor_gap() {
    let watch = ProcessWatch::on_spawn(None, None, 0, "all-spawns".to_owned())
        .ok()
        .unwrap();
    let (mut emitter, subscriber) = ProcessWatchEmitter::new(
        vec![watch],
        ObservationPolicy::NonInvasive,
        &no_exact(),
        HostOs::Linux,
    )
    .ok()
    .unwrap();
    let mut cursor = subscriber.cursor(&emitter);
    for pid in 1..=(DEFAULT_RETAINED_MATCHES as u32 + 7) {
        emitter.emit_inferred(pid, true, None, u128::from(pid));
    }
    let ProcessWatchRead::Gap(gap) = cursor.read_next(&emitter) else {
        panic!("expected an explicit cursor gap");
    };
    assert_eq!(gap.first_missing, 1);
    assert_eq!(gap.last_missing, 7);
    let ProcessWatchRead::Match(found) = cursor.read_next(&emitter) else {
        panic!("expected the oldest retained match");
    };
    assert_eq!(found.sequence, 8);
    let mut late = subscriber.cursor(&emitter);
    let ProcessWatchRead::Match(oldest) = late.read_next(&emitter) else {
        panic!("expected the oldest retained match");
    };
    assert_eq!(oldest.sequence, 8);
    assert_eq!(subscriber.snapshot(&emitter).len(), DEFAULT_RETAINED_MATCHES);
    for _ in 1..DEFAULT_RETAINED_MATCHES {
        assert!(matches!(late.read_next(&emitter), ProcessWatchRead::Match(_)));
    }
    assert!(matches!(late.read_next(&emitter), ProcessWatchRead::Timeout));
    emitter.close();
    assert!(matches!(late.read_next(&emitter), ProcessWatchRead::Eof));
}

#[test]
fn limit_and_cooldown_bound_matching() {
    let second: u128 = 1_000_000_000;
    let limited = ProcessWatch::on_spawn(None, Some(2), 0, "limited".to_owned())
        .ok()
        .unwrap();
    let cooled = ProcessWatch::on_spawn(None, None, 60 * second, "cooled".to_owned())
        .ok()
        .unwrap();
    let (mut emitter, subscriber) = ProcessWatchEmitter::new(
        vec![limited, cooled],
        ObservationPolicy::NonInvasive,
        &no_exact(),
        HostOs::Linux,
    )
    .ok()
    .unwrap();
    for pid in 1..=4u32 {
        emitter.emit_inferred(pid, true, None, u128::from(pid));
    }
    let matches = subscriber.snapshot(&emitter);
    assert_eq!(
        matches
            .iter()
            .filter(|item| item.watch.label == "limited")
            .count(),
        2
    );
    assert_eq!(
        matches
            .iter()
            .filter(|item| item.watch.label == "cooled")
            .count(),
        1
    );
    emitter.emit_inferred(9, true, None, 61 * second);
    assert_eq!(
        subscriber
            .snapshot(&emitter)
            .iter()
            .filter(|item| item.watch.label == "cooled")
            .count(),
        2
    );
}

#[test]
fn observation_grades_follow_policy_and_host() {
    let traced = choose_observation(ObservationPolicy::RequireExact, &exact(), HostOs::Linux)
        .ok()
        .unwrap();
    assert_eq!(traced.grade, ObservationGrade::ExactTrace);
    assert!(
        choose_observation(ObservationPolicy::RequireExact, &no_exact(), HostOs::Linux).is_err()
    );
    let fallback = choose_observation(ObservationPolicy::AllowTracing, &no_exact(), HostOs::Linux)
        .ok()
        .unwrap();
    assert_ne!(fallback.grade, ObservationGrade::ExactTrace);
    assert_eq!(ObservationPolicy::default(), ObservationPolicy::NonInvasive);
}

fn traced_exit(code: i32) -> ExactTraceEvent {
    ExactTraceEvent {
        kind: ExactTraceEventKind::Exit {
            exit_code: Some(code),
            signal: None,
            raw_status: i64::from(code) << 8,
        },
        sequence: 3,
        pid: 77,
        start_key: Some(5),
        parent_pid: Some(1),
        parent_start_key: None,
        timestamp: 10,
        executable: Some(b"/bin/true".to_vec()),
        argv: None,
        origin: None,
    }
}

#[test]
fn exact_deliveries_are_matched_and_never_reentered() {
    let watch = ProcessWatch::on_exit(Some(-1), None, None, None, Some(1), 0, "minus-one".to_owned())
        .ok()
        .unwrap();
    let (mut emitter, subscriber) = ProcessWatchEmitter::new(
        vec![watch],
        ObservationPolicy::RequireExact,
        &exact(),
        HostOs::Linux,
    )
    .ok()
    .unwrap();
    assert!(emitter.uses_exact_trace());
    let mut cursor = subscriber.cursor(&emitter);
    let ExactDelivery::Matched { event, hits } = emitter.begin_exact(&traced_exit(255), 10) else {
        panic!("first delivery")
    };
    assert_eq!(hits, vec![0]);
    assert!(matches!(
        emitter.begin_exact(&traced_exit(255), 11),
        ExactDelivery::Reentrant
    ));
    emitter.record_exact(0, &event, None);
    emitter.finish_exact();
    let ProcessWatchRead::Match(found) = cursor.read_next(&emitter) else {
        panic!("match")
    };
    assert_eq!(found.watch.label, "minus-one");
    assert_eq!(found.event.exit_code, Some(255));
    assert_eq!(
        found.event.observation_grade,
        ObservationGrade::ExactTrace
    );
    emitter.close();
    assert!(matches!(cursor.read_next(&emitter), ProcessWatchRead::Eof));
}

#[test]
fn dumps_name_their_files_and_render_their_origin() {
    assert_eq!(make_safe_label("a/b c_D-9"), "a_b_c_D-9");
    let origin = TraceOriginArtifact {
        thread_id: 4,
        stack_pointer: Some(16),
        instruction_pointer: None,
        registers: vec![0xab],
        stack: vec![0x01, 0xff],
        truncated: false,
    };
    let text = render_origin(&origin);
    assert!(text.contains("ab\nstack=01ff\n"));
    let dump = StackDump {
        capture: StackCapture::OriginPreferred,
        directory: Some(b"/tmp".to_vec()),
        symbolize_immediately: false,
    };
    let mut event = traced_exit(1);
    event.origin = Some(origin);
    match plan_dump(&dump, "a/b", &event) {
        DumpPlan::Write { file_name, content } => {
            assert!(file_name.contains("a_b"));
            assert_eq!(content, text);
        }
        DumpPlan::Finished(_) => panic!("has an origin"),
    }
    event.origin = None;
    match plan_dump(&dump, "a", &event) {
        DumpPlan::Finished(result) => {
            assert_eq!(result.capture_source, CaptureSource::NoCapture);
            assert!(result.error.is_some());
        }
        DumpPlan::Write { .. } => panic!("has no origin"),
    }
}

#[test]
fn queue_waits_survive_signals_only() {
    let numbers = HostNumbers {
        not_implemented: libc::ENOSYS,
        in_progress: libc::EINPROGRESS,
        interrupted: libc::EINTR,
        socket_path_room: 104,
    };
    assert_eq!(queue_turn(-1, Some(libc::EINTR), numbers), QueueTurn::Again);
    assert_eq!(queue_turn(-1, Some(9), numbers), QueueTurn::Stop);
    assert_eq!(queue_turn(-1, None, numbers), QueueTurn::Stop);
    assert_eq!(queue_turn(0, None, numbers), QueueTurn::Again);
    assert_eq!(queue_turn(3, None, numbers), QueueTurn::Take(3));
}

#[test]
fn registration_reports_the_entry_error() {
    assert_eq!(register_for_tracking(Some(22), true, 3), Err(22));
    assert_eq!(register_for_tracking(None, true, 3), Err(3));
    assert_eq!(register_for_tracking(None, true, 0), Ok(()));
    assert_eq!(register_for_tracking(None, false, 3), Ok(()));
}
