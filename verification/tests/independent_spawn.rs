//! Independent placement: admission, control files, and the launch machines.

use running_process::errors::{ErrorKind, IoFailure};
use running_process::host::HostNumbers;
use running_process::independent_broker_transport::{
    accept_turn, admit_peer, begin_connect, check_deadline, check_served_directory,
    check_served_socket, check_socket_path, check_wait, connect_outcome, has_capacity,
    read_greeting, read_submission, serve_step, step_connect, stream_turn, write_submission,
    AcceptTurn, BrokerError, ConnectAction, ConnectEvent, ConnectState, DirectoryFacts,
    ServeAction, ServePhase, StreamTurn, BROKER_MAGIC, MAX_PATH_BYTES,
};
use running_process::independent_spawn::{
    admit_command, admit_request, begin_launch, cancelled, classify_io, cleanup_acknowledged,
    parse_launch_acknowledgement, step_launch, CancellationFlags, ControlError, DaemonSpawnRequest,
    IndependentSpawnBackend, IndependentSpawnCancellation, IndependentSpawnError,
    IndependentSpawnOptions, LaunchAcknowledgement, LaunchAction, LaunchCause, LaunchClock,
    LaunchEvent, LaunchRefusal, LaunchStage, LaunchState, RequestFate, SpawnMode, SpawnRoute,
};
use running_process::independent_systemd::{
    admit_control_file, admit_control_text, begin_submit, broker_answer, broker_timeout_ms,
    capability_step, command_turn, confirm_identity, exit_begin, exit_read, exit_supervisor,
    helper_timeout_ms, manager_arguments, submit_broker, unit_name, unsupported_capability,
    withdrawal_found, withdrawal_turn, CapabilityProbe, CapabilityStep, CommandPoll, CommandTurn,
    ControlFacts, ExitTurn, ProbeResult,
    SubmitAction, SubmitEvent, SubmitState, WithdrawalTurn,
};

const NUMBERS: HostNumbers = HostNumbers {
    not_implemented: libc::ENOSYS,
    in_progress: libc::EINPROGRESS,
    interrupted: libc::EINTR,
    socket_path_room: 108,
};

const OTHER_NUMBERS: HostNumbers = HostNumbers {
    not_implemented: 1078,
    in_progress: 1036,
    interrupted: 1004,
    socket_path_room: 104,
};

#[test]
fn helper_acknowledgement_requires_distinct_complete_identities() {
    assert_eq!(
        parse_launch_acknowledgement("12 34 56 78\n").ok().unwrap(),
        Some(LaunchAcknowledgement {
            pid: 12,
            start_key: 34,
            supervisor_pid: 56,
            supervisor_key: 78,
        })
    );
    assert_eq!(parse_launch_acknowledgement("12 34 56").ok().unwrap(), None);
    for text in [
        "12 34 12 34\n",
        "0 34 56 78\n",
        "12 34 0 78\n",
        "12 34 56\n",
        "12 34 56 78 extra\n",
        "+12 34 56 78\n",
        "4294967296 34 56 78\n",
        "12 18446744073709551616 56 78\n",
    ] {
        assert_eq!(
            parse_launch_acknowledgement(text).err().unwrap().kind(),
            ErrorKind::InvalidData
        );
    }
    assert!(parse_launch_acknowledgement(&"0".repeat(129)).is_err());
}

#[test]
fn acknowledgements_read_back() {
    let ack = LaunchAcknowledgement {
        pid: 4294967295,
        start_key: 18446744073709551615,
        supervisor_pid: 1,
        supervisor_key: 0,
    };
    let mut text = ack.to_text();
    assert_eq!(text, "4294967295 18446744073709551615 1 0");
    text.push('\n');
    assert_eq!(parse_launch_acknowledgement(&text).ok().unwrap(), Some(ack));
}

#[test]
fn control_files_reject_symlinks_and_oversized_content() {
    assert_eq!(
        admit_control_text("0".repeat(129)).err().unwrap().kind(),
        ErrorKind::InvalidData
    );
    assert!(admit_control_text("0".repeat(128)).is_ok());
    let facts = ControlFacts {
        is_file: true,
        owner: 5,
        user: 5,
        mode: 0o100600,
        links: 1,
    };
    assert!(admit_control_file(facts).is_ok());
    assert!(admit_control_file(ControlFacts { is_file: false, ..facts }).is_err());
    assert!(admit_control_file(ControlFacts { owner: 6, ..facts }).is_err());
    assert!(admit_control_file(ControlFacts { mode: 0o100604, ..facts }).is_err());
    assert!(admit_control_file(ControlFacts { links: 2, ..facts }).is_err());
}

fn io(kind: ErrorKind, raw_os_error: Option<i32>) -> IoFailure {
    IoFailure {
        kind,
        raw_os_error,
        text: "unavailable".to_string(),
    }
}

#[test]
fn unavailable_native_support_keeps_its_error_category() {
    assert!(matches!(
        classify_io(io(ErrorKind::Unsupported, None), NUMBERS),
        IndependentSpawnError::Unsupported { .. }
    ));
    assert!(matches!(
        classify_io(io(ErrorKind::Other, Some(libc::ENOSYS)), NUMBERS),
        IndependentSpawnError::Unsupported { .. }
    ));
    assert!(matches!(
        classify_io(io(ErrorKind::PermissionDenied, None), NUMBERS),
        IndependentSpawnError::PermissionDenied { .. }
    ));
    assert!(matches!(
        classify_io(io(ErrorKind::NotFound, None), NUMBERS),
        IndependentSpawnError::Launch { .. }
    ));
}

#[test]
fn error_numbers_are_those_of_the_host() {
    assert!(matches!(
        classify_io(io(ErrorKind::Other, Some(1078)), OTHER_NUMBERS),
        IndependentSpawnError::Unsupported { .. }
    ));
    assert!(matches!(
        classify_io(io(ErrorKind::Other, Some(libc::ENOSYS)), OTHER_NUMBERS),
        IndependentSpawnError::Launch { .. }
    ));
    assert!(matches!(
        connect_outcome(Some(1036), ErrorKind::Other, OTHER_NUMBERS),
        ConnectEvent::InProgress
    ));
    assert!(matches!(
        connect_outcome(Some(1036), ErrorKind::Other, NUMBERS),
        ConnectEvent::Failed
    ));
    let mut path = vec![b'a'; 105];
    path[0] = b'/';
    assert!(check_socket_path(&path, NUMBERS).is_ok());
    assert!(matches!(
        check_socket_path(&path, OTHER_NUMBERS),
        Err(BrokerError::InvalidSocketPath)
    ));
}

#[test]
fn invalid_builder_inputs_cannot_be_lost_in_command_getters() {
    let mut requests = vec![
        DaemonSpawnRequest::new(b""),
        DaemonSpawnRequest::new(b"private\0program"),
    ];
    let mut request = DaemonSpawnRequest::new(b"unused");
    request.arg(b"private\0argument");
    requests.push(request);
    let mut request = DaemonSpawnRequest::new(b"unused");
    request.current_dir(b"private\0directory");
    requests.push(request);
    let mut request = DaemonSpawnRequest::new(b"unused");
    request.env(b"KEY", b"private\0value");
    request.env_clear();
    requests.push(request);
    let mut request = DaemonSpawnRequest::new(b"unused");
    request.env_remove(b"private\0key");
    requests.push(request);
    for request in requests {
        assert!(request.has_invalid_input());
        let error = match admit_request(&request, SpawnMode::Independent, true, false) {
            Err(error) => error,
            Ok(_) => panic!("invalid request must never launch"),
        };
        assert!(matches!(error, IndependentSpawnError::Launch { .. }));
        assert!(!error.message().contains("private"));
    }
}

#[test]
fn opaque_commands_are_rejected_before_scheduler_submission() {
    assert!(matches!(
        admit_command(SpawnMode::Independent, false),
        Err(IndependentSpawnError::Unsupported { .. })
    ));
    assert!(admit_command(SpawnMode::Inherited, false).is_ok());
}

#[test]
fn structured_request_preserves_literals_and_explicit_environment_clear() {
    let mut request = DaemonSpawnRequest::new(b"private-program");
    request.args(&vec![b"argument with spaces".to_vec(), b"".to_vec()]);
    request.env(b"OLD", b"private-value");
    request.env_clear();
    request.env(b"NEW", b"private-value");
    request.env_remove(b"ABSENT");
    request.current_dir(b"relative-directory");
    assert!(request.clears_environment());
    assert_eq!(
        request.command().args,
        vec![b"argument with spaces".to_vec(), b"".to_vec()]
    );
    assert_eq!(
        request.command().current_dir,
        Some(b"relative-directory".to_vec())
    );
    let environment = &request.command().envs;
    assert!(!environment.iter().any(|(key, _)| key == b"OLD"));
    assert!(environment.contains(&(b"NEW".to_vec(), Some(b"private-value".to_vec()))));
    let debug = request.redacted();
    for secret in ["private-program", "private-value", "argument with spaces"] {
        assert!(!debug.contains(secret));
    }
}

#[test]
fn structured_cancellation_precedes_any_launch() {
    let mut flags = CancellationFlags::new();
    let cancellation = IndependentSpawnCancellation::new(&mut flags);
    cancellation.cancel(&mut flags);
    let options = IndependentSpawnOptions {
        mode: SpawnMode::Independent,
        cancellation: Some(cancellation),
        ..Default::default()
    };
    assert!(matches!(
        admit_request(
            &DaemonSpawnRequest::new(b"must-not-launch"),
            options.mode,
            options.inherit_environment,
            cancelled(&options, &flags),
        ),
        Err(IndependentSpawnError::Cancelled)
    ));
}

#[test]
fn admitted_requests_keep_their_environment_choice() {
    let mut request = DaemonSpawnRequest::new(b"p");
    assert!(matches!(
        admit_request(&request, SpawnMode::Independent, true, false),
        Ok(SpawnRoute::Independent { inherit_environment: true })
    ));
    request.env_clear();
    assert!(matches!(
        admit_request(&request, SpawnMode::Independent, true, false),
        Ok(SpawnRoute::Independent { inherit_environment: false })
    ));
    assert!(matches!(
        admit_request(&request, SpawnMode::Inherited, true, false),
        Ok(SpawnRoute::Inherited { clear_environment: true })
    ));
}

#[test]
fn cleanup_requires_an_empty_acknowledgement() {
    assert!(!cleanup_acknowledged(None).ok().unwrap());
    assert!(cleanup_acknowledged(Some(String::new())).ok().unwrap());
    for invalid in ["ok", "0", "\n", "cancelled"] {
        assert_eq!(
            cleanup_acknowledged(Some(invalid.into())).err().unwrap().kind(),
            ErrorKind::InvalidData
        );
    }
}

#[test]
fn inherited_is_default_and_is_the_only_implicit_policy() {
    assert_eq!(
        IndependentSpawnOptions::default().mode,
        SpawnMode::Inherited
    );
}

#[test]
fn cancellation_is_shared_and_observable_before_launch() {
    let mut flags = CancellationFlags::default();
    let cancellation = IndependentSpawnCancellation::new(&mut flags);
    let options = IndependentSpawnOptions {
        mode: SpawnMode::Independent,
        cancellation: Some(cancellation.clone()),
        ..Default::default()
    };
    cancellation.cancel(&mut flags);
    assert!(cancelled(&options, &flags));
}

#[test]
fn cancelling_one_token_leaves_the_others() {
    let mut flags = CancellationFlags::new();
    let first = IndependentSpawnCancellation::new(&mut flags);
    let second = IndependentSpawnCancellation::new(&mut flags);
    assert!(first != second);
    assert!(!first.is_cancelled(&flags));
    assert!(!second.is_cancelled(&flags));
    second.cancel(&mut flags);
    assert!(!first.is_cancelled(&flags));
    assert!(second.clone().is_cancelled(&flags));
    second.cancel(&mut flags);
    let third = IndependentSpawnCancellation::new(&mut flags);
    assert!(second.is_cancelled(&flags));
    assert!(!third.is_cancelled(&flags));
    assert!(!cancelled(&IndependentSpawnOptions::default(), &flags));
}

#[test]
fn unsupported_is_distinct_from_permission_and_readiness_failures() {
    let unsupported = IndependentSpawnError::Unsupported {
        reason: "no manager".into(),
    };
    let denied = IndependentSpawnError::PermissionDenied {
        reason: "denied".into(),
    };
    let readiness = IndependentSpawnError::Readiness {
        timeout: 1_000_000_000,
        reason: "not ready".into(),
    };
    assert_ne!(unsupported.message(), denied.message());
    assert_ne!(denied.message(), readiness.message());
    assert!(readiness.message().contains("1s"));
}

#[test]
fn unconfirmed_cleanup_preserves_original_failure() {
    let error = IndependentSpawnError::CleanupUnconfirmed {
        cause: Box::new(IndependentSpawnError::Cancelled),
        resource: "opaque.service".into(),
        reason: "manager timed out".into(),
    };
    assert!(error.source().unwrap().message().contains("cancelled"));
    assert!(error.message().contains("opaque.service"));
}

fn clock(elapsed: u128) -> LaunchClock {
    LaunchClock {
        cancelled: false,
        elapsed,
        timeout: 100,
    }
}

#[test]
fn a_launch_is_delivered_only_after_it_was_published() {
    let ack = LaunchAcknowledgement {
        pid: 2,
        start_key: 3,
        supervisor_pid: 4,
        supervisor_key: 5,
    };
    let (mut state, action) = begin_launch(clock(0));
    assert!(matches!(action, LaunchAction::Submit));
    let mut last = action;
    for event in [
        LaunchEvent::Submitted,
        LaunchEvent::LauncherExited { success: true },
        LaunchEvent::Acknowledgement(Some(ack)),
        LaunchEvent::IdentitiesVerified,
        LaunchEvent::MarkerPrepared,
        LaunchEvent::Supervisor { exited: false },
    ] {
        assert!(!matches!(last, LaunchAction::Deliver(_)));
        let (next, action) = step_launch(false, state, event, clock(1));
        state = next;
        last = action;
    }
    assert!(matches!(last, LaunchAction::Publish));
    let (state, action) = step_launch(false, state, LaunchEvent::Published, clock(2));
    assert!(matches!(action, LaunchAction::Deliver(a) if a.pid == 2));
    assert!(matches!(state, LaunchState::Finished));
}

#[test]
fn an_expired_launch_is_cleaned_up_and_says_where_it_stood() {
    let (state, _) = begin_launch(clock(0));
    let (state, _) = step_launch(false, state, LaunchEvent::Submitted, clock(1));
    let (state, _) = step_launch(
        false,
        state,
        LaunchEvent::LauncherExited { success: true },
        clock(1),
    );
    let (state, action) = step_launch(false, state, LaunchEvent::Acknowledgement(None), clock(200));
    assert!(matches!(action, LaunchAction::CleanUp));
    let (_, action) = step_launch(false, state, LaunchEvent::CleanedUp, clock(201));
    match action {
        LaunchAction::Fail(failure) => {
            assert!(matches!(failure.cause, LaunchCause::Expired(_)));
            assert!(failure.unconfirmed.is_none());
            assert_eq!(failure.request, RequestFate::FileRemoved);
            assert!(matches!(
                failure.into_error(100, "unit", "request"),
                IndependentSpawnError::Readiness { timeout: 100, .. }
            ));
        }
        _ => panic!("expired launches fail"),
    }
    assert!(!LaunchStage::Identity.message().is_empty());
}

#[test]
fn capability_probes_run_in_order() {
    match capability_step(CapabilityProbe::ProcessControl, ProbeResult::Passed, true) {
        CapabilityStep::Probe(CapabilityProbe::Broker) => {}
        _ => panic!("a configured broker is asked first"),
    }
    match capability_step(CapabilityProbe::Broker, ProbeResult::Passed, true) {
        CapabilityStep::Report(capability) => {
            assert!(capability.available);
            assert_eq!(
                capability.backend,
                Some(IndependentSpawnBackend::ExternalBroker)
            );
        }
        _ => panic!("a broker that answers is enough"),
    }
    match capability_step(CapabilityProbe::Manager, ProbeResult::Passed, false) {
        CapabilityStep::Report(capability) => assert_eq!(
            capability.backend,
            Some(IndependentSpawnBackend::SystemdTransientService)
        ),
        _ => panic!("the manager is the last probe"),
    }
    assert!(!unsupported_capability().available);
}

#[test]
fn manager_commands_are_polled_until_they_end() {
    assert!(matches!(
        command_turn(CommandPoll::Exited { success: true }, 0, 10),
        CommandTurn::Succeeded
    ));
    assert!(matches!(
        command_turn(CommandPoll::Exited { success: false }, 0, 10),
        CommandTurn::Refused
    ));
    assert!(matches!(
        command_turn(CommandPoll::Running, 9, 10),
        CommandTurn::Pause(_)
    ));
    assert!(matches!(
        command_turn(CommandPoll::Running, 10, 10),
        CommandTurn::Terminate
    ));
    assert!(matches!(
        command_turn(CommandPoll::Unknown, 0, 10),
        CommandTurn::Terminate
    ));
}

#[test]
fn units_and_timeouts_are_derived() {
    assert!(unit_name(7, 99).contains("7"));
    assert!(unit_name(7, 99).ends_with(".service"));
    assert_eq!(helper_timeout_ms(1_500_000), 1001);
    assert_eq!(broker_timeout_ms(0), 1000);
    assert_eq!(broker_timeout_ms(u128::MAX), 3_600_000);
    let args = manager_arguments("u.service", b"/h", b"/r", b"/a", 12);
    assert!(args.iter().any(|a| a == b"/h"));
    assert!(args.iter().any(|a| a == b"/r"));
    assert!(args.iter().any(|a| a == b"12"));
}

#[test]
fn broker_answers_and_identities_are_checked() {
    assert!(broker_answer(0).is_ok());
    assert!(matches!(broker_answer(1), Err((_, false))));
    assert!(matches!(broker_answer(9), Err((_, true))));
    assert!(confirm_identity(5, 5, false).is_ok());
    assert!(confirm_identity(5, 6, true).is_err());
}

#[test]
fn withdrawals_and_exits_follow_their_control_files() {
    assert!(matches!(withdrawal_turn(0), WithdrawalTurn::Look));
    assert!(matches!(
        withdrawal_found(Some(String::new())),
        WithdrawalTurn::Confirmed
    ));
    assert!(matches!(withdrawal_found(None), WithdrawalTurn::Pause(_)));
    assert!(matches!(
        withdrawal_found(Some("x".to_string())),
        WithdrawalTurn::Fail(ControlError::InvalidCleanup)
    ));
    assert!(matches!(exit_begin(Some(3)), ExitTurn::Report(3)));
    assert!(matches!(exit_begin(None), ExitTurn::ReadStatus));
    assert!(matches!(exit_read(Some("7"), false), ExitTurn::Record(7)));
    assert!(matches!(exit_read(Some("-7"), true), ExitTurn::Record(-7)));
    assert!(matches!(
        exit_read(Some("7\n"), true),
        ExitTurn::Fail(ControlError::InvalidExitStatus)
    ));
    assert!(matches!(
        exit_read(Some("x"), false),
        ExitTurn::Fail(ControlError::InvalidExitStatus)
    ));
    assert!(matches!(exit_read(None, false), ExitTurn::AskSupervisor));
    assert!(matches!(
        exit_read(None, true),
        ExitTurn::Fail(ControlError::StatusMissing)
    ));
    assert!(matches!(exit_supervisor(false), ExitTurn::StillRunning));
    assert!(matches!(exit_supervisor(true), ExitTurn::ReadStatusAgain));
}

#[test]
fn deadline_and_cancellation_apply_before_io() {
    assert_eq!(
        check_deadline(false, 0, 0).err().unwrap().kind(),
        ErrorKind::TimedOut
    );
    assert_eq!(
        check_deadline(true, 0, 1_000_000_000).err().unwrap().kind(),
        ErrorKind::ConnectionAborted
    );
    assert!(check_deadline(false, 0, 1).is_ok());
}

#[test]
fn roundtrip_preserves_non_utf8_path() {
    let path = b"/private/\xff/request".to_vec();
    let bytes = write_submission(&path, 1234).ok().unwrap();
    assert_eq!(read_submission(&bytes).ok().unwrap(), (path, 1234));
}

#[test]
fn rejects_unbounded_path_before_allocation() {
    let mut bytes = BROKER_MAGIC.to_vec();
    bytes.extend_from_slice(&u32::MAX.to_le_bytes());
    bytes.extend_from_slice(&1_u64.to_le_bytes());
    assert!(read_submission(&bytes).is_err());
}

#[test]
fn submissions_are_refused_with_their_reason() {
    assert!(matches!(
        write_submission(b"/a\0b", 1),
        Err(BrokerError::InvalidRequestPath)
    ));
    assert!(matches!(
        write_submission(&vec![b'/'; MAX_PATH_BYTES + 1], 1),
        Err(BrokerError::InvalidRequestPath)
    ));
    let good = write_submission(b"/request", 5).ok().unwrap();
    assert!(matches!(
        read_submission(&good[..good.len() - 1]),
        Err(BrokerError::Truncated)
    ));
    let mut foreign = good.clone();
    foreign[0] = b'X';
    assert!(matches!(
        read_submission(&foreign),
        Err(BrokerError::UnsupportedProtocol)
    ));
    let mut relative = good.clone();
    relative[20] = b'r';
    assert!(matches!(
        read_submission(&relative),
        Err(BrokerError::RelativePath)
    ));
    assert!(matches!(check_wait(0), Err(BrokerError::TimeoutOutOfRange)));
    assert!(check_wait(1).is_ok());
}

#[test]
fn connecting_respects_its_deadline() {
    let (state, action) = begin_connect(b"/run/broker.sock", NUMBERS, false, 0, 100);
    assert!(matches!(action, ConnectAction::Open));
    let (state, action) = step_connect(state, ConnectEvent::InProgress, false, 10, 100);
    assert!(matches!(action, ConnectAction::Poll));
    let (after, action) = step_connect(state, ConnectEvent::Ready(0), false, 20, 100);
    assert!(matches!(action, ConnectAction::Done));
    assert!(matches!(after, ConnectState::Finished));
    let (_, action) = begin_connect(b"/run/broker.sock", NUMBERS, true, 0, 100);
    assert!(matches!(action, ConnectAction::Fail(BrokerError::Cancelled)));
    let (state, _) = begin_connect(b"/run/broker.sock", NUMBERS, false, 0, 100);
    let (state, action) = step_connect(state, ConnectEvent::Busy, false, 10, 100);
    assert!(matches!(action, ConnectAction::Pause(5)));
    let (_, action) = step_connect(state, ConnectEvent::Woke, false, 100, 100);
    assert!(matches!(
        action,
        ConnectAction::Fail(BrokerError::ConnectExpired)
    ));
    assert!(matches!(
        connect_outcome(Some(libc::EINPROGRESS), ErrorKind::Other, NUMBERS),
        ConnectEvent::InProgress
    ));
    assert!(matches!(
        check_socket_path(b"a\0b", NUMBERS),
        Err(BrokerError::InvalidSocketPath)
    ));
}

#[test]
fn the_broker_serves_only_the_same_user() {
    assert!(matches!(admit_peer(true, 5, 5, 77), Ok(77)));
    assert!(matches!(
        admit_peer(true, 6, 5, 77),
        Err(BrokerError::NotSameUser)
    ));
    assert!(matches!(
        admit_peer(false, 5, 5, 77),
        Err(BrokerError::NotSameUser)
    ));
    assert!(read_greeting(&BROKER_MAGIC).is_ok());
    assert!(matches!(
        read_greeting(b"RPBRK002"),
        Err(BrokerError::Incompatible)
    ));
    assert!(matches!(
        check_served_socket(b"relative"),
        Err(BrokerError::RelativeSocket)
    ));
    for root in [&b"/"[..], b"//", b"/.", b"/./."] {
        assert!(matches!(
            check_served_socket(root),
            Err(BrokerError::NoSocketDirectory)
        ));
    }
    assert!(check_served_socket(b"/run/broker").is_ok());
    assert!(check_served_socket(b"/..").is_ok());
    let facts = DirectoryFacts {
        is_directory: true,
        owner: 5,
        user: 5,
        mode: 0o40700,
    };
    assert!(check_served_directory(facts).is_ok());
    assert!(matches!(
        check_served_directory(DirectoryFacts { mode: 0o40755, ..facts }),
        Err(BrokerError::UnsafeDirectory)
    ));
    assert!(has_capacity(true, 63));
    assert!(!has_capacity(true, 64));
    assert!(!has_capacity(false, 0));
    assert!(matches!(
        serve_step(ServePhase::Admission, true),
        ServeAction::Greet
    ));
    assert!(matches!(
        serve_step(ServePhase::Greeting, true),
        ServeAction::ReadSubmission
    ));
    assert!(matches!(
        serve_step(ServePhase::Launch, true),
        ServeAction::Retain
    ));
    assert!(matches!(accept_turn(None), AcceptTurn::Serve));
    assert!(matches!(
        accept_turn(Some(ErrorKind::WouldBlock)),
        AcceptTurn::Pause(_)
    ));
    assert!(matches!(
        stream_turn(Some(ErrorKind::Interrupted)),
        StreamTurn::Retry
    ));
    assert!(matches!(stream_turn(None), StreamTurn::Return));
}

fn submit_clock(cancelled: bool, elapsed: u128) -> LaunchClock {
    LaunchClock {
        cancelled,
        elapsed,
        timeout: 5_000_000_000,
    }
}

#[test]
fn submissions_are_written_after_the_greeting() {
    let (state, action) = begin_submit();
    assert!(matches!(action, SubmitAction::Connect));
    let (state, action) = submit_broker(state, SubmitEvent::Done, submit_clock(false, 0));
    assert!(matches!(action, SubmitAction::IdentifyPeer));
    let (state, action) = submit_broker(state, SubmitEvent::Done, submit_clock(false, 0));
    assert!(matches!(action, SubmitAction::VerifySeparation));
    let clock = submit_clock(false, 2_000_000_000);
    let (state, action) = submit_broker(state, SubmitEvent::Done, clock);
    assert_eq!(state, SubmitState::Greeting(4000));
    assert!(matches!(action, SubmitAction::ReadGreeting));
    let (state, action) = submit_broker(state, SubmitEvent::Done, clock);
    assert!(matches!(action, SubmitAction::WriteSubmission(4000)));
    let (state, action) = submit_broker(state, SubmitEvent::Done, clock);
    assert!(matches!(action, SubmitAction::ReadAnswer));
    let (_, action) = submit_broker(state, SubmitEvent::Answer(0), clock);
    assert!(matches!(action, SubmitAction::Succeed));
    let (_, action) = submit_broker(state, SubmitEvent::Answer(1), clock);
    assert!(matches!(
        action,
        SubmitAction::Fail {
            cause: LaunchCause::Refused(LaunchRefusal::Broker),
            may_have_arrived: false,
        }
    ));
    let (_, action) = submit_broker(state, SubmitEvent::Answer(7), clock);
    assert!(matches!(
        action,
        SubmitAction::Fail {
            cause: LaunchCause::Refused(LaunchRefusal::BrokerAnswer),
            may_have_arrived: true,
        }
    ));
}

#[test]
fn interrupted_submissions_write_nothing() {
    let (_, action) = submit_broker(
        SubmitState::Separating,
        SubmitEvent::Done,
        submit_clock(false, 5_000_000_000),
    );
    assert!(matches!(
        action,
        SubmitAction::Fail {
            cause: LaunchCause::Expired(LaunchStage::BrokerRequest),
            may_have_arrived: false,
        }
    ));
    let (_, action) = submit_broker(
        SubmitState::Separating,
        SubmitEvent::Done,
        submit_clock(true, 0),
    );
    assert!(matches!(
        action,
        SubmitAction::Fail {
            cause: LaunchCause::Cancelled,
            may_have_arrived: false,
        }
    ));
    let failed = SubmitEvent::Failed(IndependentSpawnError::Cancelled);
    let (_, action) = submit_broker(SubmitState::Writing, failed, submit_clock(false, 0));
    assert!(matches!(
        action,
        SubmitAction::Fail {
            may_have_arrived: true,
            ..
        }
    ));
}
