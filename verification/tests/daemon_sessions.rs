//! Daemon requests, compile sessions and backend connections.

use running_process::daemon::backend_endpoint::{
    serve_backend_connection, BackendAction, BackendEvent, BackendStage, Verdict,
};
use running_process::daemon::compile_session::{
    run_compile_session, step_session, CompileSession, FrameKind, FromClient, PumpEnd,
    SessionAction, SessionEvent, SessionExit, SessionStage, OUTBOUND_FRAME_CAPACITY,
};
use running_process::daemon::handlers::services::{
    handle_service_delete, handle_service_describe, handle_service_flush, handle_service_list,
    handle_service_logs, handle_service_restart, handle_service_resurrect, handle_service_save,
    handle_service_start, handle_service_stop, requested_service, requested_target, Refusal,
    ServiceConfig, ServiceError, ServiceRecord, ServiceStartRequest,
};
use running_process::daemon::handlers::spawn::{
    environment_entries, handle_spawn_daemon, step_spawn, working_directory, SpawnAction,
    SpawnDaemonRequest, SpawnEvent, SpawnPlan, SpawnStage,
};
use running_process::daemon::handlers::Payload;
use running_process::daemon::protocol::{RequestType, StatusCode};
use running_process::daemon::session_endpoint::{
    serve_backend_endpoint, serve_session_endpoint, EndpointAction, EndpointEvent,
};
use running_process::errors::{ErrorKind, IoFailure};
use running_process::process_output_shutdown::{SessionOutputShutdown, ShutdownWait};
use running_process::{EnvironmentPolicy, ProcessError};

#[test]
fn request_type_enum_values_match_convention() {
    assert_eq!(RequestType::Register.wire_value(), 10);
    assert_eq!(RequestType::Unregister.wire_value(), 11);
    assert_eq!(RequestType::SpawnDaemon.wire_value(), 12);
    assert_eq!(RequestType::ListActive.wire_value(), 20);
    assert_eq!(RequestType::ListByOriginator.wire_value(), 21);
    assert_eq!(RequestType::GetProcessTree.wire_value(), 22);
    assert_eq!(RequestType::KillZombies.wire_value(), 30);
    assert_eq!(RequestType::KillTree.wire_value(), 31);
    assert_eq!(RequestType::Ping.wire_value(), 40);
    assert_eq!(RequestType::Shutdown.wire_value(), 41);
    assert_eq!(RequestType::Status.wire_value(), 42);
    assert_eq!(RequestType::from_wire(42), Some(RequestType::Status));
    assert_eq!(RequestType::from_wire(43), None);
}

fn spawn_request(command: &str, originator: &str) -> SpawnDaemonRequest {
    SpawnDaemonRequest {
        command: command.to_string(),
        cwd: "/w".to_string(),
        env: vec![],
        originator: originator.to_string(),
    }
}

fn planned(payload: Option<SpawnDaemonRequest>) -> Result<SpawnPlan, (StatusCode, String, u64)> {
    handle_spawn_daemon(
        34,
        "test".to_string(),
        payload,
        Ok(EnvironmentPolicy::Inherit),
    )
    .map_err(|r| (r.code, r.message, r.request_id))
}

#[test]
fn test_spawn_daemon_missing_payload() {
    let (code, message, id) = planned(None).err().unwrap();
    assert_eq!(code, StatusCode::InvalidArgument);
    assert!(message.contains("missing spawn_daemon payload"));
    assert_eq!(id, 34);
}

#[test]
fn test_spawn_daemon_empty_command() {
    let (code, message, _) = planned(Some(spawn_request("   ", ""))).err().unwrap();
    assert_eq!(code, StatusCode::InvalidArgument);
    assert!(message.contains("command must not be empty"));
}

#[test]
fn spawn_plans_trim_commands_and_default_their_originator() {
    let plan = planned(Some(spawn_request("  echo hi\n", " \t"))).ok().unwrap();
    assert_eq!(plan.command, "echo hi");
    assert_eq!(plan.originator, "test");
    assert_eq!(working_directory(&plan), Some("/w"));
    let plan = planned(Some(spawn_request("x", " me "))).ok().unwrap();
    assert_eq!(plan.originator, " me ");
    let refused = handle_spawn_daemon(
        1,
        String::new(),
        Some(spawn_request("x", "")),
        Err("bad policy".to_string()),
    )
    .err()
    .unwrap();
    assert_eq!(refused.code, StatusCode::InvalidArgument);
    assert_eq!(refused.message, "bad policy");
}

#[test]
fn the_last_explicit_entry_counts() {
    let entry = |k: &str, v: &str| (k.to_string(), v.to_string());
    let mut plan = planned(Some(spawn_request("x", "me"))).ok().unwrap();
    plan.env = vec![entry("PATH", "old"), entry("A", "1"), entry("Path", "new")];
    assert_eq!(
        environment_entries(&plan, true),
        vec![
            entry("A", "1"),
            entry("Path", "new"),
            entry("RUNNING_PROCESS_ORIGINATOR", "me"),
        ]
    );
    assert_eq!(environment_entries(&plan, false).len(), 4);
    plan.originator = String::new();
    plan.cwd = String::new();
    assert_eq!(environment_entries(&plan, true).len(), 2);
    assert_eq!(working_directory(&plan), None);
}

#[test]
fn spawned_commands_are_tracked_or_killed() {
    let plan = planned(Some(spawn_request("x", "me"))).ok().unwrap();
    let spawned = SpawnEvent::Spawned {
        pid: 9,
        created_at_ms: 1500,
    };
    let (stage, action) = step_spawn(7, &plan, SpawnStage::Spawning, spawned);
    match action {
        SpawnAction::Register(entry) => {
            assert_eq!(entry.pid, 9);
            assert_eq!(entry.created_at_ms, 1500);
            assert_eq!(entry.kind, "subprocess");
            assert_eq!(entry.containment, "detached");
            assert_eq!(entry.originator, "me");
        }
        _ => panic!("registers"),
    }
    let (after, action) = step_spawn(7, &plan, stage, SpawnEvent::Registered);
    assert_eq!(after, SpawnStage::Over);
    match action {
        SpawnAction::WatchAndRespond(response) => {
            assert_eq!(response.code, StatusCode::Done);
            assert!(matches!(response.payload, Some(Payload::SpawnDaemon(c)) if c.pid == 9));
        }
        _ => panic!("answers"),
    }
    let (_, action) = step_spawn(7, &plan, stage, SpawnEvent::RegisterFailed("full".to_string()));
    match action {
        SpawnAction::KillAndRespond(response) => {
            assert_eq!(response.code, StatusCode::Internal);
            assert_eq!(response.message, "registry error: full");
        }
        _ => panic!("kills"),
    }
    let (_, action) = step_spawn(
        7,
        &plan,
        SpawnStage::Spawning,
        SpawnEvent::SpawnFailed("no".to_string()),
    );
    match action {
        SpawnAction::Respond(response) => {
            assert_eq!(response.message, "failed to spawn detached command: no")
        }
        _ => panic!("answers"),
    }
}

fn service(name: &str) -> ServiceConfig {
    ServiceConfig {
        name: name.to_string(),
        cmd: vec!["run".to_string()],
        cwd: "/".to_string(),
        env: vec![("A".to_string(), "1".to_string())],
        autorestart: true,
        max_restarts: 3,
        restart_delay_ms: 4,
        kill_timeout_ms: 5,
        min_uptime_ms: 6,
    }
}

fn record(name: &str) -> ServiceRecord {
    let mut def = requested_service(Some(ServiceStartRequest {
        config: Some(service(name)),
    }))
    .ok()
    .unwrap();
    def.env.push(("A".to_string(), "2".to_string()));
    ServiceRecord {
        def,
        id: 1,
        status: "online".to_string(),
        pid: 77,
        restart_count: 0,
        last_started_at: 10,
        last_exited_at: 0,
        last_exit_code: 0,
    }
}

fn refusal(error: ServiceError) -> Refusal {
    Refusal {
        error,
        text: "told".to_string(),
    }
}

#[test]
fn services_are_started_from_complete_requests() {
    assert_eq!(
        requested_service(None),
        Err(ServiceError::InvalidConfig(
            "missing service_start payload".to_string()
        ))
    );
    assert_eq!(
        requested_service(Some(ServiceStartRequest { config: None })),
        Err(ServiceError::InvalidConfig("missing service config".to_string()))
    );
    let response = handle_service_start(4, Ok(record("web")));
    assert_eq!(response.request_id, 4);
    assert_eq!(response.code, StatusCode::Done);
    match response.payload {
        Some(Payload::ServiceStart(state)) => {
            assert_eq!(state.name, "web");
            assert_eq!(state.config.env, vec![("A".to_string(), "2".to_string())]);
            assert_eq!(state.pid, 77);
        }
        _ => panic!("state"),
    }
}

#[test]
fn refusals_of_the_registry_keep_their_class() {
    for (error, code) in [
        (ServiceError::NotFound("x".to_string()), StatusCode::NotFound),
        (
            ServiceError::AlreadyExists("x".to_string()),
            StatusCode::InvalidArgument,
        ),
        (
            ServiceError::InvalidConfig("x".to_string()),
            StatusCode::InvalidArgument,
        ),
        (ServiceError::Spawn("x".to_string()), StatusCode::Internal),
        (ServiceError::Db("x".to_string()), StatusCode::Internal),
    ] {
        let response = handle_service_stop(1, Err(refusal(error)));
        assert_eq!(response.code, code);
        assert_eq!(response.message, "told");
        assert!(response.payload.is_none());
    }
}

#[test]
fn service_requests_are_answered_with_their_payload() {
    assert_eq!(requested_target(None), "");
    assert_eq!(requested_target(Some("web".to_string())), "web");
    assert_eq!(
        handle_service_stop(1, Ok(2)).payload,
        Some(Payload::ServiceStop { stopped_count: 2 })
    );
    assert_eq!(
        handle_service_restart(1, Ok(3)).payload,
        Some(Payload::ServiceRestart { restarted_count: 3 })
    );
    assert_eq!(
        handle_service_delete(1, Ok(4)).payload,
        Some(Payload::ServiceDelete { deleted_count: 4 })
    );
    match handle_service_list(1, Ok(vec![record("a"), record("b"), record("c")])).payload {
        Some(Payload::ServiceList(states)) => {
            let names: Vec<&str> = states.iter().map(|s| s.name.as_str()).collect();
            assert_eq!(names, vec!["a", "b", "c"]);
        }
        _ => panic!("list"),
    }
    assert!(matches!(
        handle_service_describe(1, Ok(record("a"))).payload,
        Some(Payload::ServiceDescribe(state)) if state.name == "a"
    ));
    assert_eq!(handle_service_logs(1).payload, Some(Payload::ServiceLogs));
    assert_eq!(handle_service_flush(1).payload, Some(Payload::ServiceFlush));
    assert_eq!(handle_service_save(1).payload, Some(Payload::ServiceSave));
    assert_eq!(
        handle_service_resurrect(1).payload,
        Some(Payload::ServiceResurrect)
    );
}

fn relaying() -> CompileSession {
    let session = run_compile_session();
    let (session, action) = step_session(session, SessionEvent::Spawned(Ok(())));
    assert!(matches!(action, SessionAction::Relay));
    session
}

#[test]
fn a_session_ends_with_its_child() {
    let session = relaying();
    let (session, action) = step_session(session, SessionEvent::FromChild(Some(FrameKind::Stdout)));
    assert!(matches!(action, SessionAction::Send));
    let (session, action) = step_session(session, SessionEvent::Sent(Ok(())));
    assert!(matches!(action, SessionAction::Relay));
    let (session, _) = step_session(session, SessionEvent::FromChild(Some(FrameKind::Exit)));
    let (session, action) = step_session(session, SessionEvent::Sent(Ok(())));
    assert!(matches!(action, SessionAction::Reap));
    assert!(!session.stdin_open);
    let exit = SessionExit { code: 5 };
    let (session, action) =
        step_session(session, SessionEvent::Reaped(PumpEnd::Returned(Ok(exit))));
    assert!(matches!(action, SessionAction::Finish(Ok(e)) if e.code == 5));
    assert_eq!(session.stage, SessionStage::Over);
    assert_eq!(OUTBOUND_FRAME_CAPACITY, 64);
}

#[test]
fn the_end_of_input_closes_the_pump_and_later_frames_are_dropped() {
    let session = relaying();
    let (session, action) = step_session(
        session,
        SessionEvent::FromClient(FromClient::Frame(FrameKind::StdinEof)),
    );
    assert!(matches!(action, SessionAction::Forward));
    let (session, action) = step_session(session, SessionEvent::Forwarded(true));
    assert!(matches!(action, SessionAction::Relay));
    assert!(!session.stdin_open);
    let (session, action) = step_session(
        session,
        SessionEvent::FromClient(FromClient::Frame(FrameKind::Stdin)),
    );
    assert!(matches!(action, SessionAction::Relay));
    let (_, action) = step_session(session, SessionEvent::FromClient(FromClient::Malformed));
    assert!(matches!(action, SessionAction::Relay));
}

#[test]
fn transport_failures_end_a_session_with_their_text() {
    let text = |action: SessionAction| match action {
        SessionAction::Finish(Err(failure)) => failure.text,
        _ => panic!("fails"),
    };
    let (_, action) = step_session(
        relaying(),
        SessionEvent::FromClient(FromClient::Failed("reset".to_string())),
    );
    assert_eq!(text(action), "session recv failed: reset");
    let (session, _) = step_session(relaying(), SessionEvent::FromChild(Some(FrameKind::Stderr)));
    let (_, action) = step_session(session, SessionEvent::Sent(Err("full".to_string())));
    assert_eq!(text(action), "session send failed: full");
    let (session, _) = step_session(relaying(), SessionEvent::FromChild(None));
    let (_, action) = step_session(
        session,
        SessionEvent::Reaped(PumpEnd::Panicked("oops".to_string())),
    );
    assert_eq!(text(action), "compile-session pump panicked: oops");
}

fn failure() -> IoFailure {
    IoFailure {
        kind: ErrorKind::BrokenPipe,
        raw_os_error: None,
        text: "gone".to_string(),
    }
}

#[test]
fn probes_are_answered_and_the_session_gets_the_rest() {
    let mut connection = serve_backend_connection();
    assert_eq!(
        connection.step(BackendEvent::Judged(Verdict::NeedMoreBytes)),
        BackendAction::Read
    );
    assert_eq!(
        connection.step(BackendEvent::Read(b"PROBEsession".to_vec())),
        BackendAction::Judge
    );
    assert_eq!(connection.pending(), b"PROBEsession".to_vec());
    assert_eq!(
        connection.step(BackendEvent::Judged(Verdict::ProbeAnswered {
            reply: b"me".to_vec(),
            consumed: 5,
        })),
        BackendAction::Reply(b"me".to_vec())
    );
    assert_eq!(connection.step(BackendEvent::Replied), BackendAction::Judge);
    assert_eq!(connection.pending_len(), 7);
    assert_eq!(
        connection.step(BackendEvent::Judged(Verdict::Payload)),
        BackendAction::MakeGroup
    );
    assert_eq!(
        connection.step(BackendEvent::GroupMade),
        BackendAction::TakeOver(b"session".to_vec())
    );
    assert_eq!(
        connection.step(BackendEvent::SessionEnded(Ok(()))),
        BackendAction::Finish(Ok(()))
    );
    assert_eq!(connection.stage(), BackendStage::Over);
}

#[test]
fn backend_connections_end_as_they_should() {
    let mut quiet = serve_backend_connection();
    quiet.step(BackendEvent::Judged(Verdict::NeedMoreBytes));
    assert_eq!(
        quiet.step(BackendEvent::Read(vec![])),
        BackendAction::Finish(Ok(()))
    );
    let mut legacy = serve_backend_connection();
    match legacy.step(BackendEvent::Judged(Verdict::Legacy)) {
        BackendAction::Finish(Err(failure)) => assert_eq!(
            failure.text,
            "unexpected legacy-wire bytes on the SESSION backend endpoint"
        ),
        _ => panic!("fails"),
    }
    let mut bad = serve_backend_connection();
    match bad.step(BackendEvent::Judged(Verdict::Failed("odd".to_string()))) {
        BackendAction::Finish(Err(failure)) => {
            assert_eq!(failure.kind, ErrorKind::InvalidData);
            assert_eq!(failure.text, "odd");
        }
        _ => panic!("fails"),
    }
    let mut broken = serve_backend_connection();
    broken.step(BackendEvent::Judged(Verdict::NeedMoreBytes));
    assert_eq!(
        broken.step(BackendEvent::Failed(failure())),
        BackendAction::Finish(Err(failure()))
    );
}

#[test]
fn only_a_failing_listener_ends_an_endpoint() {
    assert_eq!(
        serve_session_endpoint(EndpointEvent::Accepted),
        EndpointAction::Begin
    );
    assert_eq!(
        serve_session_endpoint(EndpointEvent::GroupFailed(failure())),
        EndpointAction::Drop
    );
    assert_eq!(
        serve_session_endpoint(EndpointEvent::AcceptFailed(failure())),
        EndpointAction::Finish(failure())
    );
    assert_eq!(
        serve_backend_endpoint(EndpointEvent::Ended(Err(failure()))),
        EndpointAction::Report("running-process-daemon: backend connection ended: gone".to_string())
    );
    assert_eq!(
        serve_backend_endpoint(EndpointEvent::Ended(Ok(()))),
        EndpointAction::Drop
    );
}

#[test]
fn shutdown_requests_stay_and_completions_outlive_their_producer() {
    let mut shutdown = SessionOutputShutdown::new();
    assert!(!shutdown.requested());
    shutdown.request();
    assert!(shutdown.requested());
    assert!(matches!(shutdown.wait(), ShutdownWait::Pending));
    shutdown.complete(Ok(()));
    shutdown.drop_producer();
    assert!(matches!(shutdown.wait(), ShutdownWait::Ended(Ok(()))));
    let mut abandoned = SessionOutputShutdown::new();
    abandoned.drop_producer();
    assert!(matches!(
        abandoned.wait(),
        ShutdownWait::Ended(Err(ProcessError::NotRunning))
    ));
    let mut failed = SessionOutputShutdown::new();
    failed.complete(Err(IoFailure {
        kind: ErrorKind::Other,
        raw_os_error: None,
        text: "output pump panicked".to_string(),
    }));
    assert!(matches!(
        failed.wait(),
        ShutdownWait::Ended(Err(ProcessError::Io(failure)))
            if failure.kind == ErrorKind::Other && failure.text.contains("pump panicked")
    ));
}
