//! Native processes: starting, capturing, waiting and killing.

use running_process::capture::{CaptureState, NextItem};
use running_process::errors::{ErrorKind, IoFailure};
use running_process::host::HostOs;
use running_process::native_process::{
    build_command, capture_poll_action, step_kill, step_start,
    wait_for_capture_readers_with_deadline, waiter_turn, CapturePollAction, ChildLook,
    CloseEvent, CloseTurn, DrainTurn, KillAction, KillEvent, PlannedProgram, PollTurn, ReadTurn, StartAction,
    StartEvent, WaitTurn, WaiterAction,
};
use running_process::{
    CommandSpec, NativeProcess, ProcessConfig, ProcessError, ReadStatus, StderrMode, StdinMode,
    StreamKind,
};

fn failure(kind: ErrorKind, raw_os_error: Option<i32>, text: &str) -> IoFailure {
    IoFailure {
        kind,
        raw_os_error,
        text: text.to_string(),
    }
}

fn config(capture: bool) -> ProcessConfig {
    ProcessConfig {
        command: CommandSpec::Argv(vec!["prog".to_string(), "a".to_string(), "".to_string()]),
        cwd: Some("/here".to_string()),
        env: None,
        capture,
        stderr_mode: StderrMode::Pipe,
        creationflags: None,
        create_process_group: true,
        stdin_mode: StdinMode::Piped,
        nice: Some(3),
        address_space_limit_bytes: Some(9),
    }
}

#[test]
fn commands_are_planned_from_their_configuration() {
    let plan = build_command(&config(true), true);
    match plan.program {
        PlannedProgram::Direct { program, args } => {
            assert_eq!(program, "prog");
            assert_eq!(args, vec!["a".to_string(), "".to_string()]);
        }
        PlannedProgram::Shell(_) => panic!("argv"),
    }
    assert_eq!(plan.cwd, Some("/here".to_string()));
    assert!(plan.limits.create_process_group);
    assert_eq!(plan.limits.nice, Some(3));
    assert_eq!(plan.limits.address_space_limit_bytes, Some(9));
    assert!(plan.limits.kill_when_owner_dies);
    let mut shell = config(false);
    shell.command = CommandSpec::Shell("exit 0".to_string());
    assert!(matches!(
        build_command(&shell, false).program,
        PlannedProgram::Shell(text) if text == "exit 0"
    ));
}

#[test]
fn a_start_runs_to_success() {
    let process = NativeProcess::new(config(true));
    let (context, mut state, mut action) = process
        .start(false, false, true, HostOs::Linux)
        .ok()
        .unwrap();
    assert!(matches!(
        action,
        StartAction::Spawn { exact_trace: false, pipe_output: true }
    ));
    let mut steps = 0;
    while !matches!(action, StartAction::Succeed) {
        let (next, following) = step_start(context, state, StartEvent::Done);
        state = next;
        action = following;
        steps += 1;
        assert!(steps < 20, "a start ends");
    }
}

#[test]
fn a_capture_that_cannot_be_set_up_ends_the_child() {
    let process = NativeProcess::new(config(true));
    let (context, mut state, mut action) = process
        .start(false, false, false, HostOs::Linux)
        .ok()
        .unwrap();
    while !matches!(action, StartAction::PrepareStdout) {
        let (next, following) = step_start(context, state, StartEvent::Done);
        state = next;
        action = following;
    }
    let cause = failure(ErrorKind::Other, Some(24), "too many open files");
    let (_, action) = step_start(context, state, StartEvent::Failed(cause.clone()));
    match action {
        StartAction::Fail(failed) => {
            assert!(failed.end_child);
            assert_eq!(failed.error, ProcessError::Spawn(cause));
        }
        _ => panic!("fails"),
    }
}

#[test]
fn a_process_is_started_once() {
    let mut process = NativeProcess::new(config(false));
    assert!(process.pid().is_none());
    process.install(77, true);
    assert_eq!(process.pid(), Some(77));
    assert!(matches!(
        process.start(false, false, false, HostOs::Linux),
        Err(ProcessError::AlreadyStarted)
    ));
}

#[test]
fn exits_are_announced_once_and_kept() {
    let mut process = NativeProcess::new(config(false));
    process.install(5, false);
    assert!(matches!(process.poll(), PollTurn::Look));
    assert!(process.record_exit(7));
    assert!(!process.record_exit(7));
    assert_eq!(process.returncode(), Some(7));
    assert!(matches!(process.poll(), PollTurn::Report(Some(7))));
    assert!(matches!(
        process.wait(0, Some(0)),
        WaitTurn::Report(Ok(7)) | WaitTurn::Drain(7)
    ));
}

#[test]
fn waits_time_out() {
    let mut process = NativeProcess::new(config(false));
    assert!(matches!(
        process.wait(0, None),
        WaitTurn::Report(Err(ProcessError::NotRunning))
    ));
    process.install(5, false);
    assert!(matches!(
        process.wait(10, Some(10)),
        WaitTurn::Report(Err(ProcessError::Timeout))
    ));
    assert!(matches!(process.wait(0, Some(10)), WaitTurn::WaitFor(10)));
}

#[test]
fn polls_record_what_they_see() {
    let mut process = NativeProcess::new(config(false));
    process.install(5, false);
    let (r, announced) = process.polled(Ok(Some(4)));
    assert!(matches!(r, Ok(Some(4))));
    assert!(announced);
    assert_eq!(process.returncode(), Some(4));
}

#[test]
fn standard_input_must_be_open() {
    let mut process = NativeProcess::new(config(false));
    assert!(matches!(process.check_stdin(), Err(ProcessError::NotRunning)));
    process.install(5, false);
    assert!(matches!(
        process.check_stdin(),
        Err(ProcessError::StdinUnavailable)
    ));
    let mut process = NativeProcess::new(config(false));
    process.install(5, true);
    assert!(process.write_stdin_streaming(Ok(())).is_ok());
    let broken = failure(ErrorKind::BrokenPipe, Some(32), "broken pipe");
    assert_eq!(
        process.write_stdin_streaming(Err(broken.clone())),
        Err(ProcessError::Io(broken))
    );
    assert!(process.close_stdin().is_ok());
    assert!(process.check_stdin().is_err());
}

#[test]
fn lines_reach_every_list_in_order() {
    let mut process = NativeProcess::new(config(true));
    process.install(5, false);
    assert!(process.feed(
        StreamKind::Stdout,
        b"a\nb\n",
        &vec![b"a".to_vec(), b"b".to_vec()],
    ));
    assert!(process.feed(StreamKind::Stderr, b"e\n", &vec![b"e".to_vec()]));
    assert!(process.has_pending_stream(StreamKind::Stdout));
    assert!(process.has_pending_combined());
    assert!(matches!(
        process.read_stream(StreamKind::Stdout, false, None),
        ReadTurn::Report(ReadStatus::Line(line)) if line == b"a"
    ));
    assert_eq!(process.drain_stream(StreamKind::Stdout), vec![b"b".to_vec()]);
    let combined = process.drain_combined();
    assert_eq!(combined.len(), 3);
    assert_eq!(combined[2].stream, StreamKind::Stderr);
    assert_eq!(process.captured_stdout(), vec![b"a".to_vec(), b"b".to_vec()]);
    assert_eq!(process.captured_stderr(), vec![b"e".to_vec()]);
    assert_eq!(process.captured_raw(StreamKind::Stdout), b"a\nb\n".to_vec());
    assert_eq!(process.captured_combined().len(), 3);
    assert_eq!(process.captured_stream_bytes(StreamKind::Stdout), 2);
    assert_eq!(process.captured_combined_bytes(), 3);
    assert!(matches!(
        process.read_stream(StreamKind::Stdout, true, None),
        ReadTurn::Report(ReadStatus::Timeout)
    ));
    process.finish_reader(StreamKind::Stdout, StreamKind::Stdout, b"tail");
    process.finish_reader(StreamKind::Stderr, StreamKind::Stderr, b"");
    assert!(matches!(
        process.read_stream(StreamKind::Stdout, false, None),
        ReadTurn::Report(ReadStatus::Line(line)) if line == b"tail"
    ));
    assert!(matches!(
        process.read_stream(StreamKind::Stdout, false, None),
        ReadTurn::Report(ReadStatus::Eof)
    ));
    assert!(matches!(process.finalize_capture(false), DrainTurn::Drained));
    assert_eq!(process.clear_captured_stream(StreamKind::Stdout), 6);
    assert!(process.clear_captured_combined() > 0);
}

#[test]
fn a_capture_limit_bounds_the_raw_bytes() {
    let mut capture = CaptureState::new(true, Some(3));
    assert!(capture.append_raw(StreamKind::Stdout, b"ab"));
    assert!(!capture.append_raw(StreamKind::Stderr, b"cd"));
    assert!(capture.has_overflowed());
    assert!(
        capture.captured_raw(StderrMode::Pipe, StreamKind::Stdout).len()
            + capture.captured_raw(StderrMode::Pipe, StreamKind::Stderr).len()
            <= 3
    );
    assert!(matches!(
        capture.next_line(StderrMode::Pipe, StreamKind::Stdout),
        NextItem::Pending
    ));
    capture.force_complete();
    assert!(capture.is_complete());
    assert!(matches!(
        capture.next_line(StderrMode::Pipe, StreamKind::Stdout),
        NextItem::Ended
    ));
}

#[test]
fn a_kill_settles_the_capture() {
    let mut process = NativeProcess::new(config(true));
    assert!(matches!(
        process.kill(HostOs::Linux),
        Err(ProcessError::NotRunning)
    ));
    process.install(5, false);
    let (mut state, mut action) = process.kill(HostOs::Linux).ok().unwrap();
    let mut saw_cancel = false;
    let mut steps = 0;
    loop {
        saw_cancel = saw_cancel || matches!(action, KillAction::CancelCapture);
        let event = match action {
            KillAction::Succeed => break,
            KillAction::Fail(_) => panic!("kill fails"),
            KillAction::TryWait => KillEvent::Exit(None),
            KillAction::WaitForExit => KillEvent::Exit(Some(-9)),
            KillAction::ReapUntilDeadline => KillEvent::Exit(Some(-9)),
            _ => KillEvent::Done,
        };
        let (next, following) = step_kill(true, state, event);
        state = next;
        action = following;
        steps += 1;
        assert!(steps < 30, "a kill ends");
    }
    assert!(saw_cancel);
}

#[test]
fn waiters_and_polls() {
    assert!(matches!(waiter_turn(true, ChildLook::Running), WaiterAction::Stop));
    assert!(matches!(
        waiter_turn(false, ChildLook::Exited(3)),
        WaiterAction::Record(3)
    ));
    assert!(matches!(
        waiter_turn(false, ChildLook::Running),
        WaiterAction::Pause(_)
    ));
    assert!(matches!(waiter_turn(false, ChildLook::Gone), WaiterAction::Stop));
    assert!(matches!(capture_poll_action(0, 0), CapturePollAction::Wait));
    assert!(matches!(capture_poll_action(1, 0), CapturePollAction::Read));
    assert!(matches!(capture_poll_action(0, 1), CapturePollAction::Cancel));
}

#[test]
fn closing_kills_what_still_runs() {
    let mut process = NativeProcess::new(config(false));
    assert!(matches!(process.close(CloseEvent::Asked, true), Ok(CloseTurn::Done)));
    process.install(5, false);
    assert!(matches!(process.close(CloseEvent::Asked, true), Ok(CloseTurn::Poll)));
    assert!(matches!(
        process.close(CloseEvent::Polled(Ok(None)), true),
        Ok(CloseTurn::Kill)
    ));
    assert!(matches!(
        process.close(CloseEvent::Polled(Ok(Some(0))), true),
        Ok(CloseTurn::Drain)
    ));
    assert!(process
        .close(CloseEvent::Polled(Err(ProcessError::NotRunning)), true)
        .is_err());
    assert!(matches!(
        process.close(CloseEvent::Ended, true),
        Ok(CloseTurn::CloseWatch)
    ));
    assert!(matches!(process.close(CloseEvent::Ended, false), Ok(CloseTurn::Done)));
    assert!(matches!(process.terminate_group_soft(), Ok(Some(5))));
    let _ = process.terminate(HostOs::Linux);
}

#[test]
fn capture_readers_are_waited_for_until_the_deadline() {
    assert_eq!(wait_for_capture_readers_with_deadline(0, true), Some(true));
    assert_eq!(wait_for_capture_readers_with_deadline(2, true), Some(false));
    assert_eq!(wait_for_capture_readers_with_deadline(2, false), None);
}

#[test]
fn exit_is_announced_once() {
    let mut process = NativeProcess::new(config(true));
    assert!(process.record_exit(3));
    assert!(!process.record_exit(3));
    assert_eq!(process.returncode(), Some(3));
}

#[test]
fn failures_of_the_host_are_handed_on_whole() {
    let mut process = NativeProcess::new(config(false));
    process.install(5, true);
    let denied = failure(ErrorKind::PermissionDenied, Some(1), "operation not permitted");
    assert_eq!(
        process.polled(Err(denied.clone())),
        (Err(ProcessError::Io(denied.clone())), false)
    );
    let (state, action) = process.kill(HostOs::Linux).ok().unwrap();
    assert_eq!(action, KillAction::TryWait);
    let (_, action) = step_kill(false, state, KillEvent::Failed(denied.clone()));
    assert_eq!(action, KillAction::Fail(ProcessError::Io(denied)));
}
