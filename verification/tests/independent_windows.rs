//! Independent placement through a task scheduler, and its helper.

use running_process::errors::{ErrorKind, IoFailure};
use running_process::independent_spawn::{
    IndependentSpawnError, LaunchAcknowledgement, LaunchCause, LaunchClock,
};
use running_process::independent_windows::{
    admit_scheduler_text, begin_scheduler_launch, classify, control_absent, scheduler_capability,
    scheduler_exit, step_scheduler_launch, task_name, SchedulerAction, SchedulerClock,
    SchedulerControlError, SchedulerEvent, SchedulerState, SHARING_VIOLATION,
};
use running_process::independent_windows_helper::{
    marker_found, run, step_helper, HelperAction, HelperCause, HelperError, HelperEvent,
    HelperState,
};
use running_process::windows_path::{is_absolute, is_beside, path_parts};

#[test]
fn queued_cancellation_is_acknowledged_without_reading_request() {
    let (state, action) = run(r"C:\private\request", r"C:\private\ack", 1000)
        .ok()
        .unwrap();
    assert!(matches!(action, HelperAction::LookForCancel));
    let (state, action) = step_helper(state, HelperEvent::Marker(true), false);
    assert!(matches!(action, HelperAction::WriteCancelled));
    let (_, action) = step_helper(state, HelperEvent::Done, false);
    assert!(matches!(action, HelperAction::Succeed));
}

#[test]
fn mismatched_acknowledgement_path_is_rejected_before_launch() {
    assert_eq!(
        run(r"C:\private\request", r"C:\other\ack", 1000)
            .err()
            .unwrap()
            .kind(),
        ErrorKind::InvalidInput
    );
}

#[test]
fn an_accepted_target_is_waited_for_and_its_status_written() {
    let (mut state, _) = run(r"C:\p\request", r"C:\p\ack", 1000).ok().unwrap();
    let mut last = HelperAction::Ignore;
    for event in [
        HelperEvent::Marker(false),
        HelperEvent::Done,
        HelperEvent::Done,
        HelperEvent::Marker(false),
        HelperEvent::Done,
        HelperEvent::Done,
        HelperEvent::Marker(false),
        HelperEvent::Marker(true),
    ] {
        let (next, action) = step_helper(state, event, false);
        state = next;
        last = action;
    }
    assert!(matches!(last, HelperAction::WaitForTarget));
    let (state, action) = step_helper(state, HelperEvent::Exited(Some(9)), true);
    assert!(matches!(action, HelperAction::WriteStatus(9)));
    let (_, action) = step_helper(state, HelperEvent::Done, true);
    assert!(matches!(action, HelperAction::Succeed));
}

#[test]
fn a_target_that_nobody_accepts_is_ended() {
    let state = HelperState::LookingForAcceptance;
    let (state, action) = step_helper(state, HelperEvent::Marker(false), true);
    assert!(matches!(action, HelperAction::EndTarget));
    let (state, action) = step_helper(state, HelperEvent::Done, true);
    assert!(matches!(action, HelperAction::WriteCancelled));
    let (_, action) = step_helper(state, HelperEvent::Done, true);
    assert!(matches!(action, HelperAction::Fail(HelperCause::NotAccepted)));
    assert!(marker_found(0).ok().unwrap());
    assert!(matches!(marker_found(1), Err(HelperError::InvalidMarker)));
}

#[test]
fn windows_paths_are_compared_by_their_parts() {
    assert!(is_absolute(r"C:\a"));
    assert!(!is_absolute(r"C:a"));
    assert!(is_beside(r"C:\a\request", "ack", r"C:\a\ack"));
    assert!(!is_beside(r"C:\b\request", "ack", r"C:\a\ack"));
    assert!(is_beside(r"C:\private\request", "ack", r"c:\private\ack"));
    assert!(!is_beside(r"C:\private\request", "ack", r"D:\private\ack"));
    assert!(!is_beside(r"C:\private\request", "ack", r"C:\Private\ack"));
    assert!(is_beside(r"\\?\C:\private\request", "ack", r"\\?\c:\private\ack"));
    assert_eq!(path_parts(r"C:\a\b").last().map(|s| s.as_str()), Some("b"));
}

fn clock(elapsed: u128) -> SchedulerClock {
    SchedulerClock {
        launch: LaunchClock {
            cancelled: false,
            elapsed,
            timeout: 100,
        },
        cleanup_expired: false,
    }
}

#[test]
fn a_scheduled_launch_is_delivered_after_publication() {
    let ack = LaunchAcknowledgement {
        pid: 2,
        start_key: 3,
        supervisor_pid: 4,
        supervisor_key: 5,
    };
    let (mut state, action) = begin_scheduler_launch(true, clock(0).launch).ok().unwrap();
    assert!(matches!(action, SchedulerAction::WriteTask));
    let mut last = action;
    for event in [
        SchedulerEvent::Done,
        SchedulerEvent::Done,
        SchedulerEvent::Done,
        SchedulerEvent::Acknowledgement(Some(ack)),
        SchedulerEvent::Done,
        SchedulerEvent::Done,
        SchedulerEvent::Done,
        SchedulerEvent::Done,
        SchedulerEvent::Supervisor { exited: false },
    ] {
        assert!(!matches!(last, SchedulerAction::Deliver(_)));
        let (next, action) = step_scheduler_launch(state, event, clock(1));
        state = next;
        last = action;
    }
    assert!(matches!(last, SchedulerAction::Publish));
    let (state, action) = step_scheduler_launch(state, SchedulerEvent::Done, clock(2));
    assert!(matches!(action, SchedulerAction::Deliver(a) if a.supervisor_pid == 4));
    assert!(matches!(state, SchedulerState::Finished));
}

#[test]
fn scheduler_texts_and_exits() {
    assert!(matches!(
        admit_scheduler_text("0".repeat(129)),
        Err(SchedulerControlError::Oversized)
    ));
    assert!(matches!(scheduler_exit(Some("12"), false), Ok(Some(12))));
    assert!(matches!(scheduler_exit(None, false), Ok(None)));
    assert!(matches!(
        scheduler_exit(None, true),
        Err(SchedulerControlError::StatusMissing)
    ));
    assert!(matches!(
        scheduler_exit(Some("x"), true),
        Err(SchedulerControlError::InvalidExitStatus)
    ));
    assert!(control_absent(ErrorKind::NotFound, None));
    assert!(control_absent(ErrorKind::Other, Some(SHARING_VIOLATION)));
    assert!(!control_absent(ErrorKind::Other, Some(5)));
    assert!(task_name(3, 4).contains('3'));
    assert!(scheduler_capability(Ok(())).available);
    assert!(!scheduler_capability(Err("no".to_string())).available);
    assert!(matches!(
        classify(IoFailure {
            kind: ErrorKind::PermissionDenied,
            raw_os_error: None,
            text: "no".to_string(),
        }),
        IndependentSpawnError::PermissionDenied { .. }
    ));
    assert!(matches!(LaunchCause::Cancelled.into_error(1), IndependentSpawnError::Cancelled));
}
