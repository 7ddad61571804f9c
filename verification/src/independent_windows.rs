//! An independent launch by the Windows task scheduler, from the caller's side,
//! as a state machine over the events of the outside.

use crate::errors::{ErrorKind, IoFailure};
use crate::independent_spawn::{
    interrupted, interruption, IndependentSpawnBackend, IndependentSpawnCapability,
    IndependentSpawnError, LaunchAcknowledgement, LaunchCause, LaunchClock, LaunchRefusal,
    LaunchStage, SpawnErrorModel, MAX_CONTROL_BYTES,
};
use crate::text::{append_decimal, decimal, parse_signed, signed_number};
use vstd::prelude::*;
use vstd::string::*;
use vstd::utf8::*;

verus! {

/// The capability report, given what the probe of the helper and the scheduler
/// gave.
pub fn scheduler_capability(probe: Result<(), String>) -> (c: IndependentSpawnCapability)
    ensures
        c.available == (probe is Ok),
        c.backend == Some(IndependentSpawnBackend::WindowsTaskScheduler),
        c.reason@ == (match probe {
            Ok(()) => "helper installed, interactive token present, scheduler reachable; registration and placement are verified at launch"@,
            Err(text) => text@,
        }),
{
    match probe {
        Ok(()) => IndependentSpawnCapability {
            available: true,
            backend: Some(IndependentSpawnBackend::WindowsTaskScheduler),
            reason:
                "helper installed, interactive token present, scheduler reachable; registration and placement are verified at launch".to_owned(),
        },
        Err(text) => IndependentSpawnCapability {
            available: false,
            backend: Some(IndependentSpawnBackend::WindowsTaskScheduler),
            reason: text,
        },
    }
}

/// The launch error for an operating-system failure on Windows.
pub fn classify(failure: IoFailure) -> (e: IndependentSpawnError)
    ensures
        e@ == (if failure.kind == ErrorKind::Unsupported {
            SpawnErrorModel::Unsupported(failure.text@)
        } else if failure.kind == ErrorKind::PermissionDenied {
            SpawnErrorModel::PermissionDenied(failure.text@)
        } else {
            SpawnErrorModel::Launch(failure.text@)
        }),
{
    if failure.kind == ErrorKind::Unsupported {
        IndependentSpawnError::Unsupported { reason: failure.text }
    } else if failure.kind == ErrorKind::PermissionDenied {
        IndependentSpawnError::PermissionDenied { reason: failure.text }
    } else {
        IndependentSpawnError::Launch { reason: failure.text }
    }
}

/// Name of the scheduler task for a launch.
pub open spec fn task_text(pid: nat, suffix: nat) -> Seq<char> {
    "running-process-independent-"@ + decimal(pid) + "-"@ + decimal(suffix)
}

/// Name of the scheduler task for a launch by a process at some moment.
pub fn task_name(pid: u32, suffix: u128) -> (s: String)
    ensures
        s@ == task_text(pid as nat, suffix as nat),
{
    let mut s: String = "running-process-independent-".to_owned();
    append_decimal(&mut s, pid as u128);
    s.append("-");
    append_decimal(&mut s, suffix);
    s
}

/// Error number of a file that another process holds exclusively.
pub const SHARING_VIOLATION: i32 = 32;

/// Whether a control file that cannot be opened is not there yet, or still being
/// written.
pub fn control_absent(kind: ErrorKind, raw_os_error: Option<i32>) -> (b: bool)
    ensures
        b == (kind == ErrorKind::NotFound || raw_os_error == Some(SHARING_VIOLATION)),
{
    let held: bool = match raw_os_error {
        Some(n) => n == SHARING_VIOLATION,
        None => false,
    };
    kind == ErrorKind::NotFound || held
}

/// Why a control file of the scheduler protocol is no evidence.
#[derive(Clone, Copy, Debug, PartialEq, Eq, Structural)]
pub enum SchedulerControlError {
    /// The file is too long.
    Oversized,
    /// The exit status is no number.
    InvalidExitStatus,
    /// The helper left no exit status.
    StatusMissing,
}

impl SchedulerControlError {
    /// Class of this error.
    pub fn kind(&self) -> (k: ErrorKind)
        ensures
            k == (match *self {
                SchedulerControlError::StatusMissing => ErrorKind::BrokenPipe,
                _ => ErrorKind::Other,
            }),
    {
        match self {
            SchedulerControlError::StatusMissing => ErrorKind::BrokenPipe,
            _ => ErrorKind::Other,
        }
    }

    /// Text of this error.
    pub fn message(&self) -> (s: &'static str)
        ensures
            s@ == (match *self {
                SchedulerControlError::Oversized => "oversized helper control artifact"@,
                SchedulerControlError::InvalidExitStatus => "invalid helper exit status"@,
                SchedulerControlError::StatusMissing => "helper exited without target status"@,
            }),
    {
        match self {
            SchedulerControlError::Oversized => "oversized helper control artifact",
            SchedulerControlError::InvalidExitStatus => "invalid helper exit status",
            SchedulerControlError::StatusMissing => "helper exited without target status",
        }
    }
}

/// Admits what was read of a control file.
pub fn admit_scheduler_text(text: String) -> (r: Result<String, SchedulerControlError>)
    ensures
        match r {
            Ok(t) => t == text && encode_utf8(text@).len() <= MAX_CONTROL_BYTES,
            Err(e) => e == SchedulerControlError::Oversized && encode_utf8(text@).len()
                > MAX_CONTROL_BYTES,
        },
{
    if text.as_str().as_bytes().len() > MAX_CONTROL_BYTES {
        Err(SchedulerControlError::Oversized)
    } else {
        Ok(text)
    }
}

/// Judges what the status file held; `helper_gone` says whether the helper was
/// seen to be gone before the file was read. `None`: the target still runs.
pub fn scheduler_exit(text: Option<&str>, helper_gone: bool) -> (r: Result<
    Option<i32>,
    SchedulerControlError,
>)
    ensures
        match text {
            Some(s) => match signed_number(s@) {
                Some(n) => r == Ok::<Option<i32>, SchedulerControlError>(Some(n as i32)),
                None => r == Err::<Option<i32>, SchedulerControlError>(
                    SchedulerControlError::InvalidExitStatus,
                ),
            },
            None => if helper_gone {
                r == Err::<Option<i32>, SchedulerControlError>(
                    SchedulerControlError::StatusMissing,
                )
            } else {
                r == Ok::<Option<i32>, SchedulerControlError>(None)
            },
        },
{
    match text {
        Some(s) => match parse_signed(s) {
            Some(status) => Ok(Some(status)),
            None => Err(SchedulerControlError::InvalidExitStatus),
        },
        None => if helper_gone {
            Err(SchedulerControlError::StatusMissing)
        } else {
            Ok(None)
        },
    }
}

/// Artifacts that are removed at the end of a scheduler launch.
pub const SCHEDULER_ARTIFACTS: [&'static str; 8] = [
    "request",
    "ack",
    "accepted",
    "accepted.tmp",
    "cancel",
    "cancelled",
    "ack.status",
    "task.xml",
];

/// Milliseconds between two looks of the caller.
pub const SCHEDULER_PAUSE_MS: u64 = 10;

/// Facts that every step of a scheduler launch looks at.
#[derive(Clone, Copy, Debug, PartialEq, Eq, Structural)]
pub struct SchedulerClock {
    /// The clock of the launch.
    pub launch: LaunchClock,
    /// Whether the wait for a cleanup is over.
    pub cleanup_expired: bool,
}

/// Why a cleanup could not be confirmed.
#[derive(Clone, Debug, PartialEq, Eq)]
pub enum Unconfirmed {
    /// It is unknown whether the task was registered.
    Registration,
    /// The helper did not confirm in time.
    NotAcknowledged,
    /// Something outside failed.
    Outside(String),
}

impl Unconfirmed {
    /// The reason in words.
    pub open spec fn text(self) -> Seq<char> {
        match self {
            Unconfirmed::Registration => "registration outcome is unknown; retained private request for reconciliation"@,
            Unconfirmed::NotAcknowledged => "target cleanup was not acknowledged"@,
            Unconfirmed::Outside(text) => text@,
        }
    }

    /// The reason in words.
    pub fn into_text(self) -> (s: String)
        ensures
            s@ == self.text(),
    {
        match self {
            Unconfirmed::Registration => "registration outcome is unknown; retained private request for reconciliation".to_owned(),
            Unconfirmed::NotAcknowledged => "target cleanup was not acknowledged".to_owned(),
            Unconfirmed::Outside(text) => text,
        }
    }
}

/// The end of a failed scheduler launch.
#[derive(Debug)]
pub struct SchedulerFailure {
    /// Why it failed.
    pub cause: LaunchCause,
    /// Why its cleanup could not be confirmed, if so.
    pub unconfirmed: Option<Unconfirmed>,
}

impl SchedulerFailure {
    /// The launch error of this end.
    pub open spec fn model(self, timeout: u128, task: Seq<char>) -> SpawnErrorModel {
        match self.unconfirmed {
            Some(reason) => SpawnErrorModel::CleanupUnconfirmed(
                Box::new(self.cause.model(timeout)),
                task,
                reason.text(),
            ),
            None => self.cause.model(timeout),
        }
    }

    /// The launch error of this end.
    pub fn into_error(self, timeout: u128, task: &str) -> (e: IndependentSpawnError)
        ensures
            e@ == self.model(timeout, task@),
    {
        let cause = self.cause.into_error(timeout);
        match self.unconfirmed {
            Some(reason) => IndependentSpawnError::CleanupUnconfirmed {
                cause: Box::new(cause),
                resource: task.to_owned(),
                reason: reason.into_text(),
            },
            None => cause,
        }
    }
}

/// Where a scheduler launch stands.
#[derive(Debug)]
pub enum SchedulerState {
    /// The task description is being written.
    Writing,
    /// The task is being registered.
    Registering,
    /// The task is being started.
    Starting,
    /// The helper has not reported.
    AwaitingAcknowledgement,
    /// The identities are being verified.
    Verifying(LaunchAcknowledgement),
    /// The registration is being deleted.
    Deleting(LaunchAcknowledgement),
    /// The request and the task description are being removed.
    Removing(LaunchAcknowledgement),
    /// The acceptance is being prepared.
    Marking(LaunchAcknowledgement),
    /// The supervisor is being checked.
    Checking(LaunchAcknowledgement),
    /// The acceptance is being published.
    Publishing(LaunchAcknowledgement),
    /// The helper is being told to stop.
    Cancelling {
        /// Why.
        cause: LaunchCause,
        /// Whether the registration is deleted already.
        deleted: bool,
    },
    /// The registration of a failed launch is being deleted.
    Dropping(LaunchCause),
    /// The helper has not confirmed.
    AwaitingConfirmation(LaunchCause),
    /// The artifacts of a failed launch are being removed.
    Discarding(LaunchCause),
    /// The launch is over.
    Finished,
}

/// What happened outside.
#[derive(Debug)]
pub enum SchedulerEvent {
    /// The action was done.
    Done,
    /// A pause is over.
    Woke,
    /// The acknowledgement was read.
    Acknowledgement(Option<LaunchAcknowledgement>),
    /// The supervisor was checked.
    Supervisor {
        /// Whether it is gone.
        exited: bool,
    },
    /// The confirmation was looked for.
    Confirmation(bool),
    /// The action failed.
    Failed(LaunchCause),
    /// The cleanup failed.
    CleanupFailed(String),
}

/// What has to be done next.
#[derive(Debug)]
pub enum SchedulerAction {
    /// Prepare the request, and write the task description.
    WriteTask,
    /// Register the task.
    Register,
    /// Start the task.
    Start,
    /// Read the acknowledgement.
    ReadAcknowledgement,
    /// Pause for some milliseconds.
    Pause(u64),
    /// Verify that both identities are outside the caller's job.
    VerifyIdentities(LaunchAcknowledgement),
    /// Delete the registration; the running task goes on.
    DeleteTask,
    /// Remove the request and the task description.
    RemoveRequest,
    /// Prepare the acceptance marker.
    PrepareMarker,
    /// Check the supervisor.
    CheckSupervisor,
    /// Publish the acceptance marker.
    Publish,
    /// Tell the helper to stop.
    WriteCancel,
    /// Look for the confirmation of the helper.
    LookForConfirmation,
    /// Remove the artifacts.
    RemoveArtifacts,
    /// Hand out the process.
    Deliver(LaunchAcknowledgement),
    /// Report the failure.
    Fail(SchedulerFailure),
    /// Nothing: the event does not belong to the state.
    Ignore,
}

/// The begin of a scheduler launch: a failure here leaves nothing behind.
pub open spec fn scheduler_start(clock: LaunchClock) -> (SchedulerState, SchedulerAction) {
    match interrupted(clock, LaunchStage::Scheduler) {
        Some(cause) => (
            SchedulerState::Finished,
            SchedulerAction::Fail(SchedulerFailure { cause, unconfirmed: None }),
        ),
        None => (SchedulerState::Writing, SchedulerAction::WriteTask),
    }
}

/// The state after a failure, by what exists outside at that moment.
pub open spec fn scheduler_failed(state: SchedulerState, cause: LaunchCause) -> (
    SchedulerState,
    SchedulerAction,
) {
    match state {
        SchedulerState::Writing => (
            SchedulerState::Discarding(cause),
            SchedulerAction::RemoveArtifacts,
        ),
        SchedulerState::Registering => (
            SchedulerState::Finished,
            SchedulerAction::Fail(
                SchedulerFailure { cause, unconfirmed: Some(Unconfirmed::Registration) },
            ),
        ),
        SchedulerState::Starting => (
            SchedulerState::Cancelling { cause, deleted: false },
            SchedulerAction::WriteCancel,
        ),
        SchedulerState::AwaitingAcknowledgement => (
            SchedulerState::Cancelling { cause, deleted: false },
            SchedulerAction::WriteCancel,
        ),
        SchedulerState::Verifying(_) => (
            SchedulerState::Cancelling { cause, deleted: false },
            SchedulerAction::WriteCancel,
        ),
        SchedulerState::Deleting(_) => (
            SchedulerState::Cancelling { cause, deleted: false },
            SchedulerAction::WriteCancel,
        ),
        SchedulerState::Removing(_) => (
            SchedulerState::Cancelling { cause, deleted: true },
            SchedulerAction::WriteCancel,
        ),
        SchedulerState::Marking(_) => (
            SchedulerState::Cancelling { cause, deleted: true },
            SchedulerAction::WriteCancel,
        ),
        SchedulerState::Checking(_) => (
            SchedulerState::Cancelling { cause, deleted: true },
            SchedulerAction::WriteCancel,
        ),
        SchedulerState::Publishing(_) => (
            SchedulerState::Cancelling { cause, deleted: true },
            SchedulerAction::WriteCancel,
        ),
        other => (other, SchedulerAction::Ignore),
    }
}

/// An action that is begun only while the launch may go on.
pub open spec fn scheduler_guarded(
    state: SchedulerState,
    next: SchedulerState,
    action: SchedulerAction,
    clock: LaunchClock,
) -> (SchedulerState, SchedulerAction) {
    match interrupted(clock, LaunchStage::Scheduler) {
        Some(cause) => scheduler_failed(state, cause),
        None => (next, action),
    }
}

/// The next state and action of a scheduler launch.
pub open spec fn scheduler_next(
    state: SchedulerState,
    event: SchedulerEvent,
    clock: SchedulerClock,
) -> (SchedulerState, SchedulerAction) {
    match (state, event) {
        (_, SchedulerEvent::Failed(cause)) => scheduler_failed(state, cause),
        (SchedulerState::Writing, SchedulerEvent::Done) => scheduler_guarded(
            state,
            SchedulerState::Registering,
            SchedulerAction::Register,
            clock.launch,
        ),
        (SchedulerState::Registering, SchedulerEvent::Done) => (
            SchedulerState::Starting,
            SchedulerAction::Start,
        ),
        (SchedulerState::Starting, SchedulerEvent::Done) => scheduler_guarded(
            state,
            SchedulerState::AwaitingAcknowledgement,
            SchedulerAction::ReadAcknowledgement,
            clock.launch,
        ),
        (SchedulerState::AwaitingAcknowledgement, SchedulerEvent::Woke) => scheduler_guarded(
            state,
            SchedulerState::AwaitingAcknowledgement,
            SchedulerAction::ReadAcknowledgement,
            clock.launch,
        ),
        (
            SchedulerState::AwaitingAcknowledgement,
            SchedulerEvent::Acknowledgement(found),
        ) => match found {
            Some(ack) => (SchedulerState::Verifying(ack), SchedulerAction::VerifyIdentities(ack)),
            None => (
                SchedulerState::AwaitingAcknowledgement,
                SchedulerAction::Pause(SCHEDULER_PAUSE_MS),
            ),
        },
        (SchedulerState::Verifying(ack), SchedulerEvent::Done) => (
            SchedulerState::Deleting(ack),
            SchedulerAction::DeleteTask,
        ),
        (SchedulerState::Deleting(ack), SchedulerEvent::Done) => (
            SchedulerState::Removing(ack),
            SchedulerAction::RemoveRequest,
        ),
        (SchedulerState::Removing(ack), SchedulerEvent::Done) => scheduler_guarded(
            state,
            SchedulerState::Marking(ack),
            SchedulerAction::PrepareMarker,
            clock.launch,
        ),
        (SchedulerState::Marking(ack), SchedulerEvent::Done) => scheduler_guarded(
            state,
            SchedulerState::Checking(ack),
            SchedulerAction::CheckSupervisor,
            clock.launch,
        ),
        (SchedulerState::Checking(ack), SchedulerEvent::Supervisor { exited }) => if exited {
            scheduler_failed(state, LaunchCause::Refused(LaunchRefusal::Supervisor))
        } else {
            (SchedulerState::Publishing(ack), SchedulerAction::Publish)
        },
        (SchedulerState::Publishing(ack), SchedulerEvent::Done) => (
            SchedulerState::Finished,
            SchedulerAction::Deliver(ack),
        ),
        (SchedulerState::Cancelling { cause, deleted }, SchedulerEvent::Done) => if deleted {
            (
                SchedulerState::AwaitingConfirmation(cause),
                SchedulerAction::LookForConfirmation,
            )
        } else {
            (SchedulerState::Dropping(cause), SchedulerAction::DeleteTask)
        },
        (SchedulerState::Dropping(cause), SchedulerEvent::Done) => (
            SchedulerState::AwaitingConfirmation(cause),
            SchedulerAction::LookForConfirmation,
        ),
        (SchedulerState::AwaitingConfirmation(cause), SchedulerEvent::Confirmation(found)) => if found {
            (SchedulerState::Discarding(cause), SchedulerAction::RemoveArtifacts)
        } else if clock.cleanup_expired {
            (
                SchedulerState::Finished,
                SchedulerAction::Fail(
                    SchedulerFailure { cause, unconfirmed: Some(Unconfirmed::NotAcknowledged) },
                ),
            )
        } else {
            (
                SchedulerState::AwaitingConfirmation(cause),
                SchedulerAction::Pause(SCHEDULER_PAUSE_MS),
            )
        },
        (SchedulerState::AwaitingConfirmation(cause), SchedulerEvent::Woke) => (
            SchedulerState::AwaitingConfirmation(cause),
            SchedulerAction::LookForConfirmation,
        ),
        (SchedulerState::Discarding(cause), SchedulerEvent::Done) => (
            SchedulerState::Finished,
            SchedulerAction::Fail(SchedulerFailure { cause, unconfirmed: None }),
        ),
        (SchedulerState::Cancelling { cause, .. }, SchedulerEvent::CleanupFailed(text)) => (
            SchedulerState::Finished,
            SchedulerAction::Fail(
                SchedulerFailure { cause, unconfirmed: Some(Unconfirmed::Outside(text)) },
            ),
        ),
        (SchedulerState::Dropping(cause), SchedulerEvent::CleanupFailed(text)) => (
            SchedulerState::Finished,
            SchedulerAction::Fail(
                SchedulerFailure { cause, unconfirmed: Some(Unconfirmed::Outside(text)) },
            ),
        ),
        (SchedulerState::AwaitingConfirmation(cause), SchedulerEvent::CleanupFailed(text)) => (
            SchedulerState::Finished,
            SchedulerAction::Fail(
                SchedulerFailure { cause, unconfirmed: Some(Unconfirmed::Outside(text)) },
            ),
        ),
        (other, _) => (other, SchedulerAction::Ignore),
    }
}

/// Begins a scheduler launch. A deadline beyond the range of the clock is not
/// supported.
pub fn begin_scheduler_launch(deadline_in_range: bool, clock: LaunchClock) -> (r: Result<
    (SchedulerState, SchedulerAction),
    IndependentSpawnError,
>)
    ensures
        match r {
            Ok(step) => deadline_in_range && step == scheduler_start(clock),
            Err(e) => !deadline_in_range && e@ == SpawnErrorModel::Unsupported(
                "launch deadline exceeds clock range"@,
            ),
        },
{
    if !deadline_in_range {
        return Err(
            IndependentSpawnError::Unsupported {
                reason: "launch deadline exceeds clock range".to_owned(),
            },
        );
    }
    match interruption(clock, LaunchStage::Scheduler) {
        Some(cause) => Ok(
            (
                SchedulerState::Finished,
                SchedulerAction::Fail(SchedulerFailure { cause, unconfirmed: None }),
            ),
        ),
        None => Ok((SchedulerState::Writing, SchedulerAction::WriteTask)),
    }
}

fn fail_scheduler(state: SchedulerState, cause: LaunchCause) -> (r: (SchedulerState, SchedulerAction))
    ensures
        r == scheduler_failed(state, cause),
{
    match state {
        SchedulerState::Writing => (
            SchedulerState::Discarding(cause),
            SchedulerAction::RemoveArtifacts,
        ),
        SchedulerState::Registering => (
            SchedulerState::Finished,
            SchedulerAction::Fail(
                SchedulerFailure { cause, unconfirmed: Some(Unconfirmed::Registration) },
            ),
        ),
        SchedulerState::Starting | SchedulerState::AwaitingAcknowledgement
        | SchedulerState::Verifying(_) | SchedulerState::Deleting(_) => (
            SchedulerState::Cancelling { cause, deleted: false },
            SchedulerAction::WriteCancel,
        ),
        SchedulerState::Removing(_) | SchedulerState::Marking(_) | SchedulerState::Checking(_)
        | SchedulerState::Publishing(_) => (
            SchedulerState::Cancelling { cause, deleted: true },
            SchedulerAction::WriteCancel,
        ),
        other => (other, SchedulerAction::Ignore),
    }
}

fn guard_scheduler(
    state: SchedulerState,
    next: SchedulerState,
    action: SchedulerAction,
    clock: LaunchClock,
) -> (r: (SchedulerState, SchedulerAction))
    ensures
        r == scheduler_guarded(state, next, action, clock),
{
    match interruption(clock, LaunchStage::Scheduler) {
        Some(cause) => fail_scheduler(state, cause),
        None => (next, action),
    }
}

fn unconfirmed(cause: LaunchCause, reason: Unconfirmed) -> (r: (SchedulerState, SchedulerAction))
    ensures
        r == (
            SchedulerState::Finished,
            SchedulerAction::Fail(SchedulerFailure { cause, unconfirmed: Some(reason) }),
        ),
{
    (
        SchedulerState::Finished,
        SchedulerAction::Fail(SchedulerFailure { cause, unconfirmed: Some(reason) }),
    )
}

/// One step of a scheduler launch.
pub fn step_scheduler_launch(
    state: SchedulerState,
    event: SchedulerEvent,
    clock: SchedulerClock,
) -> (r: (SchedulerState, SchedulerAction))
    ensures
        r == scheduler_next(state, event, clock),
{
    match (state, event) {
        (any, SchedulerEvent::Failed(cause)) => fail_scheduler(any, cause),
        (SchedulerState::Writing, SchedulerEvent::Done) => guard_scheduler(
            SchedulerState::Writing,
            SchedulerState::Registering,
            SchedulerAction::Register,
            clock.launch,
        ),
        (SchedulerState::Registering, SchedulerEvent::Done) => (
            SchedulerState::Starting,
            SchedulerAction::Start,
        ),
        (SchedulerState::Starting, SchedulerEvent::Done) => guard_scheduler(
            SchedulerState::Starting,
            SchedulerState::AwaitingAcknowledgement,
            SchedulerAction::ReadAcknowledgement,
            clock.launch,
        ),
        (SchedulerState::AwaitingAcknowledgement, SchedulerEvent::Woke) => guard_scheduler(
            SchedulerState::AwaitingAcknowledgement,
            SchedulerState::AwaitingAcknowledgement,
            SchedulerAction::ReadAcknowledgement,
            clock.launch,
        ),
        (
            SchedulerState::AwaitingAcknowledgement,
            SchedulerEvent::Acknowledgement(found),
        ) => match found {
            Some(ack) => (SchedulerState::Verifying(ack), SchedulerAction::VerifyIdentities(ack)),
            None => (
                SchedulerState::AwaitingAcknowledgement,
                SchedulerAction::Pause(SCHEDULER_PAUSE_MS),
            ),
        },
        (SchedulerState::Verifying(ack), SchedulerEvent::Done) => (
            SchedulerState::Deleting(ack),
            SchedulerAction::DeleteTask,
        ),
        (SchedulerState::Deleting(ack), SchedulerEvent::Done) => (
            SchedulerState::Removing(ack),
            SchedulerAction::RemoveRequest,
        ),
        (SchedulerState::Removing(ack), SchedulerEvent::Done) => guard_scheduler(
            SchedulerState::Removing(ack),
            SchedulerState::Marking(ack),
            SchedulerAction::PrepareMarker,
            clock.launch,
        ),
        (SchedulerState::Marking(ack), SchedulerEvent::Done) => guard_scheduler(
            SchedulerState::Marking(ack),
            SchedulerState::Checking(ack),
            SchedulerAction::CheckSupervisor,
            clock.launch,
        ),
        (SchedulerState::Checking(ack), SchedulerEvent::Supervisor { exited }) => if exited {
            fail_scheduler(
                SchedulerState::Checking(ack),
                LaunchCause::Refused(LaunchRefusal::Supervisor),
            )
        } else {
            (SchedulerState::Publishing(ack), SchedulerAction::Publish)
        },
        (SchedulerState::Publishing(ack), SchedulerEvent::Done) => (
            SchedulerState::Finished,
            SchedulerAction::Deliver(ack),
        ),
        (SchedulerState::Cancelling { cause, deleted }, SchedulerEvent::Done) => if deleted {
            (
                SchedulerState::AwaitingConfirmation(cause),
                SchedulerAction::LookForConfirmation,
            )
        } else {
            (SchedulerState::Dropping(cause), SchedulerAction::DeleteTask)
        },
        (SchedulerState::Dropping(cause), SchedulerEvent::Done) => (
            SchedulerState::AwaitingConfirmation(cause),
            SchedulerAction::LookForConfirmation,
        ),
        (SchedulerState::AwaitingConfirmation(cause), SchedulerEvent::Confirmation(found)) => if found {
            (SchedulerState::Discarding(cause), SchedulerAction::RemoveArtifacts)
        } else if clock.cleanup_expired {
            unconfirmed(cause, Unconfirmed::NotAcknowledged)
        } else {
            (
                SchedulerState::AwaitingConfirmation(cause),
                SchedulerAction::Pause(SCHEDULER_PAUSE_MS),
            )
        },
        (SchedulerState::AwaitingConfirmation(cause), SchedulerEvent::Woke) => (
            SchedulerState::AwaitingConfirmation(cause),
            SchedulerAction::LookForConfirmation,
        ),
        (SchedulerState::Discarding(cause), SchedulerEvent::Done) => (
            SchedulerState::Finished,
            SchedulerAction::Fail(SchedulerFailure { cause, unconfirmed: None }),
        ),
        (SchedulerState::Cancelling { cause, deleted: _ }, SchedulerEvent::CleanupFailed(text)) => {
            unconfirmed(cause, Unconfirmed::Outside(text))
        },
        (SchedulerState::Dropping(cause), SchedulerEvent::CleanupFailed(text)) => {
            unconfirmed(cause, Unconfirmed::Outside(text))
        },
        (SchedulerState::AwaitingConfirmation(cause), SchedulerEvent::CleanupFailed(text)) => {
            unconfirmed(cause, Unconfirmed::Outside(text))
        },
        (other, _) => (other, SchedulerAction::Ignore),
    }
}

/// A cancelled or expired scheduler launch registers nothing and accepts
/// nothing.
pub proof fn law_no_scheduler_acceptance_after_interruption(
    state: SchedulerState,
    event: SchedulerEvent,
    clock: SchedulerClock,
)
    requires
        clock.launch.cancelled || clock.launch.expired(),
    ensures
        ({
            let action = scheduler_next(state, event, clock).1;
            &&& action !is Register
            &&& action !is PrepareMarker
            &&& action !is CheckSupervisor
            &&& scheduler_start(clock.launch).1 is Fail
        }),
{
}

/// A process is handed out only after its registration was deleted and its
/// acceptance was published, and only the one that was acknowledged.
pub proof fn law_scheduler_delivery_follows_publication(
    state: SchedulerState,
    event: SchedulerEvent,
    clock: SchedulerClock,
)
    ensures
        match scheduler_next(state, event, clock).1 {
            SchedulerAction::Deliver(ack) => state == SchedulerState::Publishing(ack)
                && event is Done,
            SchedulerAction::Publish => state is Checking,
            SchedulerAction::CheckSupervisor => state is Marking && event is Done,
            SchedulerAction::PrepareMarker => state is Removing && event is Done,
            SchedulerAction::RemoveRequest => state is Deleting && event is Done,
            _ => true,
        },
{
}

/// A registered task is never given up silently: the failure is reported after a
/// confirmed cleanup, or it says that the cleanup is unconfirmed.
pub proof fn law_registered_tasks_are_cleaned_up(
    state: SchedulerState,
    event: SchedulerEvent,
    clock: SchedulerClock,
)
    ensures
        match scheduler_next(state, event, clock).1 {
            SchedulerAction::Fail(failure) => failure.unconfirmed is None ==> state is Discarding,
            SchedulerAction::RemoveArtifacts => state is Writing || (state is AwaitingConfirmation
                && event == SchedulerEvent::Confirmation(true)),
            _ => true,
        },
{
}

/// A scheduler launch that is neither cancelled nor late is given up only because
/// something failed or the supervisor is gone.
pub proof fn law_only_failures_end_a_scheduler_launch(
    state: SchedulerState,
    event: SchedulerEvent,
    clock: SchedulerClock,
)
    requires
        !clock.launch.cancelled,
        clock.launch.elapsed < clock.launch.timeout,
        !(event is Failed),
        !(event is CleanupFailed),
        event != (SchedulerEvent::Supervisor { exited: true }),
        !(state is Cancelling || state is Dropping || state is AwaitingConfirmation || state
            is Discarding),
    ensures
        ({
            let (next, action) = scheduler_next(state, event, clock);
            &&& !(action is WriteCancel || action is RemoveArtifacts || action is Fail)
            &&& !(next is Cancelling || next is Dropping || next is AwaitingConfirmation || next
                is Discarding)
            &&& next is Finished ==> state is Finished || action is Deliver
        }),
        scheduler_start(clock.launch) == (SchedulerState::Writing, SchedulerAction::WriteTask),
{
}

/// A scheduler launch in which nothing fails hands out the process that the helper
/// acknowledged, after its registration was deleted and its request removed.
pub proof fn law_undisturbed_scheduler_launch_is_delivered(
    ack: LaunchAcknowledgement,
    clock: SchedulerClock,
)
    requires
        !clock.launch.cancelled,
        clock.launch.elapsed < clock.launch.timeout,
    ensures
        ({
            let done = |state: SchedulerState| scheduler_next(state, SchedulerEvent::Done, clock);
            let registering = done(scheduler_start(clock.launch).0);
            let starting = done(registering.0);
            let waiting = done(starting.0);
            let verifying = scheduler_next(
                waiting.0,
                SchedulerEvent::Acknowledgement(Some(ack)),
                clock,
            );
            let deleting = done(verifying.0);
            let removing = done(deleting.0);
            let marking = done(removing.0);
            let checking = done(marking.0);
            let publishing = scheduler_next(
                checking.0,
                SchedulerEvent::Supervisor { exited: false },
                clock,
            );
            &&& registering.1 is Register
            &&& starting.1 is Start
            &&& waiting.1 is ReadAcknowledgement
            &&& verifying.1 == SchedulerAction::VerifyIdentities(ack)
            &&& deleting.1 is DeleteTask
            &&& removing.1 is RemoveRequest
            &&& marking.1 is PrepareMarker
            &&& checking.1 is CheckSupervisor
            &&& publishing.1 is Publish
            &&& done(publishing.0) == (SchedulerState::Finished, SchedulerAction::Deliver(ack))
        }),
{
}

/// A helper that has not reported is looked for again after 10 milliseconds while the
/// launch goes on, and so is its confirmation until the wait for it is over.
pub proof fn law_scheduler_waits(cause: LaunchCause, clock: SchedulerClock)
    ensures
        scheduler_next(
            SchedulerState::AwaitingAcknowledgement,
            SchedulerEvent::Acknowledgement(None),
            clock,
        ) == (SchedulerState::AwaitingAcknowledgement, SchedulerAction::Pause(10)),
        !clock.launch.cancelled && clock.launch.elapsed < clock.launch.timeout ==> scheduler_next(
            SchedulerState::AwaitingAcknowledgement,
            SchedulerEvent::Woke,
            clock,
        ) == (SchedulerState::AwaitingAcknowledgement, SchedulerAction::ReadAcknowledgement),
        scheduler_next(
            SchedulerState::AwaitingConfirmation(cause),
            SchedulerEvent::Woke,
            clock,
        ) == (
            SchedulerState::AwaitingConfirmation(cause),
            SchedulerAction::LookForConfirmation,
        ),
        !clock.cleanup_expired ==> scheduler_next(
            SchedulerState::AwaitingConfirmation(cause),
            SchedulerEvent::Confirmation(false),
            clock,
        ) == (SchedulerState::AwaitingConfirmation(cause), SchedulerAction::Pause(10)),
        clock.cleanup_expired ==> scheduler_next(
            SchedulerState::AwaitingConfirmation(cause),
            SchedulerEvent::Confirmation(false),
            clock,
        ).1 == SchedulerAction::Fail(
            SchedulerFailure { cause, unconfirmed: Some(Unconfirmed::NotAcknowledged) },
        ),
{
}

/// A failure is met by what exists outside: before the registration the artifacts are
/// removed; while it is uncertain the launch ends unconfirmed; once the task exists
/// the helper is told to stop, and the registration is deleted unless it was already.
pub proof fn law_scheduler_failures_are_met(
    state: SchedulerState,
    cause: LaunchCause,
    clock: SchedulerClock,
)
    ensures
        ({
            let (next, action) = scheduler_next(state, SchedulerEvent::Failed(cause), clock);
            let task_exists = state is Starting || state is AwaitingAcknowledgement || state
                is Verifying || state is Deleting;
            let task_deleted = state is Removing || state is Marking || state is Checking || state
                is Publishing;
            &&& state is Writing ==> next == SchedulerState::Discarding(cause) && action
                is RemoveArtifacts
            &&& state is Registering ==> action == SchedulerAction::Fail(
                SchedulerFailure { cause, unconfirmed: Some(Unconfirmed::Registration) },
            )
            &&& task_exists ==> next == (SchedulerState::Cancelling { cause, deleted: false })
                && action is WriteCancel
            &&& task_deleted ==> next == (SchedulerState::Cancelling { cause, deleted: true })
                && action is WriteCancel
        }),
        ({
            let kept = scheduler_next(
                SchedulerState::Cancelling { cause, deleted: false },
                SchedulerEvent::Done,
                clock,
            );
            &&& kept.1 is DeleteTask
            &&& scheduler_next(kept.0, SchedulerEvent::Done, clock) == (
                SchedulerState::AwaitingConfirmation(cause),
                SchedulerAction::LookForConfirmation,
            )
        }),
        scheduler_next(
            SchedulerState::Cancelling { cause, deleted: true },
            SchedulerEvent::Done,
            clock,
        ) == (
            SchedulerState::AwaitingConfirmation(cause),
            SchedulerAction::LookForConfirmation,
        ),
        ({
            let confirmed = scheduler_next(
                SchedulerState::AwaitingConfirmation(cause),
                SchedulerEvent::Confirmation(true),
                clock,
            );
            &&& confirmed.1 is RemoveArtifacts
            &&& scheduler_next(confirmed.0, SchedulerEvent::Done, clock).1
                == SchedulerAction::Fail(SchedulerFailure { cause, unconfirmed: None })
        }),
{
}

/// A supervisor that is gone is a failure, and an interruption is one wherever the
/// launch would go on to something new.
pub proof fn law_scheduler_interruptions(
    state: SchedulerState,
    event: SchedulerEvent,
    clock: SchedulerClock,
    ack: LaunchAcknowledgement,
)
    ensures
        scheduler_next(
            SchedulerState::Checking(ack),
            SchedulerEvent::Supervisor { exited: true },
            clock,
        ) == (
            SchedulerState::Cancelling {
                cause: LaunchCause::Refused(LaunchRefusal::Supervisor),
                deleted: true,
            },
            SchedulerAction::WriteCancel,
        ),
        ({
            ||| event is Done && (state is Writing || state is Starting || state is Removing
                || state is Marking)
            ||| event is Woke && state is AwaitingAcknowledgement
        }) ==> {
            &&& clock.launch.cancelled ==> scheduler_next(state, event, clock) == scheduler_next(
                state,
                SchedulerEvent::Failed(LaunchCause::Cancelled),
                clock,
            )
            &&& !clock.launch.cancelled && clock.launch.elapsed >= clock.launch.timeout
                ==> scheduler_next(state, event, clock) == scheduler_next(
                state,
                SchedulerEvent::Failed(LaunchCause::Expired(LaunchStage::Scheduler)),
                clock,
            )
        },
        clock.launch.cancelled ==> scheduler_start(clock.launch).1 == SchedulerAction::Fail(
            SchedulerFailure { cause: LaunchCause::Cancelled, unconfirmed: None },
        ),
{
}

/// The cause for which a scheduler launch was given up stays the same until it is
/// reported, and a cleanup that fails is reported with what failed.
pub proof fn law_scheduler_causes_stay(
    state: SchedulerState,
    event: SchedulerEvent,
    clock: SchedulerClock,
    text: String,
)
    ensures
        ({
            let held = match state {
                SchedulerState::Cancelling { cause, .. } => Some(cause),
                SchedulerState::Dropping(cause) => Some(cause),
                SchedulerState::AwaitingConfirmation(cause) => Some(cause),
                SchedulerState::Discarding(cause) => Some(cause),
                _ => None,
            };
            let (next, action) = scheduler_next(state, event, clock);
            held is Some ==> {
                &&& match next {
                    SchedulerState::Cancelling { cause, .. } => cause == held->0,
                    SchedulerState::Dropping(cause) => cause == held->0,
                    SchedulerState::AwaitingConfirmation(cause) => cause == held->0,
                    SchedulerState::Discarding(cause) => cause == held->0,
                    SchedulerState::Finished => action matches SchedulerAction::Fail(failure)
                        && failure.cause == held->0,
                    _ => false,
                }
                &&& event == SchedulerEvent::CleanupFailed(text) && !(state is Discarding) ==> (
                action matches SchedulerAction::Fail(failure) && failure.unconfirmed == Some(
                    Unconfirmed::Outside(text),
                ))
            }
        }),
        scheduler_next(state, event, clock).1 is Ignore ==> scheduler_next(state, event, clock).0
            == state,
        state is Finished ==> scheduler_next(state, event, clock).1 is Ignore,
{
}

/// The error of a failed scheduler launch is that of its cause, and names the task
/// around it where the cleanup could not be confirmed.
pub proof fn law_scheduler_errors(failure: SchedulerFailure, timeout: u128, task: Seq<char>)
    ensures
        failure.unconfirmed is None ==> failure.model(timeout, task) == failure.cause.model(timeout),
        failure.unconfirmed matches Some(reason) ==> (failure.model(timeout, task)
            matches SpawnErrorModel::CleanupUnconfirmed(cause, resource, why) && *cause
            == failure.cause.model(timeout) && resource == task && (reason
            matches Unconfirmed::Outside(text) ==> why == text@)),
{
}

} // verus!
