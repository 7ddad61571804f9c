//! The helper's side of a Windows scheduler launch, as a state machine over the
//! events of the outside.

use crate::errors::ErrorKind;
use crate::independent_systemd::MAX_BROKER_TIMEOUT_MS;
use crate::windows_path::{absolute_path, is_absolute, is_beside, is_sibling};
use vstd::prelude::*;
use vstd::string::*;

verus! {

/// A failure of the helper's protocol.
#[derive(Clone, Copy, Debug, PartialEq, Eq, Structural)]
pub enum HelperError {
    /// The arguments do not belong together.
    InvalidArguments,
    /// A marker holds something.
    InvalidMarker,
    /// The caller cancelled the launch.
    Cancelled,
    /// The caller did not accept the launch in time.
    NotAccepted,
}

impl HelperError {
    /// Class of this error.
    pub fn kind(&self) -> (k: ErrorKind)
        ensures
            k == (match *self {
                HelperError::InvalidArguments => ErrorKind::InvalidInput,
                HelperError::InvalidMarker => ErrorKind::InvalidData,
                HelperError::Cancelled => ErrorKind::Interrupted,
                HelperError::NotAccepted => ErrorKind::TimedOut,
            }),
    {
        match self {
            HelperError::InvalidArguments => ErrorKind::InvalidInput,
            HelperError::InvalidMarker => ErrorKind::InvalidData,
            HelperError::Cancelled => ErrorKind::Interrupted,
            HelperError::NotAccepted => ErrorKind::TimedOut,
        }
    }

    /// Text of this error.
    pub fn message(&self) -> (s: &'static str)
        ensures
            s@ == (match *self {
                HelperError::InvalidArguments => "invalid helper protocol arguments"@,
                HelperError::InvalidMarker => "helper marker contains unexpected payload"@,
                HelperError::Cancelled => "caller cancelled launch"@,
                HelperError::NotAccepted => "caller did not accept launch"@,
            }),
    {
        match self {
            HelperError::InvalidArguments => "invalid helper protocol arguments",
            HelperError::InvalidMarker => "helper marker contains unexpected payload",
            HelperError::Cancelled => "caller cancelled launch",
            HelperError::NotAccepted => "caller did not accept launch",
        }
    }
}

/// Whether the arguments of a helper belong together: an absolute request, the
/// acknowledgement beside it, and a wait in range.
pub open spec fn helper_arguments(
    request: Seq<char>,
    acknowledgement: Seq<char>,
    timeout_ms: u64,
) -> bool {
    absolute_path(request) && is_sibling(request, "ack"@, acknowledgement) && 0 < timeout_ms
        <= MAX_BROKER_TIMEOUT_MS
}

/// Begins the work of a helper: its first action is to look for a cancellation,
/// before the request is read.
pub fn run(request: &str, acknowledgement: &str, timeout_ms: u64) -> (r: Result<
    (HelperState, HelperAction),
    HelperError,
>)
    ensures
        r == (if helper_arguments(request@, acknowledgement@, timeout_ms) {
            Ok((HelperState::LookingFirst, HelperAction::LookForCancel))
        } else {
            Err(HelperError::InvalidArguments)
        }),
{
    if !is_absolute(request) || !is_beside(request, "ack", acknowledgement) || timeout_ms == 0
        || timeout_ms > MAX_BROKER_TIMEOUT_MS {
        return Err(HelperError::InvalidArguments);
    }
    Ok((HelperState::LookingFirst, HelperAction::LookForCancel))
}

/// Judges a marker that could be opened, by its length.
pub fn marker_found(length: u64) -> (r: Result<bool, HelperError>)
    ensures
        r == (if length == 0 {
            Ok(true)
        } else {
            Err(HelperError::InvalidMarker)
        }),
{
    if length == 0 {
        Ok(true)
    } else {
        Err(HelperError::InvalidMarker)
    }
}

/// Why a launched target is ended.
#[derive(Clone, Copy, Debug, PartialEq, Eq, Structural)]
pub enum HelperCause {
    /// The caller cancelled the launch.
    Cancelled,
    /// The caller did not accept the launch in time.
    NotAccepted,
    /// Something outside failed.
    Outside,
}

/// Where the work of a helper stands.
#[derive(Clone, Copy, Debug, PartialEq, Eq, Structural)]
pub enum HelperState {
    /// A cancellation is looked for, before anything else.
    LookingFirst,
    /// The identity of the helper is being taken.
    Supervising,
    /// The request is being read.
    Reading,
    /// A cancellation is looked for, before the target is started.
    LookingAgain,
    /// The target is being started.
    Spawning,
    /// The acknowledgement is being written.
    Acknowledging,
    /// A cancellation is looked for, while the target runs.
    LookingForCancel,
    /// The acceptance is looked for.
    LookingForAcceptance,
    /// The helper pauses.
    Pausing,
    /// The exit of the target is being waited for.
    Waiting,
    /// The exit status is being written.
    Reporting,
    /// A cancellation without a target is being confirmed.
    Confirming,
    /// The target is being ended.
    Ending(HelperCause),
    /// The end of the target is being confirmed.
    Withdrawing(HelperCause),
    /// The work is over.
    Finished,
}

/// What happened outside.
#[derive(Clone, Copy, Debug, PartialEq, Eq, Structural)]
pub enum HelperEvent {
    /// The action was done.
    Done,
    /// A marker was looked for.
    Marker(bool),
    /// A pause is over.
    Woke,
    /// The target ended, with a code if it has one.
    Exited(Option<i32>),
    /// The action failed.
    Failed,
}

/// What has to be done next.
#[derive(Clone, Copy, Debug, PartialEq, Eq, Structural)]
pub enum HelperAction {
    /// Look for the cancellation marker.
    LookForCancel,
    /// Take the identity of the helper.
    Supervise,
    /// Read the request.
    ReadRequest,
    /// Start the target.
    Spawn,
    /// Take the identity of the target, and write the acknowledgement.
    Acknowledge,
    /// Look for the acceptance marker.
    LookForAcceptance,
    /// Pause for some milliseconds.
    Pause(u64),
    /// Wait for the exit of the target.
    WaitForTarget,
    /// Write the exit status.
    WriteStatus(i32),
    /// End the target, and see that it ended.
    EndTarget,
    /// Confirm that no target runs.
    WriteCancelled,
    /// Report success.
    Succeed,
    /// Report the failure.
    Fail(HelperCause),
    /// Nothing: the event does not belong to the state.
    Ignore,
}

/// The next state and action of a helper; `expired` says whether the wait for
/// acceptance is over.
pub open spec fn helper_next(state: HelperState, event: HelperEvent, expired: bool) -> (
    HelperState,
    HelperAction,
) {
    match (state, event) {
        (HelperState::LookingFirst, HelperEvent::Marker(found)) => if found {
            (HelperState::Confirming, HelperAction::WriteCancelled)
        } else {
            (HelperState::Supervising, HelperAction::Supervise)
        },
        (HelperState::Supervising, HelperEvent::Done) => (
            HelperState::Reading,
            HelperAction::ReadRequest,
        ),
        (HelperState::Reading, HelperEvent::Done) => (
            HelperState::LookingAgain,
            HelperAction::LookForCancel,
        ),
        (HelperState::LookingAgain, HelperEvent::Marker(found)) => if found {
            (HelperState::Confirming, HelperAction::WriteCancelled)
        } else {
            (HelperState::Spawning, HelperAction::Spawn)
        },
        (HelperState::Spawning, HelperEvent::Done) => (
            HelperState::Acknowledging,
            HelperAction::Acknowledge,
        ),
        (HelperState::Acknowledging, HelperEvent::Done) => (
            HelperState::LookingForCancel,
            HelperAction::LookForCancel,
        ),
        (HelperState::LookingForCancel, HelperEvent::Marker(found)) => if found {
            (HelperState::Ending(HelperCause::Cancelled), HelperAction::EndTarget)
        } else {
            (HelperState::LookingForAcceptance, HelperAction::LookForAcceptance)
        },
        (HelperState::LookingForAcceptance, HelperEvent::Marker(found)) => if found {
            (HelperState::Waiting, HelperAction::WaitForTarget)
        } else if expired {
            (HelperState::Ending(HelperCause::NotAccepted), HelperAction::EndTarget)
        } else {
            (HelperState::Pausing, HelperAction::Pause(10))
        },
        (HelperState::Pausing, HelperEvent::Woke) => (
            HelperState::LookingForCancel,
            HelperAction::LookForCancel,
        ),
        (HelperState::Waiting, HelperEvent::Exited(code)) => (
            HelperState::Reporting,
            HelperAction::WriteStatus(
                match code {
                    Some(c) => c,
                    None => 1,
                },
            ),
        ),
        (HelperState::Reporting, HelperEvent::Done) => (
            HelperState::Finished,
            HelperAction::Succeed,
        ),
        (HelperState::Confirming, HelperEvent::Done) => (
            HelperState::Finished,
            HelperAction::Succeed,
        ),
        (HelperState::Ending(cause), HelperEvent::Done) => (
            HelperState::Withdrawing(cause),
            HelperAction::WriteCancelled,
        ),
        (HelperState::Withdrawing(cause), HelperEvent::Done) => (
            HelperState::Finished,
            HelperAction::Fail(cause),
        ),
        (HelperState::Finished, _) => (HelperState::Finished, HelperAction::Ignore),
        (_, HelperEvent::Failed) => if target_may_run(state) {
            (HelperState::Ending(HelperCause::Outside), HelperAction::EndTarget)
        } else {
            (HelperState::Finished, HelperAction::Fail(HelperCause::Outside))
        },
        _ => (state, HelperAction::Ignore),
    }
}

/// Whether a failure in a state leaves a target that has to be ended.
pub open spec fn target_may_run(state: HelperState) -> bool {
    match state {
        HelperState::Acknowledging => true,
        HelperState::LookingForCancel => true,
        HelperState::LookingForAcceptance => true,
        HelperState::Pausing => true,
        HelperState::Waiting => true,
        _ => false,
    }
}

/// One step of a helper.
pub fn step_helper(state: HelperState, event: HelperEvent, expired: bool) -> (r: (
    HelperState,
    HelperAction,
))
    ensures
        r == helper_next(state, event, expired),
{
    match (state, event) {
        (HelperState::LookingFirst, HelperEvent::Marker(found)) => if found {
            (HelperState::Confirming, HelperAction::WriteCancelled)
        } else {
            (HelperState::Supervising, HelperAction::Supervise)
        },
        (HelperState::Supervising, HelperEvent::Done) => (
            HelperState::Reading,
            HelperAction::ReadRequest,
        ),
        (HelperState::Reading, HelperEvent::Done) => (
            HelperState::LookingAgain,
            HelperAction::LookForCancel,
        ),
        (HelperState::LookingAgain, HelperEvent::Marker(found)) => if found {
            (HelperState::Confirming, HelperAction::WriteCancelled)
        } else {
            (HelperState::Spawning, HelperAction::Spawn)
        },
        (HelperState::Spawning, HelperEvent::Done) => (
            HelperState::Acknowledging,
            HelperAction::Acknowledge,
        ),
        (HelperState::Acknowledging, HelperEvent::Done) => (
            HelperState::LookingForCancel,
            HelperAction::LookForCancel,
        ),
        (HelperState::LookingForCancel, HelperEvent::Marker(found)) => if found {
            (HelperState::Ending(HelperCause::Cancelled), HelperAction::EndTarget)
        } else {
            (HelperState::LookingForAcceptance, HelperAction::LookForAcceptance)
        },
        (HelperState::LookingForAcceptance, HelperEvent::Marker(found)) => if found {
            (HelperState::Waiting, HelperAction::WaitForTarget)
        } else if expired {
            (HelperState::Ending(HelperCause::NotAccepted), HelperAction::EndTarget)
        } else {
            (HelperState::Pausing, HelperAction::Pause(10))
        },
        (HelperState::Pausing, HelperEvent::Woke) => (
            HelperState::LookingForCancel,
            HelperAction::LookForCancel,
        ),
        (HelperState::Waiting, HelperEvent::Exited(code)) => {
            let status: i32 = match code {
                Some(c) => c,
                None => 1,
            };
            (HelperState::Reporting, HelperAction::WriteStatus(status))
        },
        (HelperState::Reporting, HelperEvent::Done) => (
            HelperState::Finished,
            HelperAction::Succeed,
        ),
        (HelperState::Confirming, HelperEvent::Done) => (
            HelperState::Finished,
            HelperAction::Succeed,
        ),
        (HelperState::Ending(cause), HelperEvent::Done) => (
            HelperState::Withdrawing(cause),
            HelperAction::WriteCancelled,
        ),
        (HelperState::Withdrawing(cause), HelperEvent::Done) => (
            HelperState::Finished,
            HelperAction::Fail(cause),
        ),
        (HelperState::Finished, _) => (HelperState::Finished, HelperAction::Ignore),
        (
            HelperState::Acknowledging | HelperState::LookingForCancel
            | HelperState::LookingForAcceptance | HelperState::Pausing | HelperState::Waiting,
            HelperEvent::Failed,
        ) => (HelperState::Ending(HelperCause::Outside), HelperAction::EndTarget),
        (_, HelperEvent::Failed) => (
            HelperState::Finished,
            HelperAction::Fail(HelperCause::Outside),
        ),
        _ => (state, HelperAction::Ignore),
    }
}

/// Cleanup is confirmed only where no target was started or its end was seen.
pub proof fn law_confirmation_follows_the_end(
    state: HelperState,
    event: HelperEvent,
    expired: bool,
)
    ensures
        helper_next(state, event, expired).1 == HelperAction::WriteCancelled ==> {
            ||| state == HelperState::LookingFirst
            ||| state == HelperState::LookingAgain
            ||| (state is Ending && event == HelperEvent::Done)
        },
        helper_next(state, event, expired).1 is WriteStatus ==> state == HelperState::Waiting
            && event is Exited,
{
}

/// A target that was started is either waited for or ended before the helper
/// gives up.
pub proof fn law_started_targets_are_not_abandoned(
    state: HelperState,
    event: HelperEvent,
    expired: bool,
)
    requires
        target_may_run(state),
    ensures
        helper_next(state, event, expired).1 !is Fail,
        helper_next(state, event, expired).1 !is Succeed,
        helper_next(state, event, expired).0 !is Finished,
{
}

/// A helper that is neither cancelled nor left waiting reads the request, starts the
/// target, acknowledges it, waits for acceptance and then for the exit, and reports
/// the exit code; a target without one is reported as 1.
pub proof fn law_undisturbed_helper_reports_the_exit(code: i32, expired: bool)
    ensures
        ({
            let done = |state: HelperState| helper_next(state, HelperEvent::Done, expired);
            let look = |state: HelperState, found: bool|
                helper_next(state, HelperEvent::Marker(found), expired);
            let supervising = look(HelperState::LookingFirst, false);
            let reading = done(supervising.0);
            let looking = done(reading.0);
            let spawning = look(looking.0, false);
            let acknowledging = done(spawning.0);
            let watching = done(acknowledging.0);
            let accepting = look(watching.0, false);
            let waiting = look(accepting.0, true);
            let reporting = helper_next(waiting.0, HelperEvent::Exited(Some(code)), expired);
            &&& supervising.1 == HelperAction::Supervise
            &&& reading.1 == HelperAction::ReadRequest
            &&& looking.1 == HelperAction::LookForCancel
            &&& spawning.1 == HelperAction::Spawn
            &&& acknowledging.1 == HelperAction::Acknowledge
            &&& watching.1 == HelperAction::LookForCancel
            &&& accepting.1 == HelperAction::LookForAcceptance
            &&& waiting.1 == HelperAction::WaitForTarget
            &&& reporting.1 == HelperAction::WriteStatus(code)
            &&& done(reporting.0) == (HelperState::Finished, HelperAction::Succeed)
            &&& helper_next(waiting.0, HelperEvent::Exited(None), expired).1
                == HelperAction::WriteStatus(1)
        }),
{
}

/// A cancellation is honoured at every look: before a target was started it is
/// confirmed at once, and after that the target is ended first.
pub proof fn law_helpers_honour_cancellation(expired: bool)
    ensures
        ({
            let found = |state: HelperState| helper_next(state, HelperEvent::Marker(true), expired);
            let done = |state: HelperState| helper_next(state, HelperEvent::Done, expired);
            let ending = found(HelperState::LookingForCancel);
            let confirming = done(ending.0);
            &&& found(HelperState::LookingFirst).1 == HelperAction::WriteCancelled
            &&& found(HelperState::LookingAgain).1 == HelperAction::WriteCancelled
            &&& done(found(HelperState::LookingFirst).0).1 == HelperAction::Succeed
            &&& done(found(HelperState::LookingAgain).0).1 == HelperAction::Succeed
            &&& ending.1 == HelperAction::EndTarget
            &&& confirming.1 == HelperAction::WriteCancelled
            &&& done(confirming.0).1 == HelperAction::Fail(HelperCause::Cancelled)
        }),
{
}

/// A target that is not accepted runs on until the wait is over: the markers are looked
/// for again after 10 milliseconds, the cancellation first; then it is ended.
pub proof fn law_helpers_wait_for_acceptance()
    ensures
        helper_next(HelperState::LookingForAcceptance, HelperEvent::Marker(false), false) == (
            HelperState::Pausing,
            HelperAction::Pause(10),
        ),
        forall|expired: bool|
            (#[trigger] helper_next(HelperState::Pausing, HelperEvent::Woke, expired)) == (
                HelperState::LookingForCancel,
                HelperAction::LookForCancel,
            ),
        helper_next(HelperState::LookingForAcceptance, HelperEvent::Marker(false), true) == (
            HelperState::Ending(HelperCause::NotAccepted),
            HelperAction::EndTarget,
        ),
{
}

/// A helper ends its target for the reason that holds, and reports that reason once
/// the end was confirmed.
pub proof fn law_helpers_end_targets_for_a_reason(
    state: HelperState,
    event: HelperEvent,
    expired: bool,
    cause: HelperCause,
)
    ensures
        helper_next(state, event, expired).0 == HelperState::Ending(cause) && state
            != HelperState::Ending(cause) ==> match cause {
            HelperCause::Cancelled => state == HelperState::LookingForCancel && event
                == HelperEvent::Marker(true),
            HelperCause::NotAccepted => state == HelperState::LookingForAcceptance && event
                == HelperEvent::Marker(false) && expired,
            HelperCause::Outside => event == HelperEvent::Failed,
        },
        helper_next(HelperState::Ending(cause), HelperEvent::Done, expired) == (
            HelperState::Withdrawing(cause),
            HelperAction::WriteCancelled,
        ),
        helper_next(HelperState::Withdrawing(cause), HelperEvent::Done, expired) == (
            HelperState::Finished,
            HelperAction::Fail(cause),
        ),
        helper_next(state, event, expired).1 is Ignore ==> helper_next(state, event, expired).0
            == state,
{
}

/// A failure ends a target exactly where one may run, from its start to its exit;
/// elsewhere the helper gives up at once.
pub proof fn law_helper_failures(state: HelperState, expired: bool)
    requires
        state != HelperState::Finished,
    ensures
        ({
            let running = state == HelperState::Acknowledging || state
                == HelperState::LookingForCancel || state == HelperState::LookingForAcceptance
                || state == HelperState::Pausing || state == HelperState::Waiting;
            let failed = helper_next(state, HelperEvent::Failed, expired);
            &&& target_may_run(state) <==> running
            &&& running ==> failed == (
                HelperState::Ending(HelperCause::Outside),
                HelperAction::EndTarget,
            )
            &&& !running ==> failed == (
                HelperState::Finished,
                HelperAction::Fail(HelperCause::Outside),
            )
        }),
{
}

/// A helper takes up its work only with an absolute request, the acknowledgement beside
/// it, and a wait of at most an hour.
pub proof fn law_helper_arguments(
    request: Seq<char>,
    acknowledgement: Seq<char>,
    timeout_ms: u64,
)
    ensures
        helper_arguments(request, acknowledgement, timeout_ms) ==> absolute_path(request)
            && is_sibling(request, "ack"@, acknowledgement) && 1 <= timeout_ms <= 3_600_000,
        absolute_path(request) && is_sibling(request, "ack"@, acknowledgement) && 1 <= timeout_ms
            <= 3_600_000 ==> helper_arguments(request, acknowledgement, timeout_ms),
{
}

} // verus!
