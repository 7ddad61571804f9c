//! A child process with optional output capture: what it owns, what its
//! operations decide, and in which order they act on the host.

use crate::capture::{
    counted, event_bytes, event_views, line_bytes, line_model, line_views, CaptureModel,
    CaptureState, LaneModel, NextItem,
};
use crate::errors::IoFailure;
use crate::host::HostOs;
use crate::types::{
    CommandSpec, ProcessConfig, ProcessError, ReadStatus, StderrMode, StreamEvent, StreamKind,
};
use vstd::prelude::*;
use vstd::string::*;

verus! {

/// A command as it is handed to the host.
#[derive(Clone, Debug, PartialEq, Eq)]
pub struct CommandPlan {
    /// Program or shell command line.
    pub program: PlannedProgram,
    /// Working directory; the caller's if not set.
    pub cwd: Option<String>,
    /// Complete environment; the caller's if not set.
    pub env: Option<Vec<(String, String)>>,
    /// Limits and placement.
    pub limits: CommandLimits,
}

/// What a command runs.
#[derive(Clone, Debug, PartialEq, Eq)]
pub enum PlannedProgram {
    /// A command line for the platform shell.
    Shell(String),
    /// A program and its arguments.
    Direct {
        /// Program.
        program: String,
        /// Arguments, without the program name.
        args: Vec<String>,
    },
}

/// Limits and placement of a child.
#[derive(Clone, Copy, Debug, PartialEq, Eq, Structural)]
pub struct CommandLimits {
    /// Raw creation flags of the host.
    pub creation_flags: Option<u32>,
    /// Whether the child gets a process group of its own.
    pub create_process_group: bool,
    /// Scheduling niceness.
    pub nice: Option<i32>,
    /// Address-space limit in bytes.
    pub address_space_limit_bytes: Option<u64>,
    /// Whether the child dies with its owner.
    pub kill_when_owner_dies: bool,
}

/// The texts of some strings.
pub open spec fn texts(strings: Seq<String>) -> Seq<Seq<char>> {
    strings.map_values(|s: String| s@)
}

/// The texts of some pairs of strings.
pub open spec fn pair_texts(pairs: Seq<(String, String)>) -> Seq<(Seq<char>, Seq<char>)> {
    pairs.map_values(|p: (String, String)| (p.0@, p.1@))
}

/// Whether a plan runs what a configuration says.
pub open spec fn plans(plan: CommandPlan, config: ProcessConfig, kill_when_owner_dies: bool) -> bool {
    &&& match (plan.program, config.command) {
        (PlannedProgram::Shell(line), CommandSpec::Shell(command)) => line@ == command@,
        (PlannedProgram::Direct { program, args }, CommandSpec::Argv(argv)) => argv@.len() > 0
            && program@ == argv@[0]@ && texts(args@) == texts(argv@).skip(1),
        _ => false,
    }
    &&& match (plan.cwd, config.cwd) {
        (Some(a), Some(b)) => a@ == b@,
        (None, None) => true,
        _ => false,
    }
    &&& match (plan.env, config.env) {
        (Some(a), Some(b)) => pair_texts(a@) == pair_texts(b@),
        (None, None) => true,
        _ => false,
    }
    &&& plan.limits == (CommandLimits {
        creation_flags: config.creationflags,
        create_process_group: config.create_process_group,
        nice: config.nice,
        address_space_limit_bytes: config.address_space_limit_bytes,
        kill_when_owner_dies,
    })
}

fn copy_arguments(argv: &Vec<String>) -> (args: Vec<String>)
    requires
        argv@.len() > 0,
    ensures
        texts(args@) == texts(argv@).skip(1),
{
    let mut args: Vec<String> = Vec::new();
    let mut i: usize = 1;
    let ghost all = texts(argv@);
    assert(texts(args@) =~= all.subrange(1, 1));
    while i < argv.len()
        invariant
            1 <= i <= argv@.len(),
            all == texts(argv@),
            texts(args@) == all.subrange(1, i as int),
        decreases argv@.len() - i,
    {
        let ghost before = texts(args@);
        args.push(argv[i].as_str().to_owned());
        assert(texts(args@) =~= before.push(all[i as int]));
        assert(texts(args@) =~= all.subrange(1, i as int + 1));
        i = i + 1;
    }
    assert(all.subrange(1, all.len() as int) =~= all.skip(1));
    args
}

fn copy_pairs(pairs: &Vec<(String, String)>) -> (out: Vec<(String, String)>)
    ensures
        pair_texts(out@) == pair_texts(pairs@),
{
    let mut out: Vec<(String, String)> = Vec::new();
    let mut i: usize = 0;
    let ghost all = pair_texts(pairs@);
    assert(pair_texts(out@) =~= all.take(0));
    while i < pairs.len()
        invariant
            i <= pairs@.len(),
            all == pair_texts(pairs@),
            pair_texts(out@) == all.take(i as int),
        decreases pairs@.len() - i,
    {
        let ghost before = pair_texts(out@);
        out.push((pairs[i].0.as_str().to_owned(), pairs[i].1.as_str().to_owned()));
        assert(pair_texts(out@) =~= before.push(all[i as int]));
        assert(pair_texts(out@) =~= all.take(i as int + 1));
        i = i + 1;
    }
    assert(all.take(all.len() as int) =~= all);
    out
}

/// The command that a configuration describes. A direct command names its
/// program.
pub fn build_command(config: &ProcessConfig, kill_when_owner_dies: bool) -> (plan: CommandPlan)
    requires
        config.command matches CommandSpec::Argv(argv) ==> argv@.len() > 0,
    ensures
        plans(plan, *config, kill_when_owner_dies),
{
    let program = match &config.command {
        CommandSpec::Shell(command) => PlannedProgram::Shell(command.as_str().to_owned()),
        CommandSpec::Argv(argv) => PlannedProgram::Direct {
            program: argv[0].as_str().to_owned(),
            args: copy_arguments(argv),
        },
    };
    let cwd = match &config.cwd {
        Some(cwd) => Some(cwd.as_str().to_owned()),
        None => None,
    };
    let env = match &config.env {
        Some(env) => Some(copy_pairs(env)),
        None => None,
    };
    CommandPlan {
        program,
        cwd,
        env,
        limits: CommandLimits {
            creation_flags: config.creationflags,
            create_process_group: config.create_process_group,
            nice: config.nice,
            address_space_limit_bytes: config.address_space_limit_bytes,
            kill_when_owner_dies,
        },
    }
}

/// What a start has to take into account.
#[derive(Clone, Copy, Debug, PartialEq, Eq, Structural)]
pub struct StartContext {
    /// Whether launch-time tracing owns the child.
    pub exact_trace: bool,
    /// Whether the process tree is watched.
    pub watched: bool,
    /// Whether lifecycle events are observed.
    pub observed: bool,
    /// Whether the host contains children in job objects.
    pub uses_jobs: bool,
    /// Whether output is captured.
    pub capture: bool,
    /// Where standard error goes.
    pub stderr_mode: StderrMode,
}

/// How far a start is.
#[derive(Clone, Copy, Debug, PartialEq, Eq, Structural)]
pub enum StartState {
    /// The child is being spawned.
    Spawning,
    /// Its number is being logged.
    Logging,
    /// Its start is being announced.
    Announcing,
    /// It is being put into a job.
    Containing,
    /// Its descendants are being monitored.
    Monitoring,
    /// Its standard output is being prepared for reading.
    PreparingStdout,
    /// Its standard error is being prepared for reading.
    PreparingStderr,
    /// Its readers are being started.
    Reading,
    /// It is being stored.
    Installing,
    /// The start is over.
    Finished,
}

/// What happened to a start.
#[derive(Clone, Debug, PartialEq, Eq)]
pub enum StartEvent {
    /// The action was done.
    Done,
    /// The action failed.
    Failed(IoFailure),
}

/// What a failed start has to undo.
#[derive(Clone, Debug, PartialEq, Eq)]
pub struct StartFailure {
    /// What is reported.
    pub error: ProcessError,
    /// Whether the watch is closed.
    pub close_watch: bool,
    /// Whether the standard-output reader is released.
    pub release_stdout: bool,
    /// Whether the child is killed and reaped.
    pub end_child: bool,
}

/// What a start does next.
#[derive(Clone, Debug, PartialEq, Eq)]
pub enum StartAction {
    /// Spawn the child, traced or not.
    Spawn {
        /// Whether launch-time tracing owns the child.
        exact_trace: bool,
        /// Whether its output is piped.
        pipe_output: bool,
    },
    /// Log its number.
    LogPid,
    /// Announce its start.
    EmitStarted,
    /// Put it into a job.
    AssignJob,
    /// Monitor its descendants.
    StartMonitor,
    /// Prepare its standard output for reading.
    PrepareStdout,
    /// Prepare its standard error for reading.
    PrepareStderr,
    /// Start the readers; standard error is shown as the given stream.
    SpawnReaders {
        /// Stream that shows standard error.
        stderr_shown_as: StreamKind,
    },
    /// Store the child with its standard input, and start to wait for its exit.
    Install,
    /// Report success.
    Succeed,
    /// Undo and report failure.
    Fail(StartFailure),
    /// Nothing: the start is over.
    Ignore,
}

/// The stream that shows standard error.
pub open spec fn shown_stderr(mode: StderrMode) -> StreamKind {
    match mode {
        StderrMode::Stdout => StreamKind::Stdout,
        StderrMode::Pipe => StreamKind::Stderr,
    }
}

/// The steps of a start in order, from some state on: the first that the context
/// calls for.
pub open spec fn start_from(context: StartContext, state: StartState) -> (StartState, StartAction)
    decreases start_rank(state),
{
    match state {
        StartState::Announcing => if context.observed {
            (state, StartAction::EmitStarted)
        } else {
            start_from(context, StartState::Containing)
        },
        StartState::Containing => if context.uses_jobs {
            (state, StartAction::AssignJob)
        } else {
            start_from(context, StartState::Monitoring)
        },
        StartState::Monitoring => if !context.exact_trace {
            (state, StartAction::StartMonitor)
        } else {
            start_from(context, StartState::PreparingStdout)
        },
        StartState::PreparingStdout => if context.capture {
            (state, StartAction::PrepareStdout)
        } else {
            start_from(context, StartState::Installing)
        },
        StartState::Spawning => (
            state,
            StartAction::Spawn { exact_trace: context.exact_trace, pipe_output: context.capture },
        ),
        StartState::Logging => (state, StartAction::LogPid),
        StartState::PreparingStderr => (state, StartAction::PrepareStderr),
        StartState::Reading => (
            state,
            StartAction::SpawnReaders { stderr_shown_as: shown_stderr(context.stderr_mode) },
        ),
        StartState::Installing => (state, StartAction::Install),
        StartState::Finished => (state, StartAction::Succeed),
    }
}

/// Number of steps behind a state.
pub open spec fn start_rank(state: StartState) -> nat {
    match state {
        StartState::Spawning => 9,
        StartState::Logging => 8,
        StartState::Announcing => 7,
        StartState::Containing => 6,
        StartState::Monitoring => 5,
        StartState::PreparingStdout => 4,
        StartState::PreparingStderr => 3,
        StartState::Reading => 2,
        StartState::Installing => 1,
        StartState::Finished => 0,
    }
}

/// The state behind a state.
pub open spec fn start_after(state: StartState) -> StartState {
    match state {
        StartState::Spawning => StartState::Logging,
        StartState::Logging => StartState::Announcing,
        StartState::Announcing => StartState::Containing,
        StartState::Containing => StartState::Monitoring,
        StartState::Monitoring => StartState::PreparingStdout,
        StartState::PreparingStdout => StartState::PreparingStderr,
        StartState::PreparingStderr => StartState::Reading,
        StartState::Reading => StartState::Installing,
        StartState::Installing => StartState::Finished,
        StartState::Finished => StartState::Finished,
    }
}

/// What a failure in a state has to undo.
pub open spec fn start_failure(
    context: StartContext,
    state: StartState,
    failed: IoFailure,
) -> StartFailure {
    StartFailure {
        error: ProcessError::Spawn(failed),
        close_watch: match state {
            StartState::Spawning => context.exact_trace && context.watched,
            StartState::Containing => context.watched,
            _ => false,
        },
        release_stdout: state == StartState::PreparingStderr,
        end_child: match state {
            StartState::Containing => true,
            StartState::PreparingStdout => true,
            StartState::PreparingStderr => true,
            _ => false,
        },
    }
}

/// The next state and action of a start.
pub open spec fn start_next(context: StartContext, state: StartState, event: StartEvent) -> (
    StartState,
    StartAction,
) {
    match event {
        StartEvent::Done => if state == StartState::Finished {
            (state, StartAction::Ignore)
        } else {
            start_from(context, start_after(state))
        },
        StartEvent::Failed(failed) => if state == StartState::Finished {
            (state, StartAction::Ignore)
        } else {
            (StartState::Finished, StartAction::Fail(start_failure(context, state, failed)))
        },
    }
}

fn enter_start(context: StartContext, state: StartState) -> (r: (StartState, StartAction))
    ensures
        r == start_from(context, state),
    decreases start_rank(state),
{
    match state {
        StartState::Announcing => if context.observed {
            (state, StartAction::EmitStarted)
        } else {
            enter_start(context, StartState::Containing)
        },
        StartState::Containing => if context.uses_jobs {
            (state, StartAction::AssignJob)
        } else {
            enter_start(context, StartState::Monitoring)
        },
        StartState::Monitoring => if !context.exact_trace {
            (state, StartAction::StartMonitor)
        } else {
            enter_start(context, StartState::PreparingStdout)
        },
        StartState::PreparingStdout => if context.capture {
            (state, StartAction::PrepareStdout)
        } else {
            enter_start(context, StartState::Installing)
        },
        StartState::Spawning => (
            state,
            StartAction::Spawn { exact_trace: context.exact_trace, pipe_output: context.capture },
        ),
        StartState::Logging => (state, StartAction::LogPid),
        StartState::PreparingStderr => (state, StartAction::PrepareStderr),
        StartState::Reading => {
            let shown: StreamKind = match context.stderr_mode {
                StderrMode::Stdout => StreamKind::Stdout,
                StderrMode::Pipe => StreamKind::Stderr,
            };
            (state, StartAction::SpawnReaders { stderr_shown_as: shown })
        },
        StartState::Installing => (state, StartAction::Install),
        StartState::Finished => (state, StartAction::Succeed),
    }
}

/// One step of a start.
pub fn step_start(context: StartContext, state: StartState, event: StartEvent) -> (r: (
    StartState,
    StartAction,
))
    ensures
        r == start_next(context, state, event),
{
    if state == StartState::Finished {
        return (state, StartAction::Ignore);
    }
    match event {
        StartEvent::Done => {
            let after: StartState = match state {
                StartState::Spawning => StartState::Logging,
                StartState::Logging => StartState::Announcing,
                StartState::Announcing => StartState::Containing,
                StartState::Containing => StartState::Monitoring,
                StartState::Monitoring => StartState::PreparingStdout,
                StartState::PreparingStdout => StartState::PreparingStderr,
                StartState::PreparingStderr => StartState::Reading,
                StartState::Reading => StartState::Installing,
                StartState::Installing => StartState::Finished,
                StartState::Finished => StartState::Finished,
            };
            enter_start(context, after)
        },
        StartEvent::Failed(failed) => {
            let close_watch: bool = match state {
                StartState::Spawning => context.exact_trace && context.watched,
                StartState::Containing => context.watched,
                _ => false,
            };
            let end_child: bool = match state {
                StartState::Containing | StartState::PreparingStdout
                | StartState::PreparingStderr => true,
                _ => false,
            };
            (
                StartState::Finished,
                StartAction::Fail(
                    StartFailure {
                        error: ProcessError::Spawn(failed),
                        close_watch,
                        release_stdout: state == StartState::PreparingStderr,
                        end_child,
                    },
                ),
            )
        },
    }
}

/// A child whose capture could not be prepared is ended, and a reader that was
/// prepared before is released.
pub proof fn law_failed_capture_ends_the_child(
    context: StartContext,
    state: StartState,
    failed: IoFailure,
)
    requires
        state == StartState::PreparingStdout || state == StartState::PreparingStderr,
    ensures
        start_next(context, state, StartEvent::Failed(failed)).1 matches StartAction::Fail(failure)
            && failure.end_child && failure.error == ProcessError::Spawn(failed)
            && (failure.release_stdout <==> state == StartState::PreparingStderr),
{
}

/// Output is prepared and read exactly where it is captured, and descendants are
/// monitored exactly where tracing does not do so.
pub proof fn law_start_follows_the_context(
    context: StartContext,
    state: StartState,
)
    requires
        match state {
            StartState::PreparingStdout => context.capture,
            StartState::PreparingStderr => context.capture,
            StartState::Reading => context.capture,
            _ => true,
        },
    ensures
        ({
            let next = start_next(context, state, StartEvent::Done);
            &&& next.1 is StartMonitor ==> !context.exact_trace
            &&& next.1 is EmitStarted ==> context.observed
            &&& next.1 is AssignJob ==> context.uses_jobs
            &&& (next.1 is PrepareStdout || next.1 is PrepareStderr || next.1 is SpawnReaders)
                ==> context.capture
            &&& match next.0 {
                StartState::PreparingStdout => context.capture,
                StartState::PreparingStderr => context.capture,
                StartState::Reading => context.capture,
                _ => true,
            }
        }),
{
    reveal_with_fuel(start_from, 6);
}

/// What a look at a child showed.
#[derive(Clone, Copy, Debug, PartialEq, Eq, Structural)]
pub enum ChildLook {
    /// No child is owned any more.
    Gone,
    /// It runs.
    Running,
    /// It exited.
    Exited(i32),
    /// It cannot be looked at.
    Failed {
        /// Whether a later look may succeed.
        retryable: bool,
    },
}

/// What the exit waiter does next.
#[derive(Clone, Copy, Debug, PartialEq, Eq, Structural)]
pub enum WaiterAction {
    /// Stop.
    Stop,
    /// Record the exit, announce it, drain the capture, and stop.
    Record(i32),
    /// Pause for some milliseconds and look again.
    Pause(u64),
}

/// Decides what the exit waiter does after a look at the child.
pub fn waiter_turn(known: bool, look: ChildLook) -> (a: WaiterAction)
    ensures
        a == waiter_decision(known, look),
        a == (if known {
            WaiterAction::Stop
        } else {
            match look {
                ChildLook::Gone => WaiterAction::Stop,
                ChildLook::Running => WaiterAction::Pause(10),
                ChildLook::Exited(code) => WaiterAction::Record(code),
                ChildLook::Failed { retryable } => if retryable {
                    WaiterAction::Pause(10)
                } else {
                    WaiterAction::Stop
                },
            }
        }),
{
    if known {
        return WaiterAction::Stop;
    }
    match look {
        ChildLook::Gone => WaiterAction::Stop,
        ChildLook::Running => WaiterAction::Pause(10),
        ChildLook::Exited(code) => WaiterAction::Record(code),
        ChildLook::Failed { retryable } => if retryable {
            WaiterAction::Pause(10)
        } else {
            WaiterAction::Stop
        },
    }
}

/// What a kill does next.
#[derive(Clone, Debug, PartialEq, Eq)]
pub enum KillAction {
    /// Look whether the child exited.
    TryWait,
    /// Signal the process group of the child.
    SignalGroup,
    /// Kill the child.
    KillChild,
    /// Wait for the exit of the child.
    WaitForExit,
    /// Wake the capture readers.
    CancelCapture,
    /// Look for the exit of the child until the deadline.
    ReapUntilDeadline,
    /// Record the exit and announce it.
    RecordExit(i32),
    /// Wait for the end of the capture until the deadline.
    AwaitCapture,
    /// Report success.
    Succeed,
    /// Report failure.
    Fail(ProcessError),
    /// Nothing: the event does not belong to the state.
    Ignore,
}

/// How far a kill is.
#[derive(Clone, Copy, Debug, PartialEq, Eq, Structural)]
pub enum KillState {
    /// The child is being looked at.
    Looking,
    /// Its group is being signalled.
    SignallingGroup,
    /// It is being killed.
    Killing,
    /// Its exit is being waited for.
    Waiting,
    /// Its exit is being recorded, before the capture is cancelled.
    RecordingFirst,
    /// The capture is being cancelled; the exit may be known.
    Cancelling(Option<i32>),
    /// The exit is being looked for.
    Reaping,
    /// The exit is being recorded.
    Recording,
    /// The end of the capture is being waited for.
    Draining,
    /// The kill is over.
    Finished,
}

/// What happened to a kill.
#[derive(Clone, Debug, PartialEq, Eq)]
pub enum KillEvent {
    /// The action was done.
    Done,
    /// The exit of the child was looked for.
    Exit(Option<i32>),
    /// The action failed.
    Failed(IoFailure),
}

/// The next state and action of a kill. Where the host contains children in jobs
/// the child is killed and waited for at once; elsewhere a child that exited is
/// not signalled, and its group is signalled before the child itself.
pub open spec fn kill_next(own_group: bool, state: KillState, event: KillEvent) -> (
    KillState,
    KillAction,
) {
    match (state, event) {
        (KillState::Looking, KillEvent::Exit(exit)) => match exit {
            Some(code) => (KillState::Cancelling(Some(code)), KillAction::CancelCapture),
            None => if own_group {
                (KillState::SignallingGroup, KillAction::SignalGroup)
            } else {
                (KillState::Killing, KillAction::KillChild)
            },
        },
        (KillState::SignallingGroup, KillEvent::Done) => (
            KillState::Cancelling(None),
            KillAction::CancelCapture,
        ),
        (KillState::SignallingGroup, KillEvent::Failed(_)) => (
            KillState::Killing,
            KillAction::KillChild,
        ),
        (KillState::Killing, KillEvent::Done) => (
            KillState::Cancelling(None),
            KillAction::CancelCapture,
        ),
        (KillState::Waiting, KillEvent::Done) => (KillState::Waiting, KillAction::WaitForExit),
        (KillState::Waiting, KillEvent::Exit(exit)) => match exit {
            Some(code) => (KillState::RecordingFirst, KillAction::RecordExit(code)),
            None => (KillState::Waiting, KillAction::WaitForExit),
        },
        (KillState::RecordingFirst, KillEvent::Done) => (
            KillState::Recording,
            KillAction::CancelCapture,
        ),
        (KillState::Cancelling(exit), KillEvent::Done) => match exit {
            Some(code) => (KillState::Recording, KillAction::RecordExit(code)),
            None => (KillState::Reaping, KillAction::ReapUntilDeadline),
        },
        (KillState::Reaping, KillEvent::Exit(exit)) => match exit {
            Some(code) => (KillState::Recording, KillAction::RecordExit(code)),
            None => (KillState::Draining, KillAction::AwaitCapture),
        },
        (KillState::Reaping, KillEvent::Failed(_)) => (
            KillState::Draining,
            KillAction::AwaitCapture,
        ),
        (KillState::Recording, KillEvent::Done) => (KillState::Draining, KillAction::AwaitCapture),
        (KillState::Draining, KillEvent::Done) => (KillState::Finished, KillAction::Succeed),
        (KillState::Looking, KillEvent::Failed(failed)) => (
            KillState::Finished,
            KillAction::Fail(ProcessError::Io(failed)),
        ),
        (KillState::Killing, KillEvent::Failed(failed)) => (
            KillState::Finished,
            KillAction::Fail(ProcessError::Io(failed)),
        ),
        (KillState::Waiting, KillEvent::Failed(failed)) => (
            KillState::Finished,
            KillAction::Fail(ProcessError::Io(failed)),
        ),
        _ => (state, KillAction::Ignore),
    }
}

/// One step of a kill.
pub fn step_kill(own_group: bool, state: KillState, event: KillEvent) -> (r: (
    KillState,
    KillAction,
))
    ensures
        r == kill_next(own_group, state, event),
{
    match (state, event) {
        (KillState::Looking, KillEvent::Exit(exit)) => match exit {
            Some(code) => (KillState::Cancelling(Some(code)), KillAction::CancelCapture),
            None => if own_group {
                (KillState::SignallingGroup, KillAction::SignalGroup)
            } else {
                (KillState::Killing, KillAction::KillChild)
            },
        },
        (KillState::SignallingGroup, KillEvent::Done) => (
            KillState::Cancelling(None),
            KillAction::CancelCapture,
        ),
        (KillState::SignallingGroup, KillEvent::Failed(_)) => (
            KillState::Killing,
            KillAction::KillChild,
        ),
        (KillState::Killing, KillEvent::Done) => (
            KillState::Cancelling(None),
            KillAction::CancelCapture,
        ),
        (KillState::Waiting, KillEvent::Done) => (KillState::Waiting, KillAction::WaitForExit),
        (KillState::Waiting, KillEvent::Exit(exit)) => match exit {
            Some(code) => (KillState::RecordingFirst, KillAction::RecordExit(code)),
            None => (KillState::Waiting, KillAction::WaitForExit),
        },
        (KillState::RecordingFirst, KillEvent::Done) => (
            KillState::Recording,
            KillAction::CancelCapture,
        ),
        (KillState::Cancelling(exit), KillEvent::Done) => match exit {
            Some(code) => (KillState::Recording, KillAction::RecordExit(code)),
            None => (KillState::Reaping, KillAction::ReapUntilDeadline),
        },
        (KillState::Reaping, KillEvent::Exit(exit)) => match exit {
            Some(code) => (KillState::Recording, KillAction::RecordExit(code)),
            None => (KillState::Draining, KillAction::AwaitCapture),
        },
        (KillState::Reaping, KillEvent::Failed(_)) => (
            KillState::Draining,
            KillAction::AwaitCapture,
        ),
        (KillState::Recording, KillEvent::Done) => (KillState::Draining, KillAction::AwaitCapture),
        (KillState::Draining, KillEvent::Done) => (KillState::Finished, KillAction::Succeed),
        (
            KillState::Looking | KillState::Killing | KillState::Waiting,
            KillEvent::Failed(failed),
        ) => (KillState::Finished, KillAction::Fail(ProcessError::Io(failed))),
        _ => (state, KillAction::Ignore),
    }
}

/// A kill reports success only after the capture was cancelled and waited for,
/// and it never signals a child that was seen to have exited.
pub proof fn law_kill_settles_the_capture(own_group: bool, state: KillState, event: KillEvent)
    ensures
        match kill_next(own_group, state, event).1 {
            KillAction::Succeed => state == KillState::Draining,
            KillAction::AwaitCapture => state == KillState::Reaping || state == KillState::Recording,
            KillAction::SignalGroup => own_group && event == KillEvent::Exit(None),
            KillAction::KillChild => event == KillEvent::Exit(None) || state
                == KillState::SignallingGroup,
            _ => true,
        },
{
}

/// What a wait does next.
#[derive(Debug, PartialEq, Eq)]
pub enum WaitTurn {
    /// Report a result at once.
    Report(Result<i32, ProcessError>),
    /// Drain the capture, and report the code.
    Drain(i32),
    /// Wait for news for at most so many nanoseconds, and decide again.
    WaitFor(u128),
}

/// Longest wait between two looks, in nanoseconds.
pub const RECHECK_INTERVAL: u128 = 50_000_000;

/// What a pending read does next.
#[derive(Clone, Debug, PartialEq, Eq)]
pub enum ReadTurn<T> {
    /// Report a result.
    Report(ReadStatus<T>),
    /// Wait for news, for at most so many nanoseconds if there is a limit.
    WaitFor(Option<u128>),
}

/// What a drain of the capture does next.
#[derive(Clone, Copy, Debug, PartialEq, Eq, Structural)]
pub enum DrainTurn {
    /// Both pipes were done in time.
    Drained,
    /// The deadline passed, and the pipes were given up.
    Forced,
    /// Wait for news until the deadline.
    Wait,
}

/// What a look for the exit of a child does.
#[derive(Clone, Copy, Debug, PartialEq, Eq, Structural)]
pub enum PollTurn {
    /// Report what is known.
    Report(Option<i32>),
    /// Look at the child.
    Look,
}

/// What a close does.
#[derive(Clone, Copy, Debug, PartialEq, Eq, Structural)]
pub enum CloseTurn {
    /// Nothing: no child is owned.
    Done,
    /// Look whether the child exited.
    Poll,
    /// Kill the child; where that fails, report it and stop.
    Kill,
    /// Drain the capture.
    Drain,
    /// Close the watch of the tree. Nothing is left to do after it.
    CloseWatch,
}

/// What a close learned.
#[derive(Debug, PartialEq, Eq)]
pub enum CloseEvent {
    /// It was asked for.
    Asked,
    /// What the look for the exit gave.
    Polled(Result<Option<i32>, ProcessError>),
    /// The child was killed, or its capture was drained.
    Ended,
}

/// A child process and its captured output.
#[derive(Clone, Debug, PartialEq, Eq)]
pub struct NativeProcess {
    config: ProcessConfig,
    child: Option<u32>,
    stdin_open: bool,
    returncode: Option<i32>,
    exit_announced: bool,
    capture: CaptureState,
}

/// What a [`NativeProcess`] holds.
#[verifier::ext_equal]
pub struct ProcessModel {
    /// Number of the child that is owned.
    pub child: Option<u32>,
    /// Whether its standard input can be written.
    pub stdin_open: bool,
    /// Its exit code, once known.
    pub returncode: Option<i32>,
    /// Whether its exit was announced.
    pub exit_announced: bool,
    /// Its output.
    pub capture: CaptureModel,
}

/// A lane that holds nothing.
pub open spec fn empty_lane() -> LaneModel {
    LaneModel { queue: Seq::empty(), history: Seq::empty(), raw: Seq::empty() }
}

/// A process that was not started: without capture its streams have ended.
pub open spec fn unstarted(capture: bool, limit: Option<usize>) -> ProcessModel {
    ProcessModel {
        child: None,
        stdin_open: false,
        returncode: None,
        exit_announced: false,
        capture: CaptureModel {
            stdout: empty_lane(),
            stderr: empty_lane(),
            combined_queue: Seq::empty(),
            combined_history: Seq::empty(),
            stdout_closed: !capture,
            stderr_closed: !capture,
            limit: match limit {
                Some(n) => Some(n as nat),
                None => None,
            },
            overflowed: false,
        },
    }
}

/// A process after an exit was recorded.
pub open spec fn exited(model: ProcessModel, code: i32) -> ProcessModel {
    ProcessModel { returncode: Some(code), exit_announced: true, ..model }
}

/// Whether the record of an exit is announced.
pub open spec fn announces(model: ProcessModel) -> bool {
    !model.exit_announced
}

/// However often the exit of a child is seen, it is announced once: a process that
/// was not started announces its first exit, and none after it.
pub proof fn law_exit_is_announced_once(
    capture: bool,
    limit: Option<usize>,
    model: ProcessModel,
    code: i32,
)
    ensures
        announces(unstarted(capture, limit)),
        !announces(exited(model, code)),
{
}

impl View for NativeProcess {
    type V = ProcessModel;

    closed spec fn view(&self) -> ProcessModel {
        ProcessModel {
            child: self.child,
            stdin_open: self.stdin_open,
            returncode: self.returncode,
            exit_announced: self.exit_announced,
            capture: self.capture@,
        }
    }
}

impl NativeProcess {
    /// The configuration.
    pub closed spec fn spec_config(&self) -> ProcessConfig {
        self.config
    }

    /// Whether the capture keeps its invariant.
    pub closed spec fn wf(&self) -> bool {
        self.capture.wf()
    }

    /// A process that is not started.
    pub fn new(config: ProcessConfig) -> (p: NativeProcess)
        ensures
            p.wf(),
            p.spec_config() == config,
            p@ == unstarted(config.capture, None),
    {
        NativeProcess::new_with_options(config, None)
    }

    /// A process that is not started, with a limit on its raw output.
    pub fn new_with_options(config: ProcessConfig, capture_limit: Option<usize>) -> (p: NativeProcess)
        ensures
            p.wf(),
            p.spec_config() == config,
            p@ == unstarted(config.capture, capture_limit),
    {
        let capture = CaptureState::new(config.capture, capture_limit);
        NativeProcess {
            config,
            child: None,
            stdin_open: false,
            returncode: None,
            exit_announced: false,
            capture,
        }
    }

    /// The configuration.
    pub fn config(&self) -> (c: &ProcessConfig)
        ensures
            *c == self.spec_config(),
    {
        &self.config
    }

    /// The captured output.
    pub fn capture(&self) -> (c: &CaptureState)
        ensures
            c@ == self@.capture,
            self.wf() ==> c.wf(),
    {
        &self.capture
    }

    /// Begins a start. A wrapper owns one child at most.
    pub fn start(&self, exact_trace: bool, watched: bool, observed: bool, host: HostOs) -> (r: Result<
        (StartContext, StartState, StartAction),
        ProcessError,
    >)
        ensures
            match r {
                Ok((context, state, action)) => {
                    &&& self@.child is None
                    &&& context == (StartContext {
                        exact_trace,
                        watched,
                        observed,
                        uses_jobs: host == HostOs::Windows,
                        capture: self.spec_config().capture,
                        stderr_mode: self.spec_config().stderr_mode,
                    })
                    &&& (state, action) == start_from(context, StartState::Spawning)
                },
                Err(e) => self@.child is Some && e == ProcessError::AlreadyStarted,
            },
    {
        match self.child {
            Some(_) => Err(ProcessError::AlreadyStarted),
            None => {
                let context = StartContext {
                    exact_trace,
                    watched,
                    observed,
                    uses_jobs: host == HostOs::Windows,
                    capture: self.config.capture,
                    stderr_mode: self.config.stderr_mode,
                };
                let (state, action) = enter_start(context, StartState::Spawning);
                Ok((context, state, action))
            },
        }
    }

    /// Stores the child of a start.
    pub fn install(&mut self, pid: u32, stdin_open: bool)
        requires
            old(self).wf(),
        ensures
            final(self).wf(),
            final(self).spec_config() == old(self).spec_config(),
            final(self)@ == (ProcessModel { child: Some(pid), stdin_open, ..old(self)@ }),
    {
        self.child = Some(pid);
        self.stdin_open = stdin_open;
    }

    /// Number of the child that is owned.
    pub fn pid(&self) -> (p: Option<u32>)
        ensures
            p == self@.child,
    {
        self.child
    }

    /// Exit code of the child, once known.
    pub fn returncode(&self) -> (c: Option<i32>)
        ensures
            c == self@.returncode,
    {
        self.returncode
    }

    /// Records the exit of the child; true where it is to be announced, which is
    /// the case once.
    pub fn record_exit(&mut self, code: i32) -> (announce: bool)
        requires
            old(self).wf(),
        ensures
            final(self).wf(),
            final(self).spec_config() == old(self).spec_config(),
            final(self)@ == exited(old(self)@, code),
            announce == announces(old(self)@),
    {
        let announce: bool = !self.exit_announced;
        self.returncode = Some(code);
        self.exit_announced = true;
        announce
    }

    /// Whether the standard input of the child can be written.
    pub fn check_stdin(&self) -> (r: Result<(), ProcessError>)
        ensures
            r == (if self@.child is None {
                Err(ProcessError::NotRunning)
            } else if !self@.stdin_open {
                Err(ProcessError::StdinUnavailable)
            } else {
                Ok(())
            }),
    {
        match self.child {
            None => Err(ProcessError::NotRunning),
            Some(_) => if self.stdin_open {
                Ok(())
            } else {
                Err(ProcessError::StdinUnavailable)
            },
        }
    }

    /// Records how a write of the whole standard input went: it is closed after a
    /// write that went well.
    pub fn write_stdin(&mut self, outcome: Result<(), IoFailure>) -> (r: Result<(), ProcessError>)
        requires
            old(self).wf(),
        ensures
            final(self).wf(),
            final(self).spec_config() == old(self).spec_config(),
            r == (if old(self)@.child is None {
                Err(ProcessError::NotRunning)
            } else if !old(self)@.stdin_open {
                Err(ProcessError::StdinUnavailable)
            } else {
                match outcome {
                    Ok(()) => Ok(()),
                    Err(failed) => Err(ProcessError::Io(failed)),
                }
            }),
            final(self)@ == (if r is Ok {
                ProcessModel { stdin_open: false, ..old(self)@ }
            } else {
                old(self)@
            }),
    {
        let r = self.write_stdin_streaming(outcome);
        if r.is_ok() {
            self.stdin_open = false;
        }
        r
    }

    /// Judges how a write that leaves the standard input open went.
    pub fn write_stdin_streaming(&self, outcome: Result<(), IoFailure>) -> (r: Result<
        (),
        ProcessError,
    >)
        ensures
            r == (if self@.child is None {
                Err(ProcessError::NotRunning)
            } else if !self@.stdin_open {
                Err(ProcessError::StdinUnavailable)
            } else {
                match outcome {
                    Ok(()) => Ok(()),
                    Err(failed) => Err(ProcessError::Io(failed)),
                }
            }),
    {
        match self.check_stdin() {
            Err(e) => Err(e),
            Ok(()) => match outcome {
                Ok(()) => Ok(()),
                Err(failed) => Err(ProcessError::Io(failed)),
            },
        }
    }

    /// Closes the standard input of the child; to do so again is no failure.
    pub fn close_stdin(&mut self) -> (r: Result<(), ProcessError>)
        requires
            old(self).wf(),
        ensures
            final(self).wf(),
            final(self).spec_config() == old(self).spec_config(),
            r == (if old(self)@.child is None {
                Err(ProcessError::NotRunning)
            } else {
                Ok(())
            }),
            final(self)@ == (if r is Ok {
                ProcessModel { stdin_open: false, ..old(self)@ }
            } else {
                old(self)@
            }),
    {
        match self.child {
            None => Err(ProcessError::NotRunning),
            Some(_) => {
                self.stdin_open = false;
                Ok(())
            },
        }
    }

    /// Decides whether the exit of the child has to be looked for.
    pub fn poll(&self) -> (t: PollTurn)
        ensures
            t == (if self@.returncode is Some || self@.child is None {
                PollTurn::Report(self@.returncode)
            } else {
                PollTurn::Look
            }),
    {
        match self.returncode {
            Some(code) => PollTurn::Report(Some(code)),
            None => match self.child {
                None => PollTurn::Report(None),
                Some(_) => PollTurn::Look,
            },
        }
    }

    /// Records what a look for the exit gave; the flag says whether the exit is to
    /// be announced.
    pub fn polled(&mut self, look: Result<Option<i32>, IoFailure>) -> (r: (
        Result<Option<i32>, ProcessError>,
        bool,
    ))
        requires
            old(self).wf(),
        ensures
            final(self).wf(),
            final(self).spec_config() == old(self).spec_config(),
            match look {
                Ok(Some(code)) => r == (
                    Ok::<Option<i32>, ProcessError>(Some(code)),
                    !old(self)@.exit_announced,
                ) && final(self)@ == (ProcessModel {
                    returncode: Some(code),
                    exit_announced: true,
                    ..old(self)@
                }),
                Ok(None) => r == (Ok::<Option<i32>, ProcessError>(None), false) && final(self)@
                    == old(self)@,
                Err(failed) => r == (
                    Err::<Option<i32>, ProcessError>(ProcessError::Io(failed)),
                    false,
                ) && final(self)@ == old(self)@,
            },
    {
        match look {
            Ok(Some(code)) => {
                let announce: bool = self.record_exit(code);
                (Ok(Some(code)), announce)
            },
            Ok(None) => (Ok(None), false),
            Err(failed) => (Err(ProcessError::Io(failed)), false),
        }
    }

    /// Decides what a wait does, given how long it has waited and its limit, both
    /// in nanoseconds.
    pub fn wait(&self, elapsed: u128, timeout: Option<u128>) -> (t: WaitTurn)
        ensures
            t == wait_decision(self@, elapsed, timeout),
            t == (if self@.child is None {
                WaitTurn::Report(
                    match self@.returncode {
                        Some(code) => Ok(code),
                        None => Err(ProcessError::NotRunning),
                    },
                )
            } else {
                match self@.returncode {
                    Some(code) => WaitTurn::Drain(code),
                    None => match timeout {
                        None => WaitTurn::WaitFor(RECHECK_INTERVAL),
                        Some(limit) => if elapsed >= limit {
                            WaitTurn::Report(Err(ProcessError::Timeout))
                        } else if limit - elapsed < RECHECK_INTERVAL {
                            WaitTurn::WaitFor((limit - elapsed) as u128)
                        } else {
                            WaitTurn::WaitFor(RECHECK_INTERVAL)
                        },
                    },
                }
            }),
    {
        match self.child {
            None => match self.returncode {
                Some(code) => WaitTurn::Report(Ok(code)),
                None => WaitTurn::Report(Err(ProcessError::NotRunning)),
            },
            Some(_) => match self.returncode {
                Some(code) => WaitTurn::Drain(code),
                None => match timeout {
                    None => WaitTurn::WaitFor(RECHECK_INTERVAL),
                    Some(limit) => if elapsed >= limit {
                        WaitTurn::Report(Err(ProcessError::Timeout))
                    } else if limit - elapsed < RECHECK_INTERVAL {
                        WaitTurn::WaitFor(limit - elapsed)
                    } else {
                        WaitTurn::WaitFor(RECHECK_INTERVAL)
                    },
                },
            },
        }
    }

    /// Begins a kill.
    pub fn kill(&self, host: HostOs) -> (r: Result<(KillState, KillAction), ProcessError>)
        ensures
            r == kill_begin(self@, host),
            r == (if self@.child is None {
                Err(ProcessError::NotRunning)
            } else if host == HostOs::Windows {
                Ok((KillState::Waiting, KillAction::KillChild))
            } else {
                Ok((KillState::Looking, KillAction::TryWait))
            }),
    {
        match self.child {
            None => Err(ProcessError::NotRunning),
            Some(_) => if host == HostOs::Windows {
                Ok((KillState::Waiting, KillAction::KillChild))
            } else {
                Ok((KillState::Looking, KillAction::TryWait))
            },
        }
    }

    /// Terminates the child, by a kill.
    pub fn terminate(&self, host: HostOs) -> (r: Result<(KillState, KillAction), ProcessError>)
        ensures
            r == kill_begin(self@, host),
            r == (if self@.child is None {
                Err(ProcessError::NotRunning)
            } else if host == HostOs::Windows {
                Ok((KillState::Waiting, KillAction::KillChild))
            } else {
                Ok((KillState::Looking, KillAction::TryWait))
            }),
    {
        self.kill(host)
    }

    /// The process whose group a soft termination signals. Without a group of its
    /// own nothing is signalled: the signal would reach the caller's group.
    pub fn terminate_group_soft(&self) -> (r: Result<Option<u32>, ProcessError>)
        ensures
            r == (if !self.spec_config().create_process_group {
                Ok(None)
            } else {
                match self@.child {
                    Some(pid) => Ok(Some(pid)),
                    None => Err(ProcessError::NotRunning),
                }
            }),
    {
        if !self.config.create_process_group {
            return Ok(None);
        }
        match self.child {
            Some(pid) => Ok(Some(pid)),
            None => Err(ProcessError::NotRunning),
        }
    }

    /// Decides what a close does next; `watched` tells whether the tree of the
    /// child is watched. A child that runs is killed, the capture of one that
    /// exited is drained, and either way the watch is closed after it.
    pub fn close(&self, event: CloseEvent, watched: bool) -> (r: Result<CloseTurn, ProcessError>)
        ensures
            r == close_decision(self@, event, watched),
            r == (match event {
                CloseEvent::Asked => if self@.child is None {
                    Ok(CloseTurn::Done)
                } else {
                    Ok(CloseTurn::Poll)
                },
                CloseEvent::Polled(Err(e)) => Err(e),
                CloseEvent::Polled(Ok(None)) => Ok(CloseTurn::Kill),
                CloseEvent::Polled(Ok(Some(_))) => Ok(CloseTurn::Drain),
                CloseEvent::Ended => if watched {
                    Ok(CloseTurn::CloseWatch)
                } else {
                    Ok(CloseTurn::Done)
                },
            }),
    {
        match event {
            CloseEvent::Asked => match self.child {
                None => Ok(CloseTurn::Done),
                Some(_) => Ok(CloseTurn::Poll),
            },
            CloseEvent::Polled(Err(e)) => Err(e),
            CloseEvent::Polled(Ok(None)) => Ok(CloseTurn::Kill),
            CloseEvent::Polled(Ok(Some(_))) => Ok(CloseTurn::Drain),
            CloseEvent::Ended => if watched {
                Ok(CloseTurn::CloseWatch)
            } else {
                Ok(CloseTurn::Done)
            },
        }
    }

    /// Takes a chunk that a reader got and the lines that it completed.
    pub fn feed(&mut self, shown_as: StreamKind, chunk: &[u8], lines: &Vec<Vec<u8>>) -> (whole: bool)
        requires
            old(self).wf(),
        ensures
            final(self).wf(),
            final(self).spec_config() == old(self).spec_config(),
            whole == (old(self)@.capture.room(chunk@.len()) == chunk@.len()),
            ({
                let taken = old(self)@.capture.with_chunk(shown_as, chunk@);
                final(self)@ == (ProcessModel {
                    capture: if whole && !taken.overflowed {
                        taken.with_lines(shown_as, line_views(lines@))
                    } else {
                        taken
                    },
                    ..old(self)@
                })
            }),
    {
        if self.capture.append_raw(shown_as, chunk) {
            self.capture.emit_lines(shown_as, lines);
            true
        } else {
            false
        }
    }

    /// Records that a reader is done: what it had left is a last line, and its pipe
    /// is closed.
    pub fn finish_reader(&mut self, source: StreamKind, shown_as: StreamKind, rest: &[u8])
        requires
            old(self).wf(),
        ensures
            final(self).wf(),
            final(self).spec_config() == old(self).spec_config(),
            ({
                let last = if rest@.len() == 0 || old(self)@.capture.overflowed {
                    old(self)@.capture
                } else {
                    old(self)@.capture.with_line(shown_as, rest@)
                };
                final(self)@ == (ProcessModel {
                    capture: match source {
                        StreamKind::Stdout => CaptureModel { stdout_closed: true, ..last },
                        StreamKind::Stderr => CaptureModel { stderr_closed: true, ..last },
                    },
                    ..old(self)@
                })
            }),
    {
        self.capture.emit_rest(shown_as, rest);
        self.capture.close_pipe(source);
    }

    /// Decides what a drain of the capture does; `expired` says whether its
    /// deadline passed. Pipes that a descendant still holds are given up then, so
    /// that readers see an end.
    pub fn finalize_capture(&mut self, expired: bool) -> (t: DrainTurn)
        requires
            old(self).wf(),
        ensures
            final(self).wf(),
            final(self).spec_config() == old(self).spec_config(),
            t == (if !old(self).spec_config().capture || (old(self)@.capture.stdout_closed && old(
                self,
            )@.capture.stderr_closed) {
                DrainTurn::Drained
            } else if expired {
                DrainTurn::Forced
            } else {
                DrainTurn::Wait
            }),
            final(self)@ == (if t == DrainTurn::Forced {
                ProcessModel {
                    capture: CaptureModel {
                        stdout_closed: true,
                        stderr_closed: true,
                        ..old(self)@.capture
                    },
                    ..old(self)@
                }
            } else {
                old(self)@
            }),
    {
        if !self.config.capture || self.capture.is_complete() {
            DrainTurn::Drained
        } else if expired {
            self.capture.force_complete();
            DrainTurn::Forced
        } else {
            DrainTurn::Wait
        }
    }

    /// Whether lines of a stream wait.
    pub fn has_pending_stream(&self, stream: StreamKind) -> (b: bool)
        ensures
            b == (CaptureModel::shown(self.spec_config().stderr_mode, stream)
                && self@.capture.lane(stream).queue.len() > 0),
    {
        self.capture.has_pending_stream(self.config.stderr_mode, stream)
    }

    /// Whether lines of both streams wait.
    pub fn has_pending_combined(&self) -> (b: bool)
        ensures
            b == (self@.capture.combined_queue.len() > 0),
    {
        self.capture.has_pending_combined()
    }

    /// Takes all waiting lines of a stream out.
    pub fn drain_stream(&mut self, stream: StreamKind) -> (lines: Vec<Vec<u8>>)
        requires
            old(self).wf(),
        ensures
            final(self).wf(),
            final(self).spec_config() == old(self).spec_config(),
            CaptureModel::shown(old(self).spec_config().stderr_mode, stream) ==> {
                &&& line_views(lines@) == old(self)@.capture.lane(stream).queue
                &&& final(self)@ == (ProcessModel {
                    capture: old(self)@.capture.with_lane(
                        stream,
                        LaneModel { queue: Seq::empty(), ..old(self)@.capture.lane(stream) },
                    ),
                    ..old(self)@
                })
            },
            !CaptureModel::shown(old(self).spec_config().stderr_mode, stream) ==> lines@.len() == 0
                && final(self)@ == old(self)@,
    {
        self.capture.drain_stream(self.config.stderr_mode, stream)
    }

    /// Takes all waiting lines of both streams out.
    pub fn drain_combined(&mut self) -> (events: Vec<StreamEvent>)
        requires
            old(self).wf(),
        ensures
            final(self).wf(),
            final(self).spec_config() == old(self).spec_config(),
            event_views(events@) == old(self)@.capture.combined_queue,
            final(self)@ == (ProcessModel {
                capture: CaptureModel { combined_queue: Seq::empty(), ..old(self)@.capture },
                ..old(self)@
            }),
    {
        self.capture.drain_combined()
    }

    /// One turn of a read of a stream: the next line, the end, or a wait.
    /// `timed_out` says whether the last wait ran out, `remaining` what is left of
    /// the limit in nanoseconds.
    pub fn read_stream(&mut self, stream: StreamKind, timed_out: bool, remaining: Option<u128>) -> (t:
        ReadTurn<Vec<u8>>)
        requires
            old(self).wf(),
        ensures
            final(self).wf(),
            final(self).spec_config() == old(self).spec_config(),
            ({
                let mode = old(self).spec_config().stderr_mode;
                let lane = old(self)@.capture.lane(stream);
                let shown = CaptureModel::shown(mode, stream);
                match t {
                    ReadTurn::Report(ReadStatus::Line(line)) => {
                        &&& !timed_out
                        &&& shown
                        &&& lane.queue.len() > 0
                        &&& line@ == lane.queue[0]
                        &&& final(self)@ == (ProcessModel {
                            capture: old(self)@.capture.with_lane(
                                stream,
                                LaneModel { queue: lane.queue.skip(1), ..lane },
                            ),
                            ..old(self)@
                        })
                    },
                    ReadTurn::Report(ReadStatus::Eof) => final(self)@ == old(self)@ && !timed_out
                        && (!shown || (lane.queue.len() == 0 && old(self)@.capture.ended(
                        mode,
                        stream,
                    ))),
                    ReadTurn::Report(ReadStatus::Timeout) => final(self)@ == old(self)@ && (
                    timed_out || (remaining == Some(0u128) && shown && lane.queue.len() == 0
                        && !old(self)@.capture.ended(mode, stream))),
                    ReadTurn::WaitFor(limit) => final(self)@ == old(self)@ && !timed_out && limit
                        == remaining && remaining != Some(0u128) && shown && lane.queue.len() == 0
                        && !old(self)@.capture.ended(mode, stream),
                }
            }),
    {
        if timed_out {
            return ReadTurn::Report(ReadStatus::Timeout);
        }
        match self.capture.next_line(self.config.stderr_mode, stream) {
            NextItem::Item(line) => ReadTurn::Report(ReadStatus::Line(line)),
            NextItem::Ended => ReadTurn::Report(ReadStatus::Eof),
            NextItem::Pending => match remaining {
                Some(left) => if left == 0 {
                    ReadTurn::Report(ReadStatus::Timeout)
                } else {
                    ReadTurn::WaitFor(Some(left))
                },
                None => ReadTurn::WaitFor(None),
            },
        }
    }

    /// One turn of a read of both streams.
    pub fn read_combined(&mut self, timed_out: bool, remaining: Option<u128>) -> (t: ReadTurn<
        StreamEvent,
    >)
        requires
            old(self).wf(),
        ensures
            final(self).wf(),
            final(self).spec_config() == old(self).spec_config(),
            ({
                let queue = old(self)@.capture.combined_queue;
                let ended = old(self)@.capture.stdout_closed && old(self)@.capture.stderr_closed;
                match t {
                    ReadTurn::Report(ReadStatus::Line(event)) => {
                        &&& !timed_out
                        &&& queue.len() > 0
                        &&& line_model(event) == queue[0]
                        &&& final(self)@ == (ProcessModel {
                            capture: CaptureModel {
                                combined_queue: queue.skip(1),
                                ..old(self)@.capture
                            },
                            ..old(self)@
                        })
                    },
                    ReadTurn::Report(ReadStatus::Eof) => final(self)@ == old(self)@ && !timed_out
                        && queue.len() == 0 && ended,
                    ReadTurn::Report(ReadStatus::Timeout) => final(self)@ == old(self)@ && (
                    timed_out || (remaining == Some(0u128) && queue.len() == 0 && !ended)),
                    ReadTurn::WaitFor(limit) => final(self)@ == old(self)@ && !timed_out && limit
                        == remaining && remaining != Some(0u128) && queue.len() == 0 && !ended,
                }
            }),
    {
        if timed_out {
            return ReadTurn::Report(ReadStatus::Timeout);
        }
        match self.capture.next_combined() {
            NextItem::Item(event) => ReadTurn::Report(ReadStatus::Line(event)),
            NextItem::Ended => ReadTurn::Report(ReadStatus::Eof),
            NextItem::Pending => match remaining {
                Some(left) => if left == 0 {
                    ReadTurn::Report(ReadStatus::Timeout)
                } else {
                    ReadTurn::WaitFor(Some(left))
                },
                None => ReadTurn::WaitFor(None),
            },
        }
    }

    /// The captured lines of standard output.
    pub fn captured_stdout(&self) -> (lines: Vec<Vec<u8>>)
        ensures
            line_views(lines@) == self@.capture.stdout.history,
    {
        self.capture.captured_lines(self.config.stderr_mode, StreamKind::Stdout)
    }

    /// The captured lines of standard error; none where it goes into standard
    /// output.
    pub fn captured_stderr(&self) -> (lines: Vec<Vec<u8>>)
        ensures
            line_views(lines@) == (if self.spec_config().stderr_mode == StderrMode::Stdout {
                Seq::empty()
            } else {
                self@.capture.stderr.history
            }),
    {
        self.capture.captured_lines(self.config.stderr_mode, StreamKind::Stderr)
    }

    /// The captured bytes of a stream.
    pub fn captured_raw(&self, stream: StreamKind) -> (bytes: Vec<u8>)
        ensures
            bytes@ == (if CaptureModel::shown(self.spec_config().stderr_mode, stream) {
                self@.capture.lane(stream).raw
            } else {
                Seq::empty()
            }),
    {
        self.capture.captured_raw(self.config.stderr_mode, stream)
    }

    /// The captured lines of both streams.
    pub fn captured_combined(&self) -> (events: Vec<StreamEvent>)
        ensures
            event_views(events@) == self@.capture.combined_history,
    {
        self.capture.captured_combined()
    }

    /// Number of bytes of the captured lines of a stream.
    pub fn captured_stream_bytes(&self, stream: StreamKind) -> (n: usize)
        requires
            self.wf(),
        ensures
            n == (if CaptureModel::shown(self.spec_config().stderr_mode, stream) {
                counted(line_bytes(self@.capture.lane(stream).history))
            } else {
                0
            }),
    {
        self.capture.captured_stream_bytes(self.config.stderr_mode, stream)
    }

    /// Number of bytes of the captured lines of both streams.
    pub fn captured_combined_bytes(&self) -> (n: usize)
        requires
            self.wf(),
        ensures
            n == counted(event_bytes(self@.capture.combined_history)),
    {
        self.capture.captured_combined_bytes()
    }

    /// Forgets what was captured of a stream, and returns the number of bytes of
    /// its lines.
    pub fn clear_captured_stream(&mut self, stream: StreamKind) -> (n: usize)
        requires
            old(self).wf(),
        ensures
            final(self).wf(),
            final(self).spec_config() == old(self).spec_config(),
            CaptureModel::shown(old(self).spec_config().stderr_mode, stream) ==> {
                &&& n == counted(line_bytes(old(self)@.capture.lane(stream).history))
                &&& final(self)@ == (ProcessModel {
                    capture: old(self)@.capture.with_lane(
                        stream,
                        LaneModel {
                            queue: old(self)@.capture.lane(stream).queue,
                            history: Seq::empty(),
                            raw: Seq::empty(),
                        },
                    ),
                    ..old(self)@
                })
            },
            !CaptureModel::shown(old(self).spec_config().stderr_mode, stream) ==> n == 0 && final(self)@ == old(self)@,
    {
        self.capture.clear_captured_stream(self.config.stderr_mode, stream)
    }

    /// Forgets what was captured of both streams together, and returns the number
    /// of bytes of its lines.
    pub fn clear_captured_combined(&mut self) -> (n: usize)
        requires
            old(self).wf(),
        ensures
            final(self).wf(),
            final(self).spec_config() == old(self).spec_config(),
            n == counted(event_bytes(old(self)@.capture.combined_history)),
            final(self)@ == (ProcessModel {
                capture: CaptureModel { combined_history: Seq::empty(), ..old(self)@.capture },
                ..old(self)@
            }),
    {
        self.capture.clear_captured_combined()
    }
}

/// What a capture reader does after a poll of its pipe and of its wake-up.
#[derive(Clone, Copy, Debug, PartialEq, Eq, Structural)]
pub enum CapturePollAction {
    /// Poll again.
    Wait,
    /// Read the pipe.
    Read,
    /// Stop.
    Cancel,
}

/// Decides what a capture reader does; a wake-up comes before data.
pub fn capture_poll_action(capture_revents: i16, wake_revents: i16) -> (a: CapturePollAction)
    ensures
        a == (if wake_revents != 0 {
            CapturePollAction::Cancel
        } else if capture_revents != 0 {
            CapturePollAction::Read
        } else {
            CapturePollAction::Wait
        }),
{
    if wake_revents != 0 {
        CapturePollAction::Cancel
    } else if capture_revents != 0 {
        CapturePollAction::Read
    } else {
        CapturePollAction::Wait
    }
}

/// One turn of a wait for the capture readers, of which some are active: the wait
/// ends with whether all of them ended before the deadline.
pub fn wait_for_capture_readers_with_deadline(active: usize, expired: bool) -> (ended: Option<bool>)
    ensures
        ended == (if active == 0 {
            Some(true)
        } else if expired {
            Some(false)
        } else {
            None::<bool>
        }),
{
    if active == 0 {
        Some(true)
    } else if expired {
        Some(false)
    } else {
        None
    }
}

/// The state of a kill and what it last asked for, after some events.
pub open spec fn kill_after(
    own_group: bool,
    start: (KillState, KillAction),
    events: Seq<KillEvent>,
) -> (KillState, KillAction)
    decreases events.len(),
{
    if events.len() == 0 {
        start
    } else {
        let before = kill_after(own_group, start, events.drop_last());
        let (state, action) = kill_next(own_group, before.0, events.last());
        if action is Ignore {
            before
        } else {
            (state, action)
        }
    }
}

/// Whether the first events of a kill ended the child: it was seen to have exited,
/// or a signal that was asked for was sent.
pub open spec fn child_ended(
    own_group: bool,
    start: (KillState, KillAction),
    events: Seq<KillEvent>,
) -> bool {
    exists|k: int|
        #![trigger events[k]]
        0 <= k < events.len() && {
            ||| events[k] matches KillEvent::Exit(Some(_))
            ||| events[k] is Done && {
                let asked = kill_after(own_group, start, events.take(k)).1;
                asked is SignalGroup || asked is KillChild
            }
        }
}

proof fn lemma_child_stays_ended(
    own_group: bool,
    start: (KillState, KillAction),
    events: Seq<KillEvent>,
)
    requires
        events.len() > 0,
        child_ended(own_group, start, events.drop_last()),
    ensures
        child_ended(own_group, start, events),
{
    let front = events.drop_last();
    let k = choose|k: int|
        #![trigger front[k]]
        0 <= k < front.len() && {
            ||| front[k] matches KillEvent::Exit(Some(_))
            ||| front[k] is Done && {
                let asked = kill_after(own_group, start, front.take(k)).1;
                asked is SignalGroup || asked is KillChild
            }
        };
    assert(front.take(k) =~= events.take(k));
    assert(events[k] == front[k]);
}

/// The capture of a child is not touched, its exit is not recorded and the kill
/// does not succeed before the child was seen to have exited or was signalled: by
/// a signal to its group or to itself that was sent as asked.
pub proof fn law_kill_ends_the_child(
    own_group: bool,
    start: (KillState, KillAction),
    events: Seq<KillEvent>,
)
    requires
        start == (KillState::Looking, KillAction::TryWait) || start == (
            KillState::Waiting,
            KillAction::KillChild,
        ),
    ensures
        ({
            let (state, action) = kill_after(own_group, start, events);
            &&& action is CancelCapture || action is RecordExit || action is ReapUntilDeadline
                || action is AwaitCapture || action is Succeed ==> child_ended(
                own_group,
                start,
                events,
            )
            &&& match state {
                KillState::Looking => action is TryWait,
                KillState::SignallingGroup => action is SignalGroup,
                KillState::Killing => action is KillChild,
                KillState::Waiting => action is KillChild || action is WaitForExit,
                KillState::Finished => action is Succeed || action is Fail,
                _ => child_ended(own_group, start, events),
            }
        }),
    decreases events.len(),
{
    if events.len() > 0 {
        let front = events.drop_last();
        law_kill_ends_the_child(own_group, start, front);
        assert(events.take(front.len() as int) =~= front);
        assert(events[front.len() as int] == events.last());
        if child_ended(own_group, start, front) {
            lemma_child_stays_ended(own_group, start, events);
        }
    }
}

/// A child that still runs is signalled at once: its group where it leads one, and
/// itself where it does not or where its group could not be signalled. The capture
/// is cancelled without a known exit only after such a signal.
pub proof fn law_running_children_are_signalled(own_group: bool, state: KillState, event: KillEvent)
    ensures
        kill_next(own_group, KillState::Looking, KillEvent::Exit(None)) == (if own_group {
            (KillState::SignallingGroup, KillAction::SignalGroup)
        } else {
            (KillState::Killing, KillAction::KillChild)
        }),
        event is Failed ==> kill_next(own_group, KillState::SignallingGroup, event) == (
            KillState::Killing,
            KillAction::KillChild,
        ),
        kill_next(own_group, state, event).0 == KillState::Cancelling(None) && state
            != KillState::Cancelling(None) ==> event is Done && (state is SignallingGroup
            || state is Killing),
        kill_next(own_group, state, event).1 is SignalGroup || kill_next(
            own_group,
            state,
            event,
        ).1 is KillChild ==> event == KillEvent::Exit(None) || event is Failed,
{
}

/// The exit that is recorded is the one that was seen, and every exit that was seen
/// is recorded, at once or after the capture was cancelled.
pub proof fn law_seen_exits_are_recorded(
    own_group: bool,
    state: KillState,
    event: KillEvent,
    code: i32,
)
    ensures
        kill_next(own_group, state, event).1 == KillAction::RecordExit(code) ==> event
            == KillEvent::Exit(Some(code)) || (state == KillState::Cancelling(Some(code)) && event
            is Done),
        kill_next(own_group, state, event).0 == KillState::Cancelling(Some(code)) && state
            != KillState::Cancelling(Some(code)) ==> event == KillEvent::Exit(Some(code)),
        kill_next(own_group, KillState::Looking, KillEvent::Exit(Some(code))) == (
            KillState::Cancelling(Some(code)),
            KillAction::CancelCapture,
        ),
        kill_next(own_group, KillState::Cancelling(Some(code)), KillEvent::Done).1
            == KillAction::RecordExit(code),
        kill_next(own_group, KillState::Waiting, KillEvent::Exit(Some(code))).1
            == KillAction::RecordExit(code),
        kill_next(own_group, KillState::Reaping, KillEvent::Exit(Some(code))).1
            == KillAction::RecordExit(code),
{
}

/// A kill fails exactly where its look, its signal to the child or its wait fails,
/// with that failure; an exit that could not be looked for in time is no failure.
pub proof fn law_kill_reports_what_failed(own_group: bool, state: KillState, event: KillEvent)
    ensures
        ({
            let action = kill_next(own_group, state, event).1;
            &&& action is Fail <==> event is Failed && (state is Looking || state is Killing
                || state is Waiting)
            &&& action is Fail ==> action == KillAction::Fail(ProcessError::Io(event->Failed_0))
                && kill_next(own_group, state, event).0 is Finished
            &&& state is Reaping && (event is Failed || event == KillEvent::Exit(None)) ==> action
                is AwaitCapture
        }),
{
}

/// Whatever a kill found, its run comes to an end: a child that runs is signalled,
/// its capture is cancelled, its exit is looked for and recorded where it shows,
/// and the capture is waited for. Where the host contains children in jobs the exit
/// is waited for and recorded before the capture is cancelled.
pub proof fn law_undisturbed_kill_succeeds(own_group: bool, code: i32)
    ensures
        ({
            let signalled = kill_next(own_group, KillState::Looking, KillEvent::Exit(None));
            let cancelling = kill_next(own_group, signalled.0, KillEvent::Done);
            let reaping = kill_next(own_group, cancelling.0, KillEvent::Done);
            let recording = kill_next(own_group, reaping.0, KillEvent::Exit(Some(code)));
            let draining = kill_next(own_group, recording.0, KillEvent::Done);
            let unseen = kill_next(own_group, reaping.0, KillEvent::Exit(None));
            &&& cancelling.1 is CancelCapture
            &&& reaping.1 is ReapUntilDeadline
            &&& recording.1 == KillAction::RecordExit(code)
            &&& draining.1 is AwaitCapture
            &&& unseen.1 is AwaitCapture
            &&& kill_next(own_group, draining.0, KillEvent::Done).1 is Succeed
            &&& kill_next(own_group, unseen.0, KillEvent::Done).1 is Succeed
        }),
        ({
            let cancelling = kill_next(own_group, KillState::Looking, KillEvent::Exit(Some(code)));
            let recording = kill_next(own_group, cancelling.0, KillEvent::Done);
            let draining = kill_next(own_group, recording.0, KillEvent::Done);
            &&& cancelling.1 is CancelCapture
            &&& draining.1 is AwaitCapture
            &&& kill_next(own_group, draining.0, KillEvent::Done).1 is Succeed
        }),
        ({
            let waiting = kill_next(own_group, KillState::Waiting, KillEvent::Done);
            let longer = kill_next(own_group, waiting.0, KillEvent::Exit(None));
            let recording = kill_next(own_group, longer.0, KillEvent::Exit(Some(code)));
            let cancelling = kill_next(own_group, recording.0, KillEvent::Done);
            let draining = kill_next(own_group, cancelling.0, KillEvent::Done);
            &&& waiting.1 is WaitForExit
            &&& longer.1 is WaitForExit
            &&& recording.1 == KillAction::RecordExit(code)
            &&& cancelling.1 is CancelCapture
            &&& draining.1 is AwaitCapture
            &&& kill_next(own_group, draining.0, KillEvent::Done).1 is Succeed
        }),
{
}

/// A plan runs what was configured: the shell line as it is, or the program and its
/// arguments which together are the configured list; in the configured directory
/// and environment, with the configured limits.
pub proof fn law_plans_run_what_was_configured(
    plan: CommandPlan,
    config: ProcessConfig,
    kill_when_owner_dies: bool,
)
    requires
        plans(plan, config, kill_when_owner_dies),
    ensures
        config.command matches CommandSpec::Shell(line) ==> (plan.program
            matches PlannedProgram::Shell(command) && command@ == line@),
        config.command matches CommandSpec::Argv(argv) ==> (plan.program
            matches PlannedProgram::Direct { program, args } && args@.len() + 1 == argv@.len()
            && program@ == argv@[0]@ && forall|i: int|
            0 <= i < args@.len() ==> (#[trigger] args@[i])@ == argv@[i + 1]@),
        plan.cwd is Some == config.cwd is Some,
        plan.cwd matches Some(cwd) ==> cwd@ == config.cwd->0@,
        plan.env is Some == config.env is Some,
        plan.env matches Some(env) ==> env@.len() == config.env->0@.len() && forall|i: int|
            0 <= i < env@.len() ==> (#[trigger] env@[i]).0@ == config.env->0@[i].0@ && env@[i].1@
                == config.env->0@[i].1@,
        plan.limits.creation_flags == config.creationflags,
        plan.limits.create_process_group == config.create_process_group,
        plan.limits.nice == config.nice,
        plan.limits.address_space_limit_bytes == config.address_space_limit_bytes,
        plan.limits.kill_when_owner_dies == kill_when_owner_dies,
{
    match config.command {
        CommandSpec::Argv(argv) => {
            match plan.program {
                PlannedProgram::Direct { program, args } => {
                    assert(texts(args@).len() == texts(argv@).skip(1).len());
                    assert forall|i: int| 0 <= i < args@.len() implies (#[trigger] args@[i])@
                        == argv@[i + 1]@ by {
                        assert(texts(args@)[i] == texts(argv@).skip(1)[i]);
                    }
                },
                _ => {},
            }
        },
        _ => {},
    }
    if plan.env is Some {
        let a = plan.env->0@;
        let b = config.env->0@;
        assert(pair_texts(a).len() == pair_texts(b).len());
        assert forall|i: int| 0 <= i < a.len() implies (#[trigger] a[i]).0@ == b[i].0@ && a[i].1@
            == b[i].1@ by {
            assert(pair_texts(a)[i] == pair_texts(b)[i]);
        }
    }
}

/// A start in which nothing fails spawns the child, traced and piped as asked, logs
/// it, announces it where it is observed, contains it where the host has jobs,
/// monitors its descendants where tracing does not, prepares both pipes and starts
/// the readers where it is captured, and in the end stores it and succeeds.
pub proof fn law_undisturbed_start(context: StartContext)
    ensures
        ({
            let done = |state: StartState| start_next(context, state, StartEvent::Done);
            let stored = StartAction::Install;
            let read = if context.capture {
                StartAction::PrepareStdout
            } else {
                stored
            };
            let monitored = if context.exact_trace {
                read
            } else {
                StartAction::StartMonitor
            };
            let contained = if context.uses_jobs {
                StartAction::AssignJob
            } else {
                monitored
            };
            let announced = if context.observed {
                StartAction::EmitStarted
            } else {
                contained
            };
            &&& start_from(context, StartState::Spawning).1 == (StartAction::Spawn {
                exact_trace: context.exact_trace,
                pipe_output: context.capture,
            })
            &&& done(StartState::Spawning).1 is LogPid
            &&& done(done(StartState::Spawning).0).1 == announced
            &&& done(StartState::Announcing).1 == contained
            &&& done(StartState::Containing).1 == monitored
            &&& done(StartState::Monitoring).1 == read
            &&& done(StartState::PreparingStdout).1 is PrepareStderr
            &&& done(StartState::PreparingStderr).1 == (StartAction::SpawnReaders {
                stderr_shown_as: if context.stderr_mode == StderrMode::Stdout {
                    StreamKind::Stdout
                } else {
                    StreamKind::Stderr
                },
            })
            &&& done(StartState::Reading).1 == stored
            &&& done(StartState::Installing).1 is Succeed
            &&& done(StartState::Finished).1 is Ignore
        }),
{
    reveal_with_fuel(start_from, 6);
}

/// The state of a start names what it asked for last.
pub proof fn law_start_states_name_their_action(context: StartContext, state: StartState)
    ensures
        match start_next(context, state, StartEvent::Done) {
            (next, action) => match action {
                StartAction::Spawn { .. } => next == StartState::Spawning,
                StartAction::LogPid => next == StartState::Logging,
                StartAction::EmitStarted => next == StartState::Announcing,
                StartAction::AssignJob => next == StartState::Containing,
                StartAction::StartMonitor => next == StartState::Monitoring,
                StartAction::PrepareStdout => next == StartState::PreparingStdout,
                StartAction::PrepareStderr => next == StartState::PreparingStderr,
                StartAction::SpawnReaders { .. } => next == StartState::Reading,
                StartAction::Install => next == StartState::Installing,
                StartAction::Succeed => next == StartState::Finished,
                StartAction::Fail(_) => false,
                StartAction::Ignore => state == StartState::Finished && next == state,
            },
        },
{
    reveal_with_fuel(start_from, 6);
}

/// A failed start is over and reports what failed. A child that could not be
/// contained, or whose output could not be prepared, is ended; before that there is
/// none to end. A watch is closed where tracing never began or the child was not
/// contained.
pub proof fn law_failed_starts_are_undone(
    context: StartContext,
    state: StartState,
    failed: IoFailure,
)
    requires
        state != StartState::Finished,
    ensures
        start_next(context, state, StartEvent::Failed(failed)) matches (
            StartState::Finished,
            StartAction::Fail(failure),
        ) && {
            &&& failure.error == ProcessError::Spawn(failed)
            &&& failure.end_child <==> state == StartState::Containing || state
                == StartState::PreparingStdout || state == StartState::PreparingStderr
            &&& failure.release_stdout <==> state == StartState::PreparingStderr
            &&& failure.close_watch <==> context.watched && (state == StartState::Containing || (
            state == StartState::Spawning && context.exact_trace))
        },
{
}

/// A recorded exit shows its code, and changes neither the child nor its output.
pub proof fn law_recorded_exits_show(model: ProcessModel, code: i32, again: i32)
    ensures
        exited(model, code).returncode == Some(code),
        exited(model, code).child == model.child,
        exited(model, code).stdin_open == model.stdin_open,
        exited(model, code).capture == model.capture,
        exited(exited(model, code), again).returncode == Some(again),
        announces(model) <==> !model.exit_announced,
{
}

/// A process that was not started owns no child and no output; its streams are open
/// exactly where they are captured.
pub proof fn law_unstarted_processes_hold_nothing(
    capture: bool,
    limit: Option<usize>,
    stderr_mode: StderrMode,
    stream: StreamKind,
)
    ensures
        ({
            let model = unstarted(capture, limit);
            &&& model.child is None && !model.stdin_open && model.returncode is None
            &&& model.capture.lane(stream).queue.len() == 0
            &&& model.capture.lane(stream).history.len() == 0
            &&& model.capture.lane(stream).raw.len() == 0
            &&& model.capture.combined_queue.len() == 0
            &&& model.capture.combined_history.len() == 0
            &&& !model.capture.overflowed
            &&& model.capture.ended(stderr_mode, stream) <==> !capture
            &&& model.capture.limit is Some == limit is Some
            &&& limit matches Some(n) ==> model.capture.limit == Some(n as nat)
        }),
{
}

/// What a wait does, given how long it has waited and its limit.
pub open spec fn wait_decision(model: ProcessModel, elapsed: u128, timeout: Option<u128>) -> WaitTurn {
    if model.child is None {
        WaitTurn::Report(
            match model.returncode {
                Some(code) => Ok(code),
                None => Err(ProcessError::NotRunning),
            },
        )
    } else {
        match model.returncode {
            Some(code) => WaitTurn::Drain(code),
            None => match timeout {
                None => WaitTurn::WaitFor(RECHECK_INTERVAL),
                Some(limit) => if elapsed >= limit {
                    WaitTurn::Report(Err(ProcessError::Timeout))
                } else if limit - elapsed < RECHECK_INTERVAL {
                    WaitTurn::WaitFor((limit - elapsed) as u128)
                } else {
                    WaitTurn::WaitFor(RECHECK_INTERVAL)
                },
            },
        }
    }
}

/// A wait ends as soon as the exit is known, with its code; it times out only at its
/// limit and never without one; and it never waits past its limit, nor longer than
/// 50 milliseconds between two looks.
pub proof fn law_waits_end(model: ProcessModel, elapsed: u128, timeout: Option<u128>)
    ensures
        ({
            let turn = wait_decision(model, elapsed, timeout);
            &&& model.returncode matches Some(code) ==> turn == WaitTurn::Report(Ok(code)) || turn
                == WaitTurn::Drain(code)
            &&& turn is Drain <==> model.child is Some && model.returncode is Some
            &&& turn == WaitTurn::Report(Err(ProcessError::NotRunning)) <==> model.child is None
                && model.returncode is None
            &&& turn == WaitTurn::Report(Err(ProcessError::Timeout)) <==> model.child is Some
                && model.returncode is None && timeout is Some && elapsed >= timeout->0
            &&& turn matches WaitTurn::WaitFor(nanos) ==> {
                &&& 0 < nanos <= 50_000_000
                &&& timeout matches Some(limit) ==> elapsed + nanos <= limit
                &&& model.returncode is None && model.child is Some
            }
            &&& timeout is None && turn is WaitFor ==> turn == WaitTurn::WaitFor(50_000_000)
        }),
{
}

/// How a kill begins.
pub open spec fn kill_begin(model: ProcessModel, host: HostOs) -> Result<
    (KillState, KillAction),
    ProcessError,
> {
    if model.child is None {
        Err(ProcessError::NotRunning)
    } else if host == HostOs::Windows {
        Ok((KillState::Waiting, KillAction::KillChild))
    } else {
        Ok((KillState::Looking, KillAction::TryWait))
    }
}

/// Every child that is owned can be killed, and nothing else: the child is killed at
/// once where the host contains children in jobs, and looked at first elsewhere, so
/// that the number of a child that was reaped is never signalled. No kill that was
/// begun like this succeeds before the child has ended or was signalled.
pub proof fn law_kills_begin_with_the_child(
    model: ProcessModel,
    host: HostOs,
    own_group: bool,
    events: Seq<KillEvent>,
)
    ensures
        kill_begin(model, host) is Ok <==> model.child is Some,
        kill_begin(model, host) is Err ==> kill_begin(model, host) == Err::<
            (KillState, KillAction),
            ProcessError,
        >(ProcessError::NotRunning),
        kill_begin(model, host) matches Ok(start) ==> {
            &&& start.1 is KillChild || start.1 is TryWait
            &&& start.1 is KillChild <==> host == HostOs::Windows
            &&& kill_after(own_group, start, events).1 is Succeed ==> child_ended(
                own_group,
                start,
                events,
            )
        },
{
    if kill_begin(model, host) is Ok {
        law_kill_ends_the_child(own_group, kill_begin(model, host)->Ok_0, events);
    }
}

/// What the exit waiter does after a look at the child.
pub open spec fn waiter_decision(known: bool, look: ChildLook) -> WaiterAction {
    if known {
        WaiterAction::Stop
    } else {
        match look {
            ChildLook::Gone => WaiterAction::Stop,
            ChildLook::Running => WaiterAction::Pause(10),
            ChildLook::Exited(code) => WaiterAction::Record(code),
            ChildLook::Failed { retryable } => if retryable {
                WaiterAction::Pause(10)
            } else {
                WaiterAction::Stop
            },
        }
    }
}

/// The exit waiter records exactly the exit that it saw first, looks again after 10
/// milliseconds for as long as the child runs or may be looked at later, and stops
/// otherwise.
pub proof fn law_waiter_records_the_exit(known: bool, look: ChildLook, code: i32)
    ensures
        waiter_decision(known, look) == WaiterAction::Record(code) <==> !known && look
            == ChildLook::Exited(code),
        waiter_decision(known, look) is Pause <==> !known && (look is Running || look
            == (ChildLook::Failed { retryable: true })),
        waiter_decision(known, look) matches WaiterAction::Pause(ms) ==> ms == 10,
{
}

/// What a close does next.
pub open spec fn close_decision(model: ProcessModel, event: CloseEvent, watched: bool) -> Result<
    CloseTurn,
    ProcessError,
> {
    match event {
        CloseEvent::Asked => if model.child is None {
            Ok(CloseTurn::Done)
        } else {
            Ok(CloseTurn::Poll)
        },
        CloseEvent::Polled(Err(e)) => Err(e),
        CloseEvent::Polled(Ok(None)) => Ok(CloseTurn::Kill),
        CloseEvent::Polled(Ok(Some(_))) => Ok(CloseTurn::Drain),
        CloseEvent::Ended => if watched {
            Ok(CloseTurn::CloseWatch)
        } else {
            Ok(CloseTurn::Done)
        },
    }
}

/// A close kills a child exactly where the look shows that it runs, drains the capture
/// of one that exited, does nothing without a child, and in the end closes the watch
/// where there is one.
pub proof fn law_close_ends_what_runs(model: ProcessModel, event: CloseEvent, watched: bool)
    ensures
        ({
            let turn = close_decision(model, event, watched);
            &&& turn == Ok::<CloseTurn, ProcessError>(CloseTurn::Kill) <==> event
                == CloseEvent::Polled(Ok(None))
            &&& turn == Ok::<CloseTurn, ProcessError>(CloseTurn::Drain) <==> (event
                matches CloseEvent::Polled(Ok(Some(_))))
            &&& turn == Ok::<CloseTurn, ProcessError>(CloseTurn::Poll) <==> event is Asked
                && model.child is Some
            &&& turn == Ok::<CloseTurn, ProcessError>(CloseTurn::CloseWatch) <==> event is Ended
                && watched
            &&& turn matches Err(e) ==> event == CloseEvent::Polled(Err(e))
        }),
{
}

} // verus!
