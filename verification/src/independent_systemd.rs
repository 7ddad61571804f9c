//! Decisions around an independent launch on Linux: what the capability probe
//! reports, what the user manager is asked, how broker answers, control files
//! and identities are judged, and how the exit of the target is learned.

use crate::independent_spawn::{
    cleanup_acknowledged, interrupted, interruption, ControlError, IndependentSpawnBackend,
    IndependentSpawnCapability, IndependentSpawnError, LaunchCause, LaunchClock, LaunchRefusal,
    LaunchStage, SpawnErrorModel, MAX_CONTROL_BYTES,
};
use crate::text::{append_decimal, decimal, parse_signed, signed_number};
use crate::wire::copy_bytes;
use vstd::prelude::*;
use vstd::string::*;
use vstd::utf8::*;

verus! {

/// What the capability probe looks at.
#[derive(Clone, Copy, Debug, PartialEq, Eq, Structural)]
pub enum CapabilityProbe {
    /// Whether a process can be controlled without fear of reuse.
    ProcessControl,
    /// Whether the configured broker answers from another resource group.
    Broker,
    /// Whether the helper is installed.
    Helper,
    /// Whether the user manager answers.
    Manager,
}

/// What a look gave.
#[derive(Clone, Debug, PartialEq, Eq)]
pub enum ProbeResult {
    /// All is well.
    Passed,
    /// The manager answered that it cannot, or did not answer in time.
    Declined,
    /// The look failed, with a text.
    Failed(String),
}

/// What the capability probe does next.
#[derive(Clone, Debug, PartialEq, Eq)]
pub enum CapabilityStep {
    /// Look at something.
    Probe(CapabilityProbe),
    /// Report.
    Report(IndependentSpawnCapability),
}

/// Whether a capability report says what it should.
pub open spec fn reports(
    step: CapabilityStep,
    available: bool,
    backend: Option<IndependentSpawnBackend>,
    reason: Seq<char>,
) -> bool {
    match step {
        CapabilityStep::Report(c) => c.available == available && c.backend == backend && c.reason@
            == reason,
        CapabilityStep::Probe(_) => false,
    }
}

/// The text of a failed look.
pub open spec fn failure_text(result: ProbeResult) -> Seq<char> {
    match result {
        ProbeResult::Failed(text) => text@,
        _ => Seq::empty(),
    }
}

fn report(
    available: bool,
    backend: Option<IndependentSpawnBackend>,
    reason: String,
) -> (s: CapabilityStep)
    ensures
        reports(s, available, backend, reason@),
{
    CapabilityStep::Report(IndependentSpawnCapability { available, backend, reason })
}

fn text_of(result: ProbeResult) -> (s: String)
    ensures
        s@ == failure_text(result),
{
    match result {
        ProbeResult::Failed(text) => text,
        _ => {
            let s: String = String::new();
            assert(s@ =~= Seq::<char>::empty());
            s
        },
    }
}

/// One step of the capability probe; it begins with process control. A configured
/// broker is the only launcher that is considered then: it is never started, as a
/// broker of this resource group could not establish independence.
pub fn capability_step(
    probe: CapabilityProbe,
    result: ProbeResult,
    broker_configured: bool,
) -> (s: CapabilityStep)
    ensures
        s matches CapabilityStep::Probe(next) ==> probe_after(
            probe,
            result is Passed,
            broker_configured,
        ) == Some(next),
        s matches CapabilityStep::Report(c) ==> probe_after(
            probe,
            result is Passed,
            broker_configured,
        ) is None && c.available == available_after(probe, result is Passed),
        match probe {
            CapabilityProbe::ProcessControl => if result is Passed {
                s == CapabilityStep::Probe(
                    if broker_configured {
                        CapabilityProbe::Broker
                    } else {
                        CapabilityProbe::Helper
                    },
                )
            } else {
                reports(
                    s,
                    false,
                    None,
                    "reuse-safe process control is unavailable: "@ + failure_text(result),
                )
            },
            CapabilityProbe::Broker => if result is Passed {
                reports(
                    s,
                    true,
                    Some(IndependentSpawnBackend::ExternalBroker),
                    "same-user external broker protocol and placement verified"@,
                )
            } else {
                reports(
                    s,
                    false,
                    Some(IndependentSpawnBackend::ExternalBroker),
                    failure_text(result),
                )
            },
            CapabilityProbe::Helper => if result is Passed {
                s == CapabilityStep::Probe(CapabilityProbe::Manager)
            } else {
                reports(s, false, None, "independent helper executable is unavailable"@)
            },
            CapabilityProbe::Manager => match result {
                ProbeResult::Passed => reports(
                    s,
                    true,
                    Some(IndependentSpawnBackend::SystemdTransientService),
                    "user systemd manager is reachable"@,
                ),
                ProbeResult::Declined => reports(
                    s,
                    false,
                    None,
                    "systemd user manager probe failed or timed out"@,
                ),
                ProbeResult::Failed(text) => reports(
                    s,
                    false,
                    None,
                    "systemctl unavailable: "@ + text@,
                ),
            },
        },
{
    let passed: bool = match &result {
        ProbeResult::Passed => true,
        _ => false,
    };
    match probe {
        CapabilityProbe::ProcessControl => if passed {
            if broker_configured {
                CapabilityStep::Probe(CapabilityProbe::Broker)
            } else {
                CapabilityStep::Probe(CapabilityProbe::Helper)
            }
        } else {
            let mut reason: String = "reuse-safe process control is unavailable: ".to_owned();
            let text = text_of(result);
            reason.append(text.as_str());
            report(false, None, reason)
        },
        CapabilityProbe::Broker => if passed {
            report(
                true,
                Some(IndependentSpawnBackend::ExternalBroker),
                "same-user external broker protocol and placement verified".to_owned(),
            )
        } else {
            report(false, Some(IndependentSpawnBackend::ExternalBroker), text_of(result))
        },
        CapabilityProbe::Helper => if passed {
            CapabilityStep::Probe(CapabilityProbe::Manager)
        } else {
            report(false, None, "independent helper executable is unavailable".to_owned())
        },
        CapabilityProbe::Manager => match result {
            ProbeResult::Passed => report(
                true,
                Some(IndependentSpawnBackend::SystemdTransientService),
                "user systemd manager is reachable".to_owned(),
            ),
            ProbeResult::Declined => report(
                false,
                None,
                "systemd user manager probe failed or timed out".to_owned(),
            ),
            ProbeResult::Failed(text) => {
                let mut reason: String = "systemctl unavailable: ".to_owned();
                reason.append(text.as_str());
                report(false, None, reason)
            },
        },
    }
}

/// The report of a host without a verified launcher.
pub fn unsupported_capability() -> (c: IndependentSpawnCapability)
    ensures
        !c.available,
        c.backend is None,
        c.reason@ == "this platform has no verified independent-spawn backend"@,
{
    IndependentSpawnCapability {
        available: false,
        backend: None,
        reason: "this platform has no verified independent-spawn backend".to_owned(),
    }
}

/// What a poll of a manager command showed.
#[derive(Clone, Copy, Debug, PartialEq, Eq, Structural)]
pub enum CommandPoll {
    /// It runs.
    Running,
    /// It ended.
    Exited {
        /// Whether it succeeded.
        success: bool,
    },
    /// It cannot be polled.
    Unknown,
}

/// What to do about a manager command.
#[derive(Clone, Copy, Debug, PartialEq, Eq, Structural)]
pub enum CommandTurn {
    /// It succeeded.
    Succeeded,
    /// It ended without success.
    Refused,
    /// Pause for some milliseconds and poll again.
    Pause(u64),
    /// Terminate it and report what the poll gave.
    Terminate,
}

/// Longest wait for a manager command, in nanoseconds.
pub const MANAGER_TIMEOUT: u128 = 2_000_000_000;

/// Decides what to do about a manager command that was started some nanoseconds
/// ago.
pub fn command_turn(poll: CommandPoll, elapsed: u128, timeout: u128) -> (t: CommandTurn)
    ensures
        t == (match poll {
            CommandPoll::Exited { success } => if success {
                CommandTurn::Succeeded
            } else {
                CommandTurn::Refused
            },
            CommandPoll::Running => if elapsed < timeout {
                CommandTurn::Pause(10)
            } else {
                CommandTurn::Terminate
            },
            CommandPoll::Unknown => CommandTurn::Terminate,
        }),
{
    match poll {
        CommandPoll::Exited { success } => if success {
            CommandTurn::Succeeded
        } else {
            CommandTurn::Refused
        },
        CommandPoll::Running => if elapsed < timeout {
            CommandTurn::Pause(10)
        } else {
            CommandTurn::Terminate
        },
        CommandPoll::Unknown => CommandTurn::Terminate,
    }
}

/// Name of the helper executable on Unix.
pub const HELPER_NAME: &'static str = "running-process-independent-helper";

/// Name of the helper executable on Windows.
pub const WINDOWS_HELPER_NAME: &'static str = "running-process-independent-helper.exe";

/// Name of the transient service for a launch.
pub open spec fn unit_text(pid: nat, suffix: nat) -> Seq<char> {
    "running-process-independent-"@ + decimal(pid) + "-"@ + decimal(suffix) + ".service"@
}

/// Name of the transient service for a launch by a process at some moment.
pub fn unit_name(pid: u32, suffix: u128) -> (s: String)
    ensures
        s@ == unit_text(pid as nat, suffix as nat),
{
    let mut s: String = "running-process-independent-".to_owned();
    append_decimal(&mut s, pid as u128);
    s.append("-");
    append_decimal(&mut s, suffix);
    s.append(".service");
    s
}

/// Milliseconds that a helper waits for acceptance: a second more than the
/// caller.
pub open spec fn helper_wait(timeout: nat, most: nat) -> nat {
    let ms = timeout / 1_000_000 + 1000;
    if ms < most {
        ms
    } else {
        most
    }
}

/// Longest wait that a broker takes, in milliseconds.
pub const MAX_BROKER_TIMEOUT_MS: u64 = 3_600_000;

fn helper_wait_ms(timeout: u128, most: u64) -> (ms: u64)
    ensures
        ms == helper_wait(timeout as nat, most as nat),
{
    let ms: u128 = timeout / 1_000_000 + 1000;
    if ms < most as u128 {
        ms as u64
    } else {
        most
    }
}

/// Milliseconds that the helper of a manager launch waits for acceptance.
pub fn helper_timeout_ms(timeout: u128) -> (ms: u64)
    ensures
        ms == helper_wait(timeout as nat, u64::MAX as nat),
{
    helper_wait_ms(timeout, u64::MAX)
}

/// Milliseconds that the helper of a broker or scheduler launch waits for
/// acceptance, given what is left of the deadline.
pub fn broker_timeout_ms(remaining: u128) -> (ms: u64)
    ensures
        ms == helper_wait(remaining as nat, MAX_BROKER_TIMEOUT_MS as nat),
        1000 <= ms <= MAX_BROKER_TIMEOUT_MS,
{
    helper_wait_ms(remaining, MAX_BROKER_TIMEOUT_MS)
}

/// The arguments of the manager command, after its name. No value of the
/// request is among them.
pub open spec fn manager_command(
    unit: Seq<char>,
    helper: Seq<u8>,
    request: Seq<u8>,
    acknowledgement: Seq<u8>,
    timeout_ms: nat,
) -> Seq<Seq<u8>> {
    seq![
        encode_utf8("--user"@),
        encode_utf8("--quiet"@),
        encode_utf8("--collect"@),
        encode_utf8("--service-type=exec"@),
        encode_utf8("--unit"@),
        encode_utf8(unit),
        encode_utf8("--property=StandardInput=null"@),
        encode_utf8("--property=StandardOutput=null"@),
        encode_utf8("--property=StandardError=null"@),
        encode_utf8("--"@),
        helper,
        request,
        acknowledgement,
        encode_utf8(decimal(timeout_ms)),
    ]
}

/// The arguments of the manager command, after its name.
pub fn manager_arguments(
    unit: &str,
    helper: &[u8],
    request: &[u8],
    acknowledgement: &[u8],
    timeout_ms: u64,
) -> (args: Vec<Vec<u8>>)
    ensures
        args@.map_values(|a: Vec<u8>| a@) == manager_command(
            unit@,
            helper@,
            request@,
            acknowledgement@,
            timeout_ms as nat,
        ),
{
    let mut timeout: String = String::new();
    append_decimal(&mut timeout, timeout_ms as u128);
    assert(timeout@ =~= decimal(timeout_ms as nat));
    let mut args: Vec<Vec<u8>> = Vec::new();
    args.push("--user".as_bytes_vec());
    args.push("--quiet".as_bytes_vec());
    args.push("--collect".as_bytes_vec());
    args.push("--service-type=exec".as_bytes_vec());
    args.push("--unit".as_bytes_vec());
    args.push(unit.as_bytes_vec());
    args.push("--property=StandardInput=null".as_bytes_vec());
    args.push("--property=StandardOutput=null".as_bytes_vec());
    args.push("--property=StandardError=null".as_bytes_vec());
    args.push("--".as_bytes_vec());
    args.push(copy_bytes(helper));
    args.push(copy_bytes(request));
    args.push(copy_bytes(acknowledgement));
    args.push(timeout.as_str().as_bytes_vec());
    assert(args@.map_values(|a: Vec<u8>| a@) =~= manager_command(
        unit@,
        helper@,
        request@,
        acknowledgement@,
        timeout_ms as nat,
    ));
    args
}

/// Judges the answer of a broker: the failure, if it is one, and whether the
/// broker may still act on the submission.
pub fn broker_answer(answer: u8) -> (r: Result<(), (LaunchRefusal, bool)>)
    ensures
        r == (if answer == 0 {
            Ok(())
        } else if answer == 1 {
            Err((LaunchRefusal::Broker, false))
        } else {
            Err((LaunchRefusal::BrokerAnswer, true))
        }),
{
    if answer == 0 {
        Ok(())
    } else if answer == 1 {
        Err((LaunchRefusal::Broker, false))
    } else {
        Err((LaunchRefusal::BrokerAnswer, true))
    }
}

/// How far a submission to a broker is.
#[derive(Clone, Copy, Debug, PartialEq, Eq, Structural)]
pub enum SubmitState {
    /// The broker is being connected to.
    Connecting,
    /// Its process is being asked for.
    Identifying,
    /// Its placement is being verified.
    Separating,
    /// Its greeting is being read; the helper will wait this many milliseconds.
    Greeting(u64),
    /// The submission is being written.
    Writing,
    /// The answer is being read.
    Answering,
    /// The submission is over.
    Finished,
}

/// What happened to a submission.
#[derive(Debug)]
pub enum SubmitEvent {
    /// The action was done.
    Done,
    /// The broker answered.
    Answer(u8),
    /// The action failed.
    Failed(IndependentSpawnError),
}

/// What to do about a submission.
#[derive(Debug)]
pub enum SubmitAction {
    /// Connect to the broker.
    Connect,
    /// Ask for the process of the broker.
    IdentifyPeer,
    /// Verify that the broker is outside.
    VerifySeparation,
    /// Read the greeting.
    ReadGreeting,
    /// Write the submission with this wait in milliseconds.
    WriteSubmission(u64),
    /// Read the answer.
    ReadAnswer,
    /// Report success.
    Succeed,
    /// Report failure.
    Fail {
        /// Why.
        cause: LaunchCause,
        /// Whether the broker may act on the submission all the same.
        may_have_arrived: bool,
    },
    /// Nothing: the event does not belong to the state.
    Ignore,
}

/// Whether a broker may have got something in a state.
pub open spec fn may_have_arrived(state: SubmitState) -> bool {
    state is Writing || state is Answering
}

/// What a submission does next.
pub open spec fn submit_next(state: SubmitState, event: SubmitEvent, clock: LaunchClock) -> (
    SubmitState,
    SubmitAction,
) {
    match (state, event) {
        (SubmitState::Finished, _) => (state, SubmitAction::Ignore),
        (_, SubmitEvent::Failed(error)) => (
            SubmitState::Finished,
            SubmitAction::Fail {
                cause: LaunchCause::Outside(error),
                may_have_arrived: may_have_arrived(state),
            },
        ),
        (SubmitState::Connecting, SubmitEvent::Done) => (
            SubmitState::Identifying,
            SubmitAction::IdentifyPeer,
        ),
        (SubmitState::Identifying, SubmitEvent::Done) => (
            SubmitState::Separating,
            SubmitAction::VerifySeparation,
        ),
        (SubmitState::Separating, SubmitEvent::Done) => match interrupted(
            clock,
            LaunchStage::BrokerRequest,
        ) {
            Some(cause) => (
                SubmitState::Finished,
                SubmitAction::Fail { cause, may_have_arrived: false },
            ),
            None => (
                SubmitState::Greeting(
                    helper_wait(
                        (clock.timeout - clock.elapsed) as nat,
                        MAX_BROKER_TIMEOUT_MS as nat,
                    ) as u64,
                ),
                SubmitAction::ReadGreeting,
            ),
        },
        (SubmitState::Greeting(wait), SubmitEvent::Done) => (
            SubmitState::Writing,
            SubmitAction::WriteSubmission(wait),
        ),
        (SubmitState::Writing, SubmitEvent::Done) => (
            SubmitState::Answering,
            SubmitAction::ReadAnswer,
        ),
        (SubmitState::Answering, SubmitEvent::Answer(answer)) => (
            SubmitState::Finished,
            if answer == 0 {
                SubmitAction::Succeed
            } else if answer == 1 {
                SubmitAction::Fail {
                    cause: LaunchCause::Refused(LaunchRefusal::Broker),
                    may_have_arrived: false,
                }
            } else {
                SubmitAction::Fail {
                    cause: LaunchCause::Refused(LaunchRefusal::BrokerAnswer),
                    may_have_arrived: true,
                }
            },
        ),
        _ => (state, SubmitAction::Ignore),
    }
}

/// Begins a submission to a broker.
pub fn begin_submit() -> (r: (SubmitState, SubmitAction))
    ensures
        r == (SubmitState::Connecting, SubmitAction::Connect),
{
    (SubmitState::Connecting, SubmitAction::Connect)
}

/// Decides what a submission does next.
pub fn submit_broker(state: SubmitState, event: SubmitEvent, clock: LaunchClock) -> (r: (
    SubmitState,
    SubmitAction,
))
    ensures
        r == submit_next(state, event, clock),
{
    match (state, event) {
        (SubmitState::Finished, _) => (state, SubmitAction::Ignore),
        (_, SubmitEvent::Failed(error)) => {
            let arrived: bool = match state {
                SubmitState::Writing | SubmitState::Answering => true,
                _ => false,
            };
            (
                SubmitState::Finished,
                SubmitAction::Fail {
                    cause: LaunchCause::Outside(error),
                    may_have_arrived: arrived,
                },
            )
        },
        (SubmitState::Connecting, SubmitEvent::Done) => (
            SubmitState::Identifying,
            SubmitAction::IdentifyPeer,
        ),
        (SubmitState::Identifying, SubmitEvent::Done) => (
            SubmitState::Separating,
            SubmitAction::VerifySeparation,
        ),
        (SubmitState::Separating, SubmitEvent::Done) => match interruption(
            clock,
            LaunchStage::BrokerRequest,
        ) {
            Some(cause) => (
                SubmitState::Finished,
                SubmitAction::Fail { cause, may_have_arrived: false },
            ),
            None => (
                SubmitState::Greeting(broker_timeout_ms(clock.timeout - clock.elapsed)),
                SubmitAction::ReadGreeting,
            ),
        },
        (SubmitState::Greeting(wait), SubmitEvent::Done) => (
            SubmitState::Writing,
            SubmitAction::WriteSubmission(wait),
        ),
        (SubmitState::Writing, SubmitEvent::Done) => (
            SubmitState::Answering,
            SubmitAction::ReadAnswer,
        ),
        (SubmitState::Answering, SubmitEvent::Answer(answer)) => (
            SubmitState::Finished,
            match broker_answer(answer) {
                Ok(()) => SubmitAction::Succeed,
                Err((refusal, arrived)) => SubmitAction::Fail {
                    cause: LaunchCause::Refused(refusal),
                    may_have_arrived: arrived,
                },
            },
        ),
        _ => (state, SubmitAction::Ignore),
    }
}

/// Nothing is written to a broker before its placement was verified and its
/// greeting read, and a submission that was not written cannot have arrived.
pub proof fn law_nothing_arrives_unwritten(
    state: SubmitState,
    event: SubmitEvent,
    clock: LaunchClock,
)
    ensures
        submit_next(state, event, clock).1 is WriteSubmission ==> state is Greeting
            && event is Done,
        submit_next(state, event, clock).0 is Greeting && !(state is Greeting) ==> state
            is Separating && event is Done,
        submit_next(state, event, clock).1 matches SubmitAction::Fail { may_have_arrived: m, .. }
            ==> (m ==> may_have_arrived(state)),
        submit_next(state, event, clock).1 is Succeed ==> state is Answering && event
            == SubmitEvent::Answer(0),
{
}

/// What is known of a control file before it is read.
#[derive(Clone, Copy, Debug, PartialEq, Eq, Structural)]
pub struct ControlFacts {
    /// Whether it is a regular file.
    pub is_file: bool,
    /// Its owner.
    pub owner: u32,
    /// This user.
    pub user: u32,
    /// Its permission bits.
    pub mode: u32,
    /// Number of its names.
    pub links: u64,
}

/// Whether a control file is private to this user.
pub open spec fn private_control(facts: ControlFacts) -> bool {
    facts.is_file && facts.owner == facts.user && facts.mode & 0o077 == 0 && facts.links == 1
}

/// Admits a control file for reading.
pub fn admit_control_file(facts: ControlFacts) -> (r: Result<(), ControlError>)
    ensures
        r == (if private_control(facts) {
            Ok(())
        } else {
            Err(ControlError::UnsafeControlFile)
        }),
{
    if !facts.is_file || facts.owner != facts.user || facts.mode & 0o077 != 0 || facts.links != 1 {
        Err(ControlError::UnsafeControlFile)
    } else {
        Ok(())
    }
}

/// Admits what was read of a control file.
pub fn admit_control_text(text: String) -> (r: Result<String, ControlError>)
    ensures
        match r {
            Ok(t) => t == text && encode_utf8(text@).len() <= MAX_CONTROL_BYTES,
            Err(e) => e == ControlError::OversizedControlFile && encode_utf8(text@).len()
                > MAX_CONTROL_BYTES,
        },
{
    if text.as_str().as_bytes().len() > MAX_CONTROL_BYTES {
        Err(ControlError::OversizedControlFile)
    } else {
        Ok(text)
    }
}

/// Confirms that a process is the one that was launched: once when it is
/// opened, and again after its placement was verified.
pub fn confirm_identity(found: u64, expected: u64, again: bool) -> (r: Result<
    (),
    IndependentSpawnError,
>)
    ensures
        match r {
            Ok(()) => found == expected,
            Err(e) => found != expected && e@ == SpawnErrorModel::Launch(
                if again {
                    "process changed during containment verification"@
                } else {
                    "launched process identity changed"@
                },
            ),
        },
{
    if found == expected {
        Ok(())
    } else if again {
        Err(LaunchCause::Refused(LaunchRefusal::Identity).into_error(0))
    } else {
        Err(IndependentSpawnError::Launch { reason: "launched process identity changed".to_owned() })
    }
}

/// What to do while a broker is asked to withdraw a submission.
#[derive(Clone, Copy, Debug, PartialEq, Eq, Structural)]
pub enum WithdrawalTurn {
    /// Look for the confirmation.
    Look,
    /// The withdrawal is confirmed.
    Confirmed,
    /// Pause for some milliseconds and look again.
    Pause(u64),
    /// Give up.
    Fail(ControlError),
}

/// Decides whether to look for the confirmation of a withdrawal that was asked
/// for some nanoseconds ago.
pub fn withdrawal_turn(elapsed: u128) -> (t: WithdrawalTurn)
    ensures
        t == (if elapsed < MANAGER_TIMEOUT {
            WithdrawalTurn::Look
        } else {
            WithdrawalTurn::Fail(ControlError::CleanupNotAcknowledged)
        }),
{
    if elapsed < MANAGER_TIMEOUT {
        WithdrawalTurn::Look
    } else {
        WithdrawalTurn::Fail(ControlError::CleanupNotAcknowledged)
    }
}

/// Judges what was found in place of the confirmation.
pub fn withdrawal_found(marker: Option<String>) -> (t: WithdrawalTurn)
    ensures
        t == (match marker {
            None => WithdrawalTurn::Pause(10),
            Some(value) => if value@.len() == 0 {
                WithdrawalTurn::Confirmed
            } else {
                WithdrawalTurn::Fail(ControlError::InvalidCleanup)
            },
        }),
{
    match cleanup_acknowledged(marker) {
        Ok(true) => WithdrawalTurn::Confirmed,
        Ok(false) => WithdrawalTurn::Pause(10),
        Err(e) => WithdrawalTurn::Fail(e),
    }
}

/// What to do to learn the exit status of a target.
#[derive(Clone, Copy, Debug, PartialEq, Eq, Structural)]
pub enum ExitTurn {
    /// Report the status; it is known.
    Report(i32),
    /// Read the status file.
    ReadStatus,
    /// Ask whether the supervisor is gone.
    AskSupervisor,
    /// Read the status file once more.
    ReadStatusAgain,
    /// Report that the target still runs.
    StillRunning,
    /// Remember the status, remove the artifacts, and report it.
    Record(i32),
    /// Report a failure.
    Fail(ControlError),
}

/// Begins a look for the exit status.
pub fn exit_begin(known: Option<i32>) -> (t: ExitTurn)
    ensures
        t == (match known {
            Some(status) => ExitTurn::Report(status),
            None => ExitTurn::ReadStatus,
        }),
{
    match known {
        Some(status) => ExitTurn::Report(status),
        None => ExitTurn::ReadStatus,
    }
}

/// Judges what the status file held. A supervisor may publish the status between
/// the first look and its exit, so its exit is followed by a second look.
pub fn exit_read(text: Option<&str>, again: bool) -> (t: ExitTurn)
    ensures
        match text {
            Some(s) => match signed_number(s@) {
                Some(n) => t == ExitTurn::Record(n as i32),
                None => t == ExitTurn::Fail(ControlError::InvalidExitStatus),
            },
            None => if again {
                t == ExitTurn::Fail(ControlError::StatusMissing)
            } else {
                t == ExitTurn::AskSupervisor
            },
        },
{
    match text {
        Some(s) => match parse_signed(s) {
            Some(status) => ExitTurn::Record(status),
            None => ExitTurn::Fail(ControlError::InvalidExitStatus),
        },
        None => if again {
            ExitTurn::Fail(ControlError::StatusMissing)
        } else {
            ExitTurn::AskSupervisor
        },
    }
}

/// Judges whether the supervisor is gone.
pub fn exit_supervisor(exited: bool) -> (t: ExitTurn)
    ensures
        t == (if exited {
            ExitTurn::ReadStatusAgain
        } else {
            ExitTurn::StillRunning
        }),
{
    if exited {
        ExitTurn::ReadStatusAgain
    } else {
        ExitTurn::StillRunning
    }
}

/// Artifacts that are removed once the exit status is known.
pub const SYSTEMD_ARTIFACTS: [&'static str; 5] = [
    "request",
    "ack",
    "accepted",
    "accepted.tmp",
    "ack.status",
];

/// A submission in which nothing fails connects, learns who the broker is, verifies
/// that it is outside, reads its greeting, writes the request with the wait that was
/// left when it was verified, and succeeds with the broker's consent.
pub proof fn law_undisturbed_submission_succeeds(clock: LaunchClock, other: LaunchClock)
    requires
        !clock.cancelled,
        clock.elapsed < clock.timeout,
    ensures
        ({
            let connected = submit_next(SubmitState::Connecting, SubmitEvent::Done, other);
            let identified = submit_next(connected.0, SubmitEvent::Done, other);
            let separated = submit_next(identified.0, SubmitEvent::Done, clock);
            let greeted = submit_next(separated.0, SubmitEvent::Done, other);
            let written = submit_next(greeted.0, SubmitEvent::Done, other);
            let left = (clock.timeout - clock.elapsed) / 1_000_000 + 1000;
            let wait = if left < 3_600_000 {
                left
            } else {
                3_600_000
            };
            &&& connected.1 is IdentifyPeer
            &&& identified.1 is VerifySeparation
            &&& separated.1 is ReadGreeting
            &&& greeted.1 matches SubmitAction::WriteSubmission(ms) && ms == wait
            &&& written.1 is ReadAnswer
            &&& submit_next(written.0, SubmitEvent::Answer(0), other).1 is Succeed
        }),
{
}

/// A failure ends a submission, with what failed; the broker may have the request
/// exactly if it was being written or its answer was awaited. A broker that says no
/// does not have it, and one that answers with anything else may.
pub proof fn law_failed_submissions_say_whether_they_arrived(
    state: SubmitState,
    error: IndependentSpawnError,
    answer: u8,
    clock: LaunchClock,
)
    ensures
        !(state is Finished) ==> submit_next(state, SubmitEvent::Failed(error), clock) == (
            SubmitState::Finished,
            SubmitAction::Fail {
                cause: LaunchCause::Outside(error),
                may_have_arrived: state is Writing || state is Answering,
            },
        ),
        answer != 0 ==> (submit_next(SubmitState::Answering, SubmitEvent::Answer(answer), clock).1
            matches SubmitAction::Fail { cause, may_have_arrived } && {
            &&& may_have_arrived <==> answer != 1
            &&& cause is Refused
            &&& answer == 1 <==> cause == LaunchCause::Refused(LaunchRefusal::Broker)
        }),
        state is Finished ==> submit_next(state, SubmitEvent::Failed(error), clock).1 is Ignore,
{
}

/// Nothing but a failure, a refusal, or an interruption before the greeting ends a
/// submission without success, and an interruption before the greeting does.
pub proof fn law_submissions_end_for_a_reason(
    state: SubmitState,
    event: SubmitEvent,
    clock: LaunchClock,
)
    ensures
        submit_next(state, event, clock).1 is Fail ==> {
            ||| event is Failed
            ||| event matches SubmitEvent::Answer(answer) && answer != 0
            ||| state is Separating && event is Done && (clock.cancelled || clock.elapsed
                >= clock.timeout)
        },
        clock.cancelled ==> submit_next(SubmitState::Separating, SubmitEvent::Done, clock).1 == (
        SubmitAction::Fail { cause: LaunchCause::Cancelled, may_have_arrived: false }),
        !clock.cancelled && clock.elapsed >= clock.timeout ==> submit_next(
            SubmitState::Separating,
            SubmitEvent::Done,
            clock,
        ).1 == (SubmitAction::Fail {
            cause: LaunchCause::Expired(LaunchStage::BrokerRequest),
            may_have_arrived: false,
        }),
        submit_next(state, event, clock).1 is Ignore ==> submit_next(state, event, clock).0 == state,
{
}

/// A helper waits a second longer than its caller, to the millisecond, unless that is
/// more than it may wait at all.
pub proof fn law_helpers_outwait_their_callers(timeout: nat, most: nat)
    ensures
        helper_wait(timeout, most) <= most,
        helper_wait(timeout, most) < most ==> {
            let ms = helper_wait(timeout, most) as int;
            (ms - 1000) * 1_000_000 <= timeout < (ms - 999) * 1_000_000
        },
        helper_wait(timeout, most) == most ==> timeout / 1_000_000 + 1000 >= most,
        forall|longer: nat|
            timeout <= longer ==> helper_wait(timeout, most) <= #[trigger] helper_wait(
                longer,
                most,
            ),
{
}

/// A control file counts only as a regular file of this user with one name, which
/// neither the group nor others can read, write or execute.
pub proof fn law_private_control_files(facts: ControlFacts)
    ensures
        private_control(facts) <==> {
            &&& facts.is_file
            &&& facts.owner == facts.user
            &&& facts.links == 1
            &&& facts.mode & 0o040 == 0 && facts.mode & 0o020 == 0 && facts.mode & 0o010 == 0
            &&& facts.mode & 0o004 == 0 && facts.mode & 0o002 == 0 && facts.mode & 0o001 == 0
        },
{
    let mode = facts.mode;
    assert((mode & 0o077 == 0) <==> (mode & 0o040 == 0 && mode & 0o020 == 0 && mode & 0o010 == 0
        && mode & 0o004 == 0 && mode & 0o002 == 0 && mode & 0o001 == 0)) by (bit_vector);
}

/// The manager is told the name of the service, the helper with its request and its
/// acknowledgement, and the wait, each as an argument of its own, and the helper comes
/// behind the mark that ends the options.
pub proof fn law_manager_gets_the_helper_last(
    unit: Seq<char>,
    helper: Seq<u8>,
    request: Seq<u8>,
    acknowledgement: Seq<u8>,
    timeout_ms: nat,
)
    ensures
        ({
            let args = manager_command(unit, helper, request, acknowledgement, timeout_ms);
            let n = args.len();
            &&& n >= 7
            &&& args[n - 1] == encode_utf8(decimal(timeout_ms))
            &&& args[n - 2] == acknowledgement
            &&& args[n - 3] == request
            &&& args[n - 4] == helper
            &&& args[n - 5] == encode_utf8("--"@)
            &&& args.contains(encode_utf8(unit))
            &&& args[0] == encode_utf8("--user"@)
        }),
{
    let args = manager_command(unit, helper, request, acknowledgement, timeout_ms);
    assert(args[5] == encode_utf8(unit));
}

/// What the capability probe looks at after a look.
pub open spec fn probe_after(
    probe: CapabilityProbe,
    passed: bool,
    broker_configured: bool,
) -> Option<CapabilityProbe> {
    match probe {
        CapabilityProbe::ProcessControl => if !passed {
            None
        } else if broker_configured {
            Some(CapabilityProbe::Broker)
        } else {
            Some(CapabilityProbe::Helper)
        },
        CapabilityProbe::Helper => if passed {
            Some(CapabilityProbe::Manager)
        } else {
            None
        },
        _ => None,
    }
}

/// Whether a report after a look says that a launch can succeed.
pub open spec fn available_after(probe: CapabilityProbe, passed: bool) -> bool {
    passed && (probe == CapabilityProbe::Broker || probe == CapabilityProbe::Manager)
}

/// Independent placement is available only after every look that belongs to it
/// passed: process control and the broker where one is configured, and process
/// control, the helper and the manager where none is. A look that fails ends the
/// probe.
pub proof fn law_capability_needs_every_look(probe: CapabilityProbe, broker_configured: bool)
    ensures
        probe_after(probe, false, broker_configured) is None,
        !available_after(probe, false),
        available_after(probe, true) ==> probe_after(probe, true, broker_configured) is None,
        ({
            let first = probe_after(CapabilityProbe::ProcessControl, true, broker_configured);
            &&& broker_configured ==> first == Some(CapabilityProbe::Broker) && available_after(
                CapabilityProbe::Broker,
                true,
            )
            &&& !broker_configured ==> first == Some(CapabilityProbe::Helper) && probe_after(
                CapabilityProbe::Helper,
                true,
                broker_configured,
            ) == Some(CapabilityProbe::Manager) && available_after(CapabilityProbe::Manager, true)
        }),
        !available_after(CapabilityProbe::ProcessControl, true),
        !available_after(CapabilityProbe::Helper, true),
{
}

} // verus!
