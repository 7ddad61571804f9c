//! One compile session on a daemon connection: what comes from the child goes to
//! the client, what comes from the client goes to the child, and the session ends
//! with the child.

use crate::errors::{ErrorKind, IoFailure};
use vstd::prelude::*;
use vstd::string::*;

verus! {

/// Number of frames that may wait for a slow client. When they are waiting, the
/// child is stalled.
pub const OUTBOUND_FRAME_CAPACITY: usize = 64;

/// What a session frame carries.
#[derive(Clone, Copy, Debug, PartialEq, Eq, Structural)]
pub enum FrameKind {
    /// The program to run.
    Start,
    /// Bytes for standard input.
    Stdin,
    /// The end of standard input.
    StdinEof,
    /// Bytes of standard output.
    Stdout,
    /// Bytes of standard error.
    Stderr,
    /// The end of the child.
    Exit,
    /// Nothing.
    Unset,
}

/// How the child of a session ended.
#[derive(Clone, Copy, Debug, PartialEq, Eq, Structural)]
pub struct SessionExit {
    /// Its exit code.
    pub code: i32,
}

/// What came from the client.
#[derive(Debug, PartialEq, Eq)]
pub enum FromClient {
    /// A frame.
    Frame(FrameKind),
    /// A body that is no frame.
    Malformed,
    /// The transport failed.
    Failed(String),
    /// The client went away.
    Closed,
}

/// How the pump between the session and the child ended.
#[derive(Debug)]
pub enum PumpEnd {
    /// With what it returned.
    Returned(Result<SessionExit, IoFailure>),
    /// With a panic.
    Panicked(String),
}

/// What the session waits for.
#[derive(Clone, Copy, Debug, PartialEq, Eq, Structural)]
pub enum SessionStage {
    /// The child is being spawned.
    Spawning,
    /// The next frame from either side.
    Relaying,
    /// A frame is being sent to the client.
    Sending {
        /// Whether it is the last one.
        terminal: bool,
    },
    /// A frame is being handed to the pump.
    Forwarding {
        /// Whether it ends standard input.
        eof: bool,
    },
    /// The pump is being joined.
    Reaping,
    /// Nothing.
    Over,
}

/// A compile session.
#[derive(Clone, Copy, Debug, PartialEq, Eq, Structural)]
pub struct CompileSession {
    /// What it waits for.
    pub stage: SessionStage,
    /// Whether the pump still gets standard input.
    pub stdin_open: bool,
}

/// What happened to a session.
#[derive(Debug)]
pub enum SessionEvent {
    /// The child was spawned, or not.
    Spawned(Result<(), IoFailure>),
    /// The pump produced a frame, or nothing more will come.
    FromChild(Option<FrameKind>),
    /// The frame was sent, or not.
    Sent(Result<(), String>),
    /// Something came from the client.
    FromClient(FromClient),
    /// The frame was handed over, or the pump is gone.
    Forwarded(bool),
    /// The pump was joined.
    Reaped(PumpEnd),
}

/// What is to be done next.
#[derive(Debug)]
pub enum SessionAction {
    /// Wait for a frame from either side.
    Relay,
    /// Send the frame to the client.
    Send,
    /// Hand the frame to the pump.
    Forward,
    /// Close the pump's standard input and join it.
    Reap,
    /// Return this.
    Finish(Result<SessionExit, IoFailure>),
    /// Nothing: the event does not belong here.
    Ignore,
}

/// A failure without a class or a number.
pub open spec fn other_failure(failure: IoFailure, text: Seq<char>) -> bool {
    failure.kind == ErrorKind::Other && failure.raw_os_error is None && failure.text@ == text
}

fn other(prefix: &str, detail: &str) -> (f: IoFailure)
    ensures
        other_failure(f, prefix@ + detail@),
{
    let mut text: String = prefix.to_owned();
    text.append(detail);
    IoFailure { kind: ErrorKind::Other, raw_os_error: None, text }
}

/// A session whose child is being spawned.
pub open spec fn opening_session() -> CompileSession {
    CompileSession { stage: SessionStage::Spawning, stdin_open: true }
}

/// The session after an event.
pub open spec fn session_after(state: CompileSession, event: SessionEvent) -> CompileSession {
    match (state.stage, event) {
        (SessionStage::Spawning, SessionEvent::Spawned(Ok(()))) => CompileSession {
            stage: SessionStage::Relaying,
            ..state
        },
        (SessionStage::Spawning, SessionEvent::Spawned(Err(_))) => CompileSession {
            stage: SessionStage::Over,
            ..state
        },
        (SessionStage::Relaying, SessionEvent::FromChild(Some(kind))) => CompileSession {
            stage: SessionStage::Sending { terminal: kind == FrameKind::Exit },
            ..state
        },
        (SessionStage::Relaying, SessionEvent::FromChild(None)) => CompileSession {
            stage: SessionStage::Reaping,
            stdin_open: false,
        },
        (SessionStage::Relaying, SessionEvent::FromClient(FromClient::Frame(kind))) => {
            if state.stdin_open {
                CompileSession {
                    stage: SessionStage::Forwarding { eof: kind == FrameKind::StdinEof },
                    ..state
                }
            } else {
                state
            }
        },
        (SessionStage::Relaying, SessionEvent::FromClient(FromClient::Malformed)) => state,
        (SessionStage::Relaying, SessionEvent::FromClient(FromClient::Failed(_))) => CompileSession {
            stage: SessionStage::Over,
            ..state
        },
        (SessionStage::Relaying, SessionEvent::FromClient(FromClient::Closed)) => CompileSession {
            stdin_open: false,
            ..state
        },
        (SessionStage::Sending { terminal }, SessionEvent::Sent(Ok(()))) => if terminal {
            CompileSession { stage: SessionStage::Reaping, stdin_open: false }
        } else {
            CompileSession { stage: SessionStage::Relaying, ..state }
        },
        (SessionStage::Sending { .. }, SessionEvent::Sent(Err(_))) => CompileSession {
            stage: SessionStage::Over,
            ..state
        },
        (SessionStage::Forwarding { eof }, SessionEvent::Forwarded(taken)) => CompileSession {
            stage: SessionStage::Relaying,
            stdin_open: taken && !eof,
        },
        (SessionStage::Reaping, SessionEvent::Reaped(_)) => CompileSession {
            stage: SessionStage::Over,
            ..state
        },
        _ => state,
    }
}

/// Whether an action answers an event.
pub open spec fn answers(
    state: CompileSession,
    event: SessionEvent,
    action: SessionAction,
) -> bool {
    match (state.stage, event) {
        (SessionStage::Spawning, SessionEvent::Spawned(Ok(()))) => action is Relay,
        (SessionStage::Spawning, SessionEvent::Spawned(Err(failure))) => action
            == SessionAction::Finish(Err(failure)),
        (SessionStage::Relaying, SessionEvent::FromChild(Some(_))) => action is Send,
        (SessionStage::Relaying, SessionEvent::FromChild(None)) => action is Reap,
        (SessionStage::Relaying, SessionEvent::FromClient(FromClient::Frame(_))) => {
            if state.stdin_open {
                action is Forward
            } else {
                action is Relay
            }
        },
        (SessionStage::Relaying, SessionEvent::FromClient(FromClient::Malformed)) => action is Relay,
        (SessionStage::Relaying, SessionEvent::FromClient(FromClient::Failed(detail))) => {
            &&& action is Finish
            &&& action->Finish_0 is Err
            &&& other_failure(action->Finish_0->Err_0, "session recv failed: "@ + detail@)
        },
        (SessionStage::Relaying, SessionEvent::FromClient(FromClient::Closed)) => action is Relay,
        (SessionStage::Sending { terminal }, SessionEvent::Sent(Ok(()))) => if terminal {
            action is Reap
        } else {
            action is Relay
        },
        (SessionStage::Sending { .. }, SessionEvent::Sent(Err(detail))) => {
            &&& action is Finish
            &&& action->Finish_0 is Err
            &&& other_failure(action->Finish_0->Err_0, "session send failed: "@ + detail@)
        },
        (SessionStage::Forwarding { .. }, SessionEvent::Forwarded(_)) => action is Relay,
        (SessionStage::Reaping, SessionEvent::Reaped(PumpEnd::Returned(result))) => action
            == SessionAction::Finish(result),
        (SessionStage::Reaping, SessionEvent::Reaped(PumpEnd::Panicked(detail))) => {
            &&& action is Finish
            &&& action->Finish_0 is Err
            &&& other_failure(
                action->Finish_0->Err_0,
                "compile-session pump panicked: "@ + detail@,
            )
        },
        _ => action is Ignore,
    }
}

/// Begins a session: its child is to be spawned in a group of its own.
pub fn run_compile_session() -> (s: CompileSession)
    ensures
        s == opening_session(),
{
    CompileSession { stage: SessionStage::Spawning, stdin_open: true }
}

/// Takes a session one step further.
pub fn step_session(state: CompileSession, event: SessionEvent) -> (r: (
    CompileSession,
    SessionAction,
))
    ensures
        r.0 == session_after(state, event),
        answers(state, event, r.1),
{
    match (state.stage, event) {
        (SessionStage::Spawning, SessionEvent::Spawned(result)) => match result {
            Ok(()) => (
                CompileSession { stage: SessionStage::Relaying, ..state },
                SessionAction::Relay,
            ),
            Err(failure) => (
                CompileSession { stage: SessionStage::Over, ..state },
                SessionAction::Finish(Err(failure)),
            ),
        },
        (SessionStage::Relaying, SessionEvent::FromChild(frame)) => match frame {
            Some(kind) => (
                CompileSession {
                    stage: SessionStage::Sending { terminal: kind == FrameKind::Exit },
                    ..state
                },
                SessionAction::Send,
            ),
            None => (
                CompileSession { stage: SessionStage::Reaping, stdin_open: false },
                SessionAction::Reap,
            ),
        },
        (SessionStage::Relaying, SessionEvent::FromClient(received)) => match received {
            FromClient::Frame(kind) => if state.stdin_open {
                (
                    CompileSession {
                        stage: SessionStage::Forwarding { eof: kind == FrameKind::StdinEof },
                        ..state
                    },
                    SessionAction::Forward,
                )
            } else {
                (state, SessionAction::Relay)
            },
            FromClient::Malformed => (state, SessionAction::Relay),
            FromClient::Failed(detail) => (
                CompileSession { stage: SessionStage::Over, ..state },
                SessionAction::Finish(Err(other("session recv failed: ", detail.as_str()))),
            ),
            FromClient::Closed => (
                CompileSession { stdin_open: false, ..state },
                SessionAction::Relay,
            ),
        },
        (SessionStage::Sending { terminal }, SessionEvent::Sent(result)) => match result {
            Ok(()) => if terminal {
                (
                    CompileSession { stage: SessionStage::Reaping, stdin_open: false },
                    SessionAction::Reap,
                )
            } else {
                (CompileSession { stage: SessionStage::Relaying, ..state }, SessionAction::Relay)
            },
            Err(detail) => (
                CompileSession { stage: SessionStage::Over, ..state },
                SessionAction::Finish(Err(other("session send failed: ", detail.as_str()))),
            ),
        },
        (SessionStage::Forwarding { eof }, SessionEvent::Forwarded(taken)) => (
            CompileSession { stage: SessionStage::Relaying, stdin_open: taken && !eof },
            SessionAction::Relay,
        ),
        (SessionStage::Reaping, SessionEvent::Reaped(end)) => {
            let over = CompileSession { stage: SessionStage::Over, ..state };
            match end {
                PumpEnd::Returned(result) => (over, SessionAction::Finish(result)),
                PumpEnd::Panicked(detail) => (
                    over,
                    SessionAction::Finish(
                        Err(other("compile-session pump panicked: ", detail.as_str())),
                    ),
                ),
            }
        },
        _ => (state, SessionAction::Ignore),
    }
}

/// The session after a list of events.
pub open spec fn session_after_all(
    state: CompileSession,
    events: Seq<SessionEvent>,
) -> CompileSession
    decreases events.len(),
{
    if events.len() == 0 {
        state
    } else {
        session_after(session_after_all(state, events.drop_last()), events.last())
    }
}

/// Whether a session could be in a state: while a frame is being forwarded
/// standard input is open, and while the pump is being joined it is closed.
pub open spec fn sound(state: CompileSession) -> bool {
    &&& state.stage is Forwarding ==> state.stdin_open
    &&& state.stage is Reaping ==> !state.stdin_open
}

/// Every session that began at the beginning stays sound, whatever happens: in
/// particular the pump is never joined while it still waits for standard input.
pub proof fn law_pump_is_never_joined_with_open_input(events: Seq<SessionEvent>)
    ensures
        sound(session_after_all(opening_session(), events)),
    decreases events.len(),
{
    if events.len() > 0 {
        law_pump_is_never_joined_with_open_input(events.drop_last());
    }
}

/// Standard input that was closed stays closed.
pub proof fn law_closed_input_stays_closed(state: CompileSession, events: Seq<SessionEvent>)
    requires
        sound(state),
        !state.stdin_open,
    ensures
        sound(session_after_all(state, events)),
        !session_after_all(state, events).stdin_open,
    decreases events.len(),
{
    if events.len() > 0 {
        law_closed_input_stays_closed(state, events.drop_last());
    }
}

/// The client's end of standard input closes the pump's, whether or not the pump
/// took the frame; otherwise the pump would wait for more while the session waits
/// for the pump.
pub proof fn law_end_of_input_reaches_the_pump(state: CompileSession, taken: bool)
    requires
        sound(state),
        state.stage is Relaying,
    ensures
        ({
            let offered = session_after(
                state,
                SessionEvent::FromClient(FromClient::Frame(FrameKind::StdinEof)),
            );
            !session_after(offered, SessionEvent::Forwarded(taken)).stdin_open
        }),
{
}

/// No content of a frame ends a session with an error, and neither does a body that
/// is no frame.
pub proof fn law_content_never_fails(
    state: CompileSession,
    kind: FrameKind,
    action: SessionAction,
)
    requires
        answers(state, SessionEvent::FromClient(FromClient::Frame(kind)), action) || answers(
            state,
            SessionEvent::FromClient(FromClient::Malformed),
            action,
        ) || answers(state, SessionEvent::FromChild(Some(kind)), action),
    ensures
        !(action is Finish),
{
}

/// An exit code is returned only by the pump that was joined.
pub proof fn law_exit_comes_from_the_pump(
    state: CompileSession,
    event: SessionEvent,
    action: SessionAction,
    exit: SessionExit,
)
    requires
        answers(state, event, action),
        action == SessionAction::Finish(Ok(exit)),
    ensures
        state.stage is Reaping,
        event == SessionEvent::Reaped(PumpEnd::Returned(Ok(exit))),
{
}

/// While a session relays and its standard input is open, every frame from the
/// client, of whatever kind, is handed to the pump; and unless it ends standard
/// input or the pump is gone, the next one will be too.
pub proof fn law_every_client_frame_is_forwarded(
    state: CompileSession,
    kind: FrameKind,
    action: SessionAction,
    taken: bool,
)
    requires
        state.stage is Relaying,
        state.stdin_open,
        answers(state, SessionEvent::FromClient(FromClient::Frame(kind)), action),
    ensures
        ({
            let offered = session_after(
                state,
                SessionEvent::FromClient(FromClient::Frame(kind)),
            );
            let after = session_after(offered, SessionEvent::Forwarded(taken));
            &&& action is Forward
            &&& offered.stage is Forwarding
            &&& offered.stage == (SessionStage::Forwarding { eof: kind == FrameKind::StdinEof })
            &&& offered.stdin_open
            &&& after.stage is Relaying
            &&& after.stdin_open == (taken && kind != FrameKind::StdinEof)
        }),
{
}

/// Standard input is closed only for a reason: the client closed it or went away,
/// the pump is gone, or nothing more will come from the child.
pub proof fn law_input_closes_for_a_reason(state: CompileSession, event: SessionEvent)
    requires
        state.stdin_open,
        !session_after(state, event).stdin_open,
    ensures
        match event {
            SessionEvent::FromClient(received) => received is Closed && state.stage is Relaying,
            SessionEvent::Forwarded(taken) => !taken || state.stage
                == (SessionStage::Forwarding { eof: true }),
            SessionEvent::FromChild(frame) => frame is None && state.stage is Relaying,
            SessionEvent::Sent(result) => result is Ok && state.stage == (SessionStage::Sending {
                terminal: true,
            }),
            _ => false,
        },
{
}

/// Every frame from the child is sent to the client. After its exit the pump is
/// joined; after any other frame the session goes on, with standard input as it was.
pub proof fn law_every_child_frame_is_sent(
    state: CompileSession,
    kind: FrameKind,
    action: SessionAction,
    following: SessionAction,
)
    requires
        state.stage is Relaying,
        answers(state, SessionEvent::FromChild(Some(kind)), action),
        answers(
            session_after(state, SessionEvent::FromChild(Some(kind))),
            SessionEvent::Sent(Ok(())),
            following,
        ),
    ensures
        ({
            let sending = session_after(state, SessionEvent::FromChild(Some(kind)));
            let after = session_after(sending, SessionEvent::Sent(Ok(())));
            &&& action is Send
            &&& sending.stage is Sending
            &&& sending.stdin_open == state.stdin_open
            &&& kind == FrameKind::Exit ==> following is Reap && after.stage is Reaping
            &&& kind != FrameKind::Exit ==> following is Relay && after == state
        }),
{
}

/// A session relays once its child was spawned, whether or not the client still
/// sends, and joins the pump as soon as nothing more will come from the child.
pub proof fn law_session_lasts_as_long_as_its_child(
    state: CompileSession,
    spawned: SessionAction,
    closed: SessionAction,
    malformed: SessionAction,
    ended: SessionAction,
)
    requires
        state.stage is Relaying,
        answers(opening_session(), SessionEvent::Spawned(Ok(())), spawned),
        answers(state, SessionEvent::FromClient(FromClient::Closed), closed),
        answers(state, SessionEvent::FromClient(FromClient::Malformed), malformed),
        answers(state, SessionEvent::FromChild(None), ended),
    ensures
        spawned is Relay,
        session_after(opening_session(), SessionEvent::Spawned(Ok(()))) == (CompileSession {
            stage: SessionStage::Relaying,
            stdin_open: true,
        }),
        closed is Relay,
        session_after(state, SessionEvent::FromClient(FromClient::Closed)) == (CompileSession {
            stage: SessionStage::Relaying,
            stdin_open: false,
        }),
        malformed is Relay,
        session_after(state, SessionEvent::FromClient(FromClient::Malformed)) == state,
        ended is Reap,
        session_after(state, SessionEvent::FromChild(None)).stage is Reaping,
{
}

/// A session ends with what the joined pump returned, or with the failure that ended
/// it: the spawn's as it is, and the transport's or a panic's with its own words at
/// the end of the text. Nothing else ends it.
pub proof fn law_sessions_report_their_end(
    state: CompileSession,
    event: SessionEvent,
    action: SessionAction,
)
    requires
        answers(state, event, action),
    ensures
        action is Finish <==> session_after(state, event).stage is Over && !(state.stage is Over),
        action matches SessionAction::Finish(result) ==> match event {
            SessionEvent::Spawned(spawn) => spawn matches Err(failure) && result == Err::<
                SessionExit,
                IoFailure,
            >(failure),
            SessionEvent::FromClient(received) => received matches FromClient::Failed(detail)
                && result is Err && detail@.is_suffix_of(result->Err_0.text@),
            SessionEvent::Sent(sent) => sent matches Err(detail) && result is Err
                && detail@.is_suffix_of(result->Err_0.text@),
            SessionEvent::Reaped(end) => match end {
                PumpEnd::Returned(returned) => result == returned,
                PumpEnd::Panicked(detail) => result is Err && detail@.is_suffix_of(
                    result->Err_0.text@,
                ),
            },
            _ => false,
        },
        action is Ignore ==> session_after(state, event) == state,
        (state.stage is Spawning && event is Spawned) || (state.stage is Relaying && (event
            is FromChild || event is FromClient)) || (state.stage is Sending && event is Sent) || (
        state.stage is Forwarding && event is Forwarded) || (state.stage is Reaping && event
            is Reaped) <==> !(action is Ignore),
{
    match event {
        SessionEvent::FromClient(FromClient::Failed(detail)) => {
            let text = "session recv failed: "@ + detail@;
            assert(text.subrange(text.len() - detail@.len(), text.len() as int) =~= detail@);
        },
        SessionEvent::Sent(Err(detail)) => {
            let text = "session send failed: "@ + detail@;
            assert(text.subrange(text.len() - detail@.len(), text.len() as int) =~= detail@);
        },
        SessionEvent::Reaped(PumpEnd::Panicked(detail)) => {
            let text = "compile-session pump panicked: "@ + detail@;
            assert(text.subrange(text.len() - detail@.len(), text.len() as int) =~= detail@);
        },
        _ => {},
    }
}

/// A failure of a session has the words that it was given, and neither a class nor a
/// number of the host.
pub proof fn law_session_failures_have_words_only(failure: IoFailure, text: Seq<char>)
    requires
        other_failure(failure, text),
    ensures
        failure.kind == ErrorKind::Other,
        failure.raw_os_error is None,
        failure.text@ == text,
{
}

} // verus!
