//! Submission to an already-running broker: the framing, the connection protocol
//! and the broker's side of it. Only the path of a private request crosses the
//! channel, never the values of a command.

use crate::errors::ErrorKind;
use crate::host::HostNumbers;
use crate::independent_systemd::MAX_BROKER_TIMEOUT_MS;
use crate::unix_path::{absolute, components, path_components};
use crate::wire::{
    append_bytes, append_u32_le, append_u64_le, contains_byte, copy_bytes, le_u32, le_u64,
    lemma_u32_le_round_trip, lemma_u64_le_round_trip, read_u32_le, read_u64_le,
    starts_with, u32_at, u64_at,
};
use vstd::prelude::*;
use vstd::slice::slice_subrange;

verus! {

/// First bytes of a greeting and of a submission.
pub const BROKER_MAGIC: [u8; 8] = [82, 80, 66, 82, 75, 48, 48, 49];

/// Longest request path, in bytes.
pub const MAX_PATH_BYTES: usize = 4096;

/// Length of the fixed part of a submission.
pub const SUBMISSION_HEADER: usize = 20;

/// Most supervisors that a broker keeps.
pub const MAX_SUPERVISORS: usize = 64;

/// A failure of the broker protocol.
#[derive(Clone, Copy, Debug, PartialEq, Eq, Structural)]
pub enum BrokerError {
    /// The socket path cannot be connected to.
    InvalidSocketPath,
    /// The launch was cancelled.
    Cancelled,
    /// The connection took too long.
    ConnectExpired,
    /// The exchange took too long.
    StreamExpired,
    /// The other side speaks another protocol.
    Incompatible,
    /// The other side is another user.
    NotSameUser,
    /// The socket path to serve is relative.
    RelativeSocket,
    /// The socket path to serve has no directory.
    NoSocketDirectory,
    /// The directory of the socket is not private.
    UnsafeDirectory,
    /// The submitted wait is out of range.
    TimeoutOutOfRange,
    /// The request path cannot be submitted.
    InvalidRequestPath,
    /// The submission ends too early.
    Truncated,
    /// The submission speaks another protocol.
    UnsupportedProtocol,
    /// The path of the submission is empty or too long.
    InvalidPathLength,
    /// The path of the submission holds a zero byte.
    InvalidPathBytes,
    /// The path of the submission is relative.
    RelativePath,
}

impl BrokerError {
    /// Class of this error.
    pub open spec fn spec_kind(self) -> ErrorKind {
        match self {
            BrokerError::InvalidSocketPath => ErrorKind::InvalidInput,
            BrokerError::Cancelled => ErrorKind::ConnectionAborted,
            BrokerError::ConnectExpired => ErrorKind::TimedOut,
            BrokerError::StreamExpired => ErrorKind::TimedOut,
            BrokerError::Incompatible => ErrorKind::InvalidData,
            BrokerError::NotSameUser => ErrorKind::PermissionDenied,
            BrokerError::RelativeSocket => ErrorKind::InvalidInput,
            BrokerError::NoSocketDirectory => ErrorKind::InvalidInput,
            BrokerError::UnsafeDirectory => ErrorKind::PermissionDenied,
            BrokerError::TimeoutOutOfRange => ErrorKind::InvalidInput,
            BrokerError::InvalidRequestPath => ErrorKind::InvalidInput,
            BrokerError::Truncated => ErrorKind::UnexpectedEof,
            BrokerError::UnsupportedProtocol => ErrorKind::InvalidData,
            BrokerError::InvalidPathLength => ErrorKind::InvalidData,
            BrokerError::InvalidPathBytes => ErrorKind::InvalidData,
            BrokerError::RelativePath => ErrorKind::InvalidData,
        }
    }

    /// Text of this error.
    pub open spec fn text(self) -> Seq<char> {
        match self {
            BrokerError::InvalidSocketPath => "invalid broker socket path"@,
            BrokerError::Cancelled => "broker launch cancelled"@,
            BrokerError::ConnectExpired => "broker connect deadline expired"@,
            BrokerError::StreamExpired => "broker launch deadline expired"@,
            BrokerError::Incompatible => "incompatible independent broker"@,
            BrokerError::NotSameUser => "broker peer is not the same user"@,
            BrokerError::RelativeSocket => "broker socket must be absolute"@,
            BrokerError::NoSocketDirectory => "missing socket directory"@,
            BrokerError::UnsafeDirectory => "broker directory must be owner-private"@,
            BrokerError::TimeoutOutOfRange => "broker launch timeout is out of range"@,
            BrokerError::InvalidRequestPath => "invalid broker request path"@,
            BrokerError::Truncated => "failed to fill whole buffer"@,
            BrokerError::UnsupportedProtocol => "unsupported broker protocol"@,
            BrokerError::InvalidPathLength => "invalid broker path length"@,
            BrokerError::InvalidPathBytes => "invalid broker path bytes"@,
            BrokerError::RelativePath => "broker path must be absolute"@,
        }
    }

    /// Class of this error.
    pub fn kind(&self) -> (k: ErrorKind)
        ensures
            k == self.spec_kind(),
    {
        match self {
            BrokerError::InvalidSocketPath => ErrorKind::InvalidInput,
            BrokerError::Cancelled => ErrorKind::ConnectionAborted,
            BrokerError::ConnectExpired => ErrorKind::TimedOut,
            BrokerError::StreamExpired => ErrorKind::TimedOut,
            BrokerError::Incompatible => ErrorKind::InvalidData,
            BrokerError::NotSameUser => ErrorKind::PermissionDenied,
            BrokerError::RelativeSocket => ErrorKind::InvalidInput,
            BrokerError::NoSocketDirectory => ErrorKind::InvalidInput,
            BrokerError::UnsafeDirectory => ErrorKind::PermissionDenied,
            BrokerError::TimeoutOutOfRange => ErrorKind::InvalidInput,
            BrokerError::InvalidRequestPath => ErrorKind::InvalidInput,
            BrokerError::Truncated => ErrorKind::UnexpectedEof,
            BrokerError::UnsupportedProtocol => ErrorKind::InvalidData,
            BrokerError::InvalidPathLength => ErrorKind::InvalidData,
            BrokerError::InvalidPathBytes => ErrorKind::InvalidData,
            BrokerError::RelativePath => ErrorKind::InvalidData,
        }
    }

    /// Text of this error.
    pub fn message(&self) -> (s: &'static str)
        ensures
            s@ == self.text(),
    {
        match self {
            BrokerError::InvalidSocketPath => "invalid broker socket path",
            BrokerError::Cancelled => "broker launch cancelled",
            BrokerError::ConnectExpired => "broker connect deadline expired",
            BrokerError::StreamExpired => "broker launch deadline expired",
            BrokerError::Incompatible => "incompatible independent broker",
            BrokerError::NotSameUser => "broker peer is not the same user",
            BrokerError::RelativeSocket => "broker socket must be absolute",
            BrokerError::NoSocketDirectory => "missing socket directory",
            BrokerError::UnsafeDirectory => "broker directory must be owner-private",
            BrokerError::TimeoutOutOfRange => "broker launch timeout is out of range",
            BrokerError::InvalidRequestPath => "invalid broker request path",
            BrokerError::Truncated => "failed to fill whole buffer",
            BrokerError::UnsupportedProtocol => "unsupported broker protocol",
            BrokerError::InvalidPathLength => "invalid broker path length",
            BrokerError::InvalidPathBytes => "invalid broker path bytes",
            BrokerError::RelativePath => "broker path must be absolute",
        }
    }
}

/// Whether a path can be the address of a socket on the host.
pub open spec fn socket_address(path: Seq<u8>, numbers: HostNumbers) -> bool {
    absolute(path) && path.len() < numbers.socket_path_room && !path.contains(0)
}

/// Checks a path to connect to.
pub fn check_socket_path(path: &[u8], numbers: HostNumbers) -> (r: Result<(), BrokerError>)
    ensures
        r == (if socket_address(path@, numbers) {
            Ok(())
        } else {
            Err(BrokerError::InvalidSocketPath)
        }),
{
    if path.len() == 0 || path[0] != 47 || path.len() >= numbers.socket_path_room || contains_byte(
        path,
        0,
    ) {
        Err(BrokerError::InvalidSocketPath)
    } else {
        Ok(())
    }
}

/// What ends an exchange before its next operation.
pub open spec fn exchange_over(
    cancelled: bool,
    elapsed: u128,
    budget: u128,
    late: BrokerError,
) -> Option<BrokerError> {
    if cancelled {
        Some(BrokerError::Cancelled)
    } else if elapsed >= budget {
        Some(late)
    } else {
        None
    }
}

/// Checks one aggregate deadline over all reads and writes of an exchange: a
/// stalled peer cannot refresh it with single bytes.
pub fn check_deadline(cancelled: bool, elapsed: u128, budget: u128) -> (r: Result<(), BrokerError>)
    ensures
        r == (match exchange_over(cancelled, elapsed, budget, BrokerError::StreamExpired) {
            Some(e) => Err(e),
            None => Ok(()),
        }),
{
    if cancelled {
        Err(BrokerError::Cancelled)
    } else if elapsed >= budget {
        Err(BrokerError::StreamExpired)
    } else {
        Ok(())
    }
}

/// What to do after a read or a write.
#[derive(Clone, Copy, Debug, PartialEq, Eq, Structural)]
pub enum StreamTurn {
    /// Pause for some milliseconds, check the deadline and try again.
    Pause(u64),
    /// Check the deadline and try again.
    Retry,
    /// Hand the result on.
    Return,
}

/// Decides what to do after a read or a write; `failure` is its class, if it
/// failed.
pub fn stream_turn(failure: Option<ErrorKind>) -> (t: StreamTurn)
    ensures
        t == (match failure {
            Some(kind) => if kind == ErrorKind::WouldBlock {
                StreamTurn::Pause(5)
            } else if kind == ErrorKind::Interrupted {
                StreamTurn::Retry
            } else {
                StreamTurn::Return
            },
            None => StreamTurn::Return,
        }),
{
    match failure {
        Some(kind) => if kind == ErrorKind::WouldBlock {
            StreamTurn::Pause(5)
        } else if kind == ErrorKind::Interrupted {
            StreamTurn::Retry
        } else {
            StreamTurn::Return
        },
        None => StreamTurn::Return,
    }
}

/// Where a connection attempt stands.
#[derive(Clone, Copy, Debug, PartialEq, Eq, Structural)]
pub enum ConnectState {
    /// A socket is to be opened and connected.
    Opening,
    /// A connection is in progress.
    Polling,
    /// The attempt is over.
    Finished,
}

/// What happened to a connection attempt.
#[derive(Clone, Copy, Debug, PartialEq, Eq, Structural)]
pub enum ConnectEvent {
    /// The socket is connected.
    Connected,
    /// The connection goes on in the background.
    InProgress,
    /// The broker is busy, or the call was interrupted.
    Busy,
    /// The call failed.
    Failed,
    /// A pause is over.
    Woke,
    /// The connection is not ready, or the poll was interrupted.
    NotReady,
    /// The connection ended with a status.
    Ready(i32),
}

/// What to do about a connection attempt.
#[derive(Clone, Copy, Debug, PartialEq, Eq, Structural)]
pub enum ConnectAction {
    /// Open a socket and connect it.
    Open,
    /// Poll the socket for a few milliseconds.
    Poll,
    /// Drop the socket and pause for some milliseconds.
    Pause(u64),
    /// Hand out the socket.
    Done,
    /// Report a failure of the protocol.
    Fail(BrokerError),
    /// Report the failure of the call.
    FailCall,
    /// Report the status of the connection.
    FailStatus(i32),
    /// Nothing: the event does not belong to the state.
    Ignore,
}

/// Milliseconds between two attempts.
pub const CONNECT_PAUSE_MS: u64 = 5;

/// The event of a failed connect call.
pub fn connect_outcome(raw_os_error: Option<i32>, kind: ErrorKind, numbers: HostNumbers) -> (e:
    ConnectEvent)
    ensures
        e == (if raw_os_error == Some(numbers.in_progress) {
            ConnectEvent::InProgress
        } else if kind == ErrorKind::WouldBlock || kind == ErrorKind::Interrupted {
            ConnectEvent::Busy
        } else {
            ConnectEvent::Failed
        }),
{
    let in_progress: bool = match raw_os_error {
        Some(n) => n == numbers.in_progress,
        None => false,
    };
    if in_progress {
        ConnectEvent::InProgress
    } else if kind == ErrorKind::WouldBlock || kind == ErrorKind::Interrupted {
        ConnectEvent::Busy
    } else {
        ConnectEvent::Failed
    }
}

/// An operation that is begun only while the attempt may go on.
pub open spec fn guarded(
    state: ConnectState,
    action: ConnectAction,
    cancelled: bool,
    elapsed: u128,
    budget: u128,
) -> (ConnectState, ConnectAction) {
    match exchange_over(cancelled, elapsed, budget, BrokerError::ConnectExpired) {
        Some(e) => (ConnectState::Finished, ConnectAction::Fail(e)),
        None => (state, action),
    }
}

/// The next state and action of a connection attempt.
pub open spec fn connect_next(
    state: ConnectState,
    event: ConnectEvent,
    cancelled: bool,
    elapsed: u128,
    budget: u128,
) -> (ConnectState, ConnectAction) {
    match (state, event) {
        (ConnectState::Opening, ConnectEvent::Connected) => (
            ConnectState::Finished,
            ConnectAction::Done,
        ),
        (ConnectState::Opening, ConnectEvent::InProgress) => guarded(
            ConnectState::Polling,
            ConnectAction::Poll,
            cancelled,
            elapsed,
            budget,
        ),
        (ConnectState::Opening, ConnectEvent::Busy) => (
            ConnectState::Opening,
            ConnectAction::Pause(CONNECT_PAUSE_MS),
        ),
        (ConnectState::Opening, ConnectEvent::Woke) => guarded(
            ConnectState::Opening,
            ConnectAction::Open,
            cancelled,
            elapsed,
            budget,
        ),
        (ConnectState::Opening, ConnectEvent::Failed) => (
            ConnectState::Finished,
            ConnectAction::FailCall,
        ),
        (ConnectState::Polling, ConnectEvent::NotReady) => guarded(
            ConnectState::Polling,
            ConnectAction::Poll,
            cancelled,
            elapsed,
            budget,
        ),
        (ConnectState::Polling, ConnectEvent::Failed) => (
            ConnectState::Finished,
            ConnectAction::FailCall,
        ),
        (ConnectState::Polling, ConnectEvent::Ready(status)) => (
            ConnectState::Finished,
            if status == 0 {
                ConnectAction::Done
            } else {
                ConnectAction::FailStatus(status)
            },
        ),
        _ => (state, ConnectAction::Ignore),
    }
}

fn guard(
    state: ConnectState,
    action: ConnectAction,
    cancelled: bool,
    elapsed: u128,
    budget: u128,
) -> (r: (ConnectState, ConnectAction))
    ensures
        r == guarded(state, action, cancelled, elapsed, budget),
{
    if cancelled {
        (ConnectState::Finished, ConnectAction::Fail(BrokerError::Cancelled))
    } else if elapsed >= budget {
        (ConnectState::Finished, ConnectAction::Fail(BrokerError::ConnectExpired))
    } else {
        (state, action)
    }
}

/// Begins a connection attempt.
pub fn begin_connect(
    socket: &[u8],
    numbers: HostNumbers,
    cancelled: bool,
    elapsed: u128,
    budget: u128,
) -> (r: (ConnectState, ConnectAction))
    ensures
        r == connect_start(socket@, numbers, cancelled, elapsed, budget),
        r == (if socket_address(socket@, numbers) {
            guarded(ConnectState::Opening, ConnectAction::Open, cancelled, elapsed, budget)
        } else {
            (ConnectState::Finished, ConnectAction::Fail(BrokerError::InvalidSocketPath))
        }),
{
    match check_socket_path(socket, numbers) {
        Err(e) => (ConnectState::Finished, ConnectAction::Fail(e)),
        Ok(()) => guard(ConnectState::Opening, ConnectAction::Open, cancelled, elapsed, budget),
    }
}

/// One step of a connection attempt.
pub fn step_connect(
    state: ConnectState,
    event: ConnectEvent,
    cancelled: bool,
    elapsed: u128,
    budget: u128,
) -> (r: (ConnectState, ConnectAction))
    ensures
        r == connect_next(state, event, cancelled, elapsed, budget),
{
    match (state, event) {
        (ConnectState::Opening, ConnectEvent::Connected) => (
            ConnectState::Finished,
            ConnectAction::Done,
        ),
        (ConnectState::Opening, ConnectEvent::InProgress) => guard(
            ConnectState::Polling,
            ConnectAction::Poll,
            cancelled,
            elapsed,
            budget,
        ),
        (ConnectState::Opening, ConnectEvent::Busy) => (
            ConnectState::Opening,
            ConnectAction::Pause(CONNECT_PAUSE_MS),
        ),
        (ConnectState::Opening, ConnectEvent::Woke) => guard(
            ConnectState::Opening,
            ConnectAction::Open,
            cancelled,
            elapsed,
            budget,
        ),
        (ConnectState::Opening, ConnectEvent::Failed) => (
            ConnectState::Finished,
            ConnectAction::FailCall,
        ),
        (ConnectState::Polling, ConnectEvent::NotReady) => guard(
            ConnectState::Polling,
            ConnectAction::Poll,
            cancelled,
            elapsed,
            budget,
        ),
        (ConnectState::Polling, ConnectEvent::Failed) => (
            ConnectState::Finished,
            ConnectAction::FailCall,
        ),
        (ConnectState::Polling, ConnectEvent::Ready(status)) => if status == 0 {
            (ConnectState::Finished, ConnectAction::Done)
        } else {
            (ConnectState::Finished, ConnectAction::FailStatus(status))
        },
        _ => (state, ConnectAction::Ignore),
    }
}

/// No call of a connection attempt is begun after its cancellation or its
/// deadline.
pub proof fn law_connect_respects_the_deadline(
    state: ConnectState,
    event: ConnectEvent,
    cancelled: bool,
    elapsed: u128,
    budget: u128,
)
    requires
        cancelled || elapsed >= budget,
    ensures
        connect_next(state, event, cancelled, elapsed, budget).1 != ConnectAction::Open,
        connect_next(state, event, cancelled, elapsed, budget).1 != ConnectAction::Poll,
{
}

/// Checks the greeting of a broker.
pub fn read_greeting(greeting: &[u8]) -> (r: Result<(), BrokerError>)
    ensures
        r == (if greeting@.len() < 8 {
            Err(BrokerError::Truncated)
        } else if BROKER_MAGIC@.is_prefix_of(greeting@) {
            Ok(())
        } else {
            Err(BrokerError::Incompatible)
        }),
{
    if greeting.len() < 8 {
        Err(BrokerError::Truncated)
    } else if starts_with(greeting, &BROKER_MAGIC) {
        Ok(())
    } else {
        Err(BrokerError::Incompatible)
    }
}

/// Admits the peer of a connection by the credentials that the kernel gave.
pub fn admit_peer(complete: bool, peer_user: u32, user: u32, pid: i32) -> (r: Result<u32, BrokerError>)
    ensures
        r == (if complete && peer_user == user && pid > 0 {
            Ok(pid as u32)
        } else {
            Err(BrokerError::NotSameUser)
        }),
{
    if complete && peer_user == user && pid > 0 {
        Ok(pid as u32)
    } else {
        Err(BrokerError::NotSameUser)
    }
}

/// What is known of the directory of a socket to serve.
#[derive(Clone, Copy, Debug, PartialEq, Eq, Structural)]
pub struct DirectoryFacts {
    /// Whether it is a directory.
    pub is_directory: bool,
    /// Its owner.
    pub owner: u32,
    /// This user.
    pub user: u32,
    /// Its permission bits.
    pub mode: u32,
}

/// Checks the path of a socket to serve. The root has no directory, however it
/// is written.
pub fn check_served_socket(socket: &[u8]) -> (r: Result<(), BrokerError>)
    ensures
        r == (if !absolute(socket@) {
            Err(BrokerError::RelativeSocket)
        } else if components(socket@).len() == 0 {
            Err(BrokerError::NoSocketDirectory)
        } else {
            Ok(())
        }),
{
    if socket.len() == 0 || socket[0] != 47 {
        return Err(BrokerError::RelativeSocket);
    }
    let parts = path_components(socket);
    assert(parts@.len() == components(socket@).len());
    if parts.len() == 0 {
        Err(BrokerError::NoSocketDirectory)
    } else {
        Ok(())
    }
}

/// Checks the directory of a socket to serve.
pub fn check_served_directory(facts: DirectoryFacts) -> (r: Result<(), BrokerError>)
    ensures
        r == (if facts.is_directory && facts.owner == facts.user && facts.mode & 0o077 == 0 {
            Ok(())
        } else {
            Err(BrokerError::UnsafeDirectory)
        }),
{
    if !facts.is_directory || facts.owner != facts.user || facts.mode & 0o077 != 0 {
        Err(BrokerError::UnsafeDirectory)
    } else {
        Ok(())
    }
}

/// What to do after waiting for a connection.
#[derive(Clone, Copy, Debug, PartialEq, Eq, Structural)]
pub enum AcceptTurn {
    /// Serve the connection.
    Serve,
    /// Pause for some milliseconds and wait again.
    Pause(u64),
    /// Wait again.
    Retry,
    /// Report the failure.
    Stop,
}

/// Decides what to do after waiting for a connection; `failure` is the class of
/// the failure, if it failed.
pub fn accept_turn(failure: Option<ErrorKind>) -> (t: AcceptTurn)
    ensures
        t == (match failure {
            None => AcceptTurn::Serve,
            Some(kind) => if kind == ErrorKind::WouldBlock {
                AcceptTurn::Pause(25)
            } else if kind == ErrorKind::Interrupted {
                AcceptTurn::Retry
            } else {
                AcceptTurn::Stop
            },
        }),
{
    match failure {
        None => AcceptTurn::Serve,
        Some(kind) => if kind == ErrorKind::WouldBlock {
            AcceptTurn::Pause(25)
        } else if kind == ErrorKind::Interrupted {
            AcceptTurn::Retry
        } else {
            AcceptTurn::Stop
        },
    }
}

/// How far a broker is with a connection.
#[derive(Clone, Copy, Debug, PartialEq, Eq, Structural)]
pub enum ServePhase {
    /// The peer is to be admitted.
    Admission,
    /// The greeting is being sent.
    Greeting,
    /// The submission is being read.
    Submission,
    /// The private request is being checked.
    Validation,
    /// The helper is being started.
    Launch,
}

/// What a broker does next with a connection.
#[derive(Clone, Copy, Debug, PartialEq, Eq, Structural)]
pub enum ServeAction {
    /// Send the greeting.
    Greet,
    /// Read the submission.
    ReadSubmission,
    /// Check that the private request is safe and complete.
    CheckRequest,
    /// Start the helper.
    LaunchHelper,
    /// Answer with a zero and keep the supervisor.
    Retain,
    /// Answer with a one.
    Reject,
    /// Say nothing.
    Close,
}

/// Decides what a broker does next with a connection, given whether the phase
/// went well. Nothing is answered to a peer that cannot be greeted, and every
/// other failure is a rejection.
pub fn serve_step(phase: ServePhase, ok: bool) -> (a: ServeAction)
    ensures
        a == serve_decision(phase, ok),
        a == (match phase {
            ServePhase::Admission => if ok {
                ServeAction::Greet
            } else {
                ServeAction::Reject
            },
            ServePhase::Greeting => if ok {
                ServeAction::ReadSubmission
            } else {
                ServeAction::Close
            },
            ServePhase::Submission => if ok {
                ServeAction::CheckRequest
            } else {
                ServeAction::Reject
            },
            ServePhase::Validation => if ok {
                ServeAction::LaunchHelper
            } else {
                ServeAction::Reject
            },
            ServePhase::Launch => if ok {
                ServeAction::Retain
            } else {
                ServeAction::Reject
            },
        }),
{
    match phase {
        ServePhase::Admission => if ok {
            ServeAction::Greet
        } else {
            ServeAction::Reject
        },
        ServePhase::Greeting => if ok {
            ServeAction::ReadSubmission
        } else {
            ServeAction::Close
        },
        ServePhase::Submission => if ok {
            ServeAction::CheckRequest
        } else {
            ServeAction::Reject
        },
        ServePhase::Validation => if ok {
            ServeAction::LaunchHelper
        } else {
            ServeAction::Reject
        },
        ServePhase::Launch => if ok {
            ServeAction::Retain
        } else {
            ServeAction::Reject
        },
    }
}

/// Whether a broker with some supervisors takes a peer on.
pub fn has_capacity(peer_admitted: bool, supervisors: usize) -> (b: bool)
    ensures
        b == (peer_admitted && supervisors < MAX_SUPERVISORS),
{
    peer_admitted && supervisors < MAX_SUPERVISORS
}

/// Whether a submitted wait is in range.
pub open spec fn wait_in_range(timeout_ms: u64) -> bool {
    0 < timeout_ms <= MAX_BROKER_TIMEOUT_MS
}

/// Checks a submitted wait.
pub fn check_wait(timeout_ms: u64) -> (r: Result<(), BrokerError>)
    ensures
        r == (if wait_in_range(timeout_ms) {
            Ok(())
        } else {
            Err(BrokerError::TimeoutOutOfRange)
        }),
{
    if timeout_ms == 0 || timeout_ms > MAX_BROKER_TIMEOUT_MS {
        Err(BrokerError::TimeoutOutOfRange)
    } else {
        Ok(())
    }
}

/// Whether a request path can be submitted.
pub open spec fn submittable(path: Seq<u8>) -> bool {
    absolute(path) && path.len() <= MAX_PATH_BYTES && !path.contains(0)
}

/// The wire bytes of a submission.
pub open spec fn submission(path: Seq<u8>, timeout_ms: u64) -> Seq<u8> {
    BROKER_MAGIC@ + le_u32(path.len() as u32) + le_u64(timeout_ms) + path
}

/// The wire bytes of a submission.
pub fn write_submission(request: &[u8], timeout_ms: u64) -> (r: Result<Vec<u8>, BrokerError>)
    ensures
        match r {
            Ok(bytes) => submittable(request@) && bytes@ == submission(request@, timeout_ms),
            Err(e) => e == BrokerError::InvalidRequestPath && !submittable(request@),
        },
{
    if request.len() == 0 || request[0] != 47 || request.len() > MAX_PATH_BYTES || contains_byte(
        request,
        0,
    ) {
        return Err(BrokerError::InvalidRequestPath);
    }
    let mut bytes: Vec<u8> = copy_bytes(&BROKER_MAGIC);
    append_u32_le(&mut bytes, request.len() as u32);
    append_u64_le(&mut bytes, timeout_ms);
    append_bytes(&mut bytes, request);
    Ok(bytes)
}

/// What the fixed part of a submission says: the length of the path and the
/// wait.
pub open spec fn parsed_header(header: Seq<u8>) -> Result<(nat, u64), BrokerError> {
    if header.len() < SUBMISSION_HEADER {
        Err(BrokerError::Truncated)
    } else if !BROKER_MAGIC@.is_prefix_of(header) {
        Err(BrokerError::UnsupportedProtocol)
    } else {
        let length = u32_at(header, 8) as nat;
        if length == 0 || length > MAX_PATH_BYTES {
            Err(BrokerError::InvalidPathLength)
        } else {
            Ok((length, u64_at(header, 12)))
        }
    }
}

/// What the bytes behind the fixed part say, once as many are there as it
/// announced.
pub open spec fn parsed_path(bytes: Seq<u8>) -> Result<Seq<u8>, BrokerError> {
    if bytes.contains(0) {
        Err(BrokerError::InvalidPathBytes)
    } else if !absolute(bytes) {
        Err(BrokerError::RelativePath)
    } else {
        Ok(bytes)
    }
}

/// What a submission says: the request path and the wait.
pub open spec fn parsed_submission(input: Seq<u8>) -> Result<(Seq<u8>, u64), BrokerError> {
    match parsed_header(input) {
        Err(e) => Err(e),
        Ok((length, timeout)) => if input.len() < SUBMISSION_HEADER + length {
            Err(BrokerError::Truncated)
        } else {
            match parsed_path(
                input.subrange(SUBMISSION_HEADER as int, SUBMISSION_HEADER + length as int),
            ) {
                Err(e) => Err(e),
                Ok(path) => Ok((path, timeout)),
            }
        },
    }
}

/// Reads the fixed part of a submission: the length of the path, before any
/// memory is taken for it, and the wait.
pub fn read_submission_header(header: &[u8]) -> (r: Result<(usize, u64), BrokerError>)
    ensures
        match r {
            Ok((length, timeout)) => parsed_header(header@) == Ok::<(nat, u64), BrokerError>(
                (length as nat, timeout),
            ),
            Err(e) => parsed_header(header@) == Err::<(nat, u64), BrokerError>(e),
        },
{
    if header.len() < SUBMISSION_HEADER {
        return Err(BrokerError::Truncated);
    }
    if !starts_with(header, &BROKER_MAGIC) {
        return Err(BrokerError::UnsupportedProtocol);
    }
    let length: usize = read_u32_le(header, 8) as usize;
    if length == 0 || length > MAX_PATH_BYTES {
        return Err(BrokerError::InvalidPathLength);
    }
    Ok((length, read_u64_le(header, 12)))
}

/// Reads the path of a submission.
pub fn read_submission_path(bytes: &[u8]) -> (r: Result<Vec<u8>, BrokerError>)
    ensures
        match r {
            Ok(path) => parsed_path(bytes@) == Ok::<Seq<u8>, BrokerError>(path@),
            Err(e) => parsed_path(bytes@) == Err::<Seq<u8>, BrokerError>(e),
        },
{
    if contains_byte(bytes, 0) {
        return Err(BrokerError::InvalidPathBytes);
    }
    if bytes.len() == 0 || bytes[0] != 47 {
        return Err(BrokerError::RelativePath);
    }
    Ok(copy_bytes(bytes))
}

/// Reads a submission from the front of some bytes.
pub fn read_submission(input: &[u8]) -> (r: Result<(Vec<u8>, u64), BrokerError>)
    ensures
        match r {
            Ok((path, timeout)) => parsed_submission(input@) == Ok::<(Seq<u8>, u64), BrokerError>(
                (path@, timeout),
            ),
            Err(e) => parsed_submission(input@) == Err::<(Seq<u8>, u64), BrokerError>(e),
        },
{
    let (length, timeout) = read_submission_header(input)?;
    if input.len() - SUBMISSION_HEADER < length {
        return Err(BrokerError::Truncated);
    }
    let bytes = slice_subrange(input, SUBMISSION_HEADER, SUBMISSION_HEADER + length);
    let path = read_submission_path(bytes)?;
    Ok((path, timeout))
}

/// What was submitted is what the broker reads, whatever follows it on the
/// channel.
pub proof fn law_submission_reads_back(path: Seq<u8>, timeout_ms: u64, rest: Seq<u8>)
    requires
        submittable(path),
    ensures
        parsed_submission(submission(path, timeout_ms) + rest) == Ok::<
            (Seq<u8>, u64),
            BrokerError,
        >((path, timeout_ms)),
{
    let length = path.len() as u32;
    let input = submission(path, timeout_ms) + rest;
    lemma_u32_le_round_trip(length);
    lemma_u64_le_round_trip(timeout_ms);
    assert(BROKER_MAGIC@.len() == 8);
    assert(BROKER_MAGIC@ =~= input.subrange(0, 8));
    assert(BROKER_MAGIC@.is_prefix_of(input));
    assert(u32_at(input, 8) == length) by {
        reveal(u32_at);
        assert forall|i: int| 0 <= i < 4 implies input[8 + i] == #[trigger] le_u32(length)[i] by {}
        assert(input[8] == le_u32(length)[0] && input[9] == le_u32(length)[1] && input[10]
            == le_u32(length)[2] && input[11] == le_u32(length)[3]);
    }
    assert(u64_at(input, 12) == timeout_ms) by {
        reveal(u32_at);
        let w = le_u64(timeout_ms);
        assert(input[12] == w[0] && input[13] == w[1] && input[14] == w[2] && input[15] == w[3]);
        assert(input[16] == w[4] && input[17] == w[5] && input[18] == w[6] && input[19] == w[7]);
        assert(u32_at(input, 12) == u32_at(w, 0));
        assert(u32_at(input, 16) == u32_at(w, 4));
    }
    assert(input.subrange(20, 20 + path.len() as int) =~= path);
}

/// A path is the address of a socket exactly if it is absolute, leaves room for its
/// terminator and holds no zero byte.
pub proof fn law_socket_addresses(path: Seq<u8>, numbers: HostNumbers)
    ensures
        socket_address(path, numbers) <==> {
            &&& 0 < path.len() < numbers.socket_path_room
            &&& path[0] == '/' as u8
            &&& forall|i: int| 0 <= i < path.len() ==> path[i] != 0
        },
{
}

/// An exchange is over as soon as it was cancelled or has used its budget, in that
/// order, and not before.
pub proof fn law_exchanges_have_a_budget(
    cancelled: bool,
    elapsed: u128,
    budget: u128,
    late: BrokerError,
)
    ensures
        cancelled ==> exchange_over(cancelled, elapsed, budget, late) == Some(
            BrokerError::Cancelled,
        ),
        !cancelled && elapsed >= budget ==> exchange_over(cancelled, elapsed, budget, late) == Some(
            late,
        ),
        !cancelled && elapsed < budget ==> exchange_over(cancelled, elapsed, budget, late) is None,
{
}

/// How a connection attempt begins.
pub open spec fn connect_start(
    socket: Seq<u8>,
    numbers: HostNumbers,
    cancelled: bool,
    elapsed: u128,
    budget: u128,
) -> (ConnectState, ConnectAction) {
    if socket_address(socket, numbers) {
        guarded(ConnectState::Opening, ConnectAction::Open, cancelled, elapsed, budget)
    } else {
        (ConnectState::Finished, ConnectAction::Fail(BrokerError::InvalidSocketPath))
    }
}

/// An attempt that is neither cancelled nor late goes on until the broker takes it or
/// a call fails: a busy broker is tried again after 5 milliseconds, a connection in
/// progress is polled until it is ready, and the socket is handed out exactly when it
/// is connected.
pub proof fn law_connecting_goes_on_in_time(
    socket: Seq<u8>,
    numbers: HostNumbers,
    status: i32,
    elapsed: u128,
    budget: u128,
)
    requires
        elapsed < budget,
    ensures
        socket_address(socket, numbers) ==> connect_start(socket, numbers, false, elapsed, budget)
            == (ConnectState::Opening, ConnectAction::Open),
        ({
            let opening = |event: ConnectEvent|
                connect_next(ConnectState::Opening, event, false, elapsed, budget);
            let polling = |event: ConnectEvent|
                connect_next(ConnectState::Polling, event, false, elapsed, budget);
            &&& opening(ConnectEvent::Connected).1 == ConnectAction::Done
            &&& opening(ConnectEvent::InProgress) == (ConnectState::Polling, ConnectAction::Poll)
            &&& opening(ConnectEvent::Busy) == (ConnectState::Opening, ConnectAction::Pause(5))
            &&& opening(ConnectEvent::Woke) == (ConnectState::Opening, ConnectAction::Open)
            &&& opening(ConnectEvent::Failed).1 == ConnectAction::FailCall
            &&& polling(ConnectEvent::NotReady) == (ConnectState::Polling, ConnectAction::Poll)
            &&& polling(ConnectEvent::Failed).1 == ConnectAction::FailCall
            &&& polling(ConnectEvent::Ready(0)).1 == ConnectAction::Done
            &&& status != 0 ==> polling(ConnectEvent::Ready(status)).1 == ConnectAction::FailStatus(
                status,
            )
        }),
{
}

/// A connection attempt fails for the reason that holds: it was cancelled, it is late,
/// a call failed, or the connection ended with a status. It is over exactly when a
/// socket was handed out or a failure reported.
pub proof fn law_connecting_fails_for_a_reason(
    state: ConnectState,
    event: ConnectEvent,
    cancelled: bool,
    elapsed: u128,
    budget: u128,
)
    requires
        state != ConnectState::Finished,
    ensures
        ({
            let (next, action) = connect_next(state, event, cancelled, elapsed, budget);
            &&& match action {
                ConnectAction::Fail(error) => (error == BrokerError::Cancelled && cancelled) || (
                error == BrokerError::ConnectExpired && !cancelled && elapsed >= budget),
                ConnectAction::FailCall => event == ConnectEvent::Failed,
                ConnectAction::FailStatus(status) => event == ConnectEvent::Ready(status) && status
                    != 0,
                ConnectAction::Done => event == ConnectEvent::Connected || event
                    == ConnectEvent::Ready(0),
                ConnectAction::Ignore => next == state,
                _ => true,
            }
            &&& next == ConnectState::Finished <==> action is Fail || action is FailCall || action
                is FailStatus || action is Done
        }),
{
}

/// What a broker does next with a connection.
pub open spec fn serve_decision(phase: ServePhase, ok: bool) -> ServeAction {
    match phase {
        ServePhase::Admission => if ok {
            ServeAction::Greet
        } else {
            ServeAction::Reject
        },
        ServePhase::Greeting => if ok {
            ServeAction::ReadSubmission
        } else {
            ServeAction::Close
        },
        ServePhase::Submission => if ok {
            ServeAction::CheckRequest
        } else {
            ServeAction::Reject
        },
        ServePhase::Validation => if ok {
            ServeAction::LaunchHelper
        } else {
            ServeAction::Reject
        },
        ServePhase::Launch => if ok {
            ServeAction::Retain
        } else {
            ServeAction::Reject
        },
    }
}

/// A broker launches a helper only for a request that it checked, after a submission
/// that it read, from a peer that it admitted and greeted; it keeps a supervisor only
/// once its helper was launched. A phase that fails ends the connection, with a
/// rejection except where the peer could not even be greeted.
pub proof fn law_brokers_serve_in_order(phase: ServePhase, ok: bool)
    ensures
        ({
            let action = serve_decision(phase, ok);
            &&& action == ServeAction::Greet <==> ok && phase == ServePhase::Admission
            &&& action == ServeAction::ReadSubmission <==> ok && phase == ServePhase::Greeting
            &&& action == ServeAction::CheckRequest <==> ok && phase == ServePhase::Submission
            &&& action == ServeAction::LaunchHelper <==> ok && phase == ServePhase::Validation
            &&& action == ServeAction::Retain <==> ok && phase == ServePhase::Launch
            &&& action == ServeAction::Close <==> !ok && phase == ServePhase::Greeting
            &&& action == ServeAction::Reject <==> !ok && phase != ServePhase::Greeting
        }),
{
}

/// A wait is in range from one millisecond to an hour, and a request path can be
/// submitted if it is absolute, not longer than 4096 bytes and without a zero byte.
pub proof fn law_submissions_are_bounded(path: Seq<u8>, timeout_ms: u64)
    ensures
        wait_in_range(timeout_ms) <==> 1 <= timeout_ms <= 3_600_000,
        submittable(path) <==> {
            &&& 0 < path.len() <= 4096
            &&& path[0] == '/' as u8
            &&& forall|i: int| 0 <= i < path.len() ==> path[i] != 0
        },
{
}

/// A submission is eight bytes that name the protocol, the length of the path in four
/// bytes and the wait in eight, both with the lowest byte first, and the path.
pub proof fn law_submission_layout(path: Seq<u8>, timeout_ms: u64)
    requires
        path.len() <= MAX_PATH_BYTES,
    ensures
        ({
            let bytes = submission(path, timeout_ms);
            &&& bytes.len() == 20 + path.len()
            &&& bytes.subrange(0, 8) == seq![
                'R' as u8,
                'P' as u8,
                'B' as u8,
                'R' as u8,
                'K' as u8,
                '0' as u8,
                '0' as u8,
                '1' as u8,
            ]
            &&& bytes[8] + 256 * bytes[9] + 65536 * bytes[10] + 16777216 * bytes[11] == path.len()
            &&& u64_at(bytes, 12) == timeout_ms
            &&& bytes.subrange(20, bytes.len() as int) == path
        }),
{
    let bytes = submission(path, timeout_ms);
    let n = path.len() as u32;
    lemma_u32_le_round_trip(n);
    lemma_u64_le_round_trip(timeout_ms);
    assert(le_u64(timeout_ms).len() == 8) by {
        lemma_u32_le_round_trip((timeout_ms % 0x1_0000_0000) as u32);
        lemma_u32_le_round_trip((timeout_ms / 0x1_0000_0000) as u32);
    }
    assert(bytes.subrange(0, 8) =~= BROKER_MAGIC@);
    assert(BROKER_MAGIC@ =~= seq![82u8, 80u8, 66u8, 82u8, 75u8, 48u8, 48u8, 49u8]);
    assert(bytes.subrange(8, 12) =~= le_u32(n));
    assert(bytes[8] == le_u32(n)[0] && bytes[9] == le_u32(n)[1] && bytes[10] == le_u32(n)[2]
        && bytes[11] == le_u32(n)[3]);
    reveal(le_u32);
    reveal(u32_at);
    assert(bytes.subrange(12, 20) =~= le_u64(timeout_ms));
    assert(forall|i: int| 0 <= i < 8 ==> bytes[12 + i] == #[trigger] le_u64(timeout_ms)[i]);
    assert(bytes[12] == le_u64(timeout_ms)[0] && bytes[13] == le_u64(timeout_ms)[1] && bytes[14]
        == le_u64(timeout_ms)[2] && bytes[15] == le_u64(timeout_ms)[3] && bytes[16] == le_u64(
        timeout_ms,
    )[4] && bytes[17] == le_u64(timeout_ms)[5] && bytes[18] == le_u64(timeout_ms)[6] && bytes[19]
        == le_u64(timeout_ms)[7]);
    assert(u64_at(bytes, 12) == u64_at(le_u64(timeout_ms), 0));
    assert(bytes.subrange(20, bytes.len() as int) =~= path);
}

/// A submission that is read has a path that could have been submitted, and it stands
/// behind the fixed part; too few bytes are never read as one.
pub proof fn law_read_submissions_are_submittable(input: Seq<u8>)
    ensures
        parsed_submission(input) matches Ok((path, timeout)) ==> {
            &&& submittable(path)
            &&& input.len() >= 20 + path.len()
            &&& path == input.subrange(20, 20 + path.len() as int)
            &&& u32_at(input, 8) == path.len()
            &&& timeout == u64_at(input, 12)
            &&& input.subrange(0, 8) == BROKER_MAGIC@
        },
        input.len() < 20 ==> parsed_submission(input) == Err::<(Seq<u8>, u64), BrokerError>(
            BrokerError::Truncated,
        ),
        input.len() >= 20 && input.subrange(0, 8) != BROKER_MAGIC@ ==> parsed_submission(input)
            == Err::<(Seq<u8>, u64), BrokerError>(BrokerError::UnsupportedProtocol),
        input.len() >= 20 && input.subrange(0, 8) == BROKER_MAGIC@ && (u32_at(input, 8) == 0
            || u32_at(input, 8) > 4096) ==> parsed_submission(input) == Err::<
            (Seq<u8>, u64),
            BrokerError,
        >(BrokerError::InvalidPathLength),
{
    if input.len() >= 20 {
        assert(BROKER_MAGIC@.len() == 8);
    }
}

} // verus!
