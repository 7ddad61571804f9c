//! Session tees, from the client's side: the request for a file tee, and how the
//! daemon's answers are judged.

use crate::daemon::protocol::StatusCode;
use crate::wire::copy_bytes;
use vstd::prelude::*;
use vstd::string::*;

verus! {

/// Kind of a daemon-owned session.
#[derive(Clone, Copy, Debug, PartialEq, Eq, Structural)]
pub enum SessionTeeKind {
    /// With a terminal.
    Pty,
    /// With pipes.
    Pipe,
}

/// Stream of a session.
#[derive(Clone, Copy, Debug, PartialEq, Eq, Structural)]
pub enum SessionTeeStream {
    /// Combined terminal output.
    PtyOutput,
    /// Standard output.
    Stdout,
    /// Standard error.
    Stderr,
    /// Echo of what was written to standard input.
    Stdin,
}

/// How a tee file is opened.
#[derive(Clone, Copy, Debug, PartialEq, Eq, Structural)]
pub enum SessionTeeFileMode {
    /// At its end.
    Append,
    /// Emptied.
    Truncate,
}

/// What a full tee does.
#[derive(Clone, Copy, Debug, PartialEq, Eq, Structural)]
pub enum SessionTeeBackpressure {
    /// Drops the oldest.
    DropOldest,
    /// Makes the session wait.
    Block,
}

/// Request for a tee into a file.
#[derive(Clone, Debug, PartialEq, Eq)]
pub struct SessionTeeFileRequest {
    /// Session to tee.
    pub session_id: String,
    /// Its kind.
    pub session_kind: SessionTeeKind,
    /// Stream to tee.
    pub stream: SessionTeeStream,
    /// Native bytes of the file's path.
    pub path: Vec<u8>,
    /// How the file is opened.
    pub mode: SessionTeeFileMode,
    /// Number of items that may wait; zero for the daemon's default.
    pub queue_capacity: u32,
    /// Whether missed bytes are marked in the file.
    pub write_missed_markers: bool,
    /// What a full tee does.
    pub backpressure: SessionTeeBackpressure,
}

impl SessionTeeFileRequest {
    /// A request with the usual options: append, the daemon's queue, marks for
    /// missed bytes, and no waiting.
    pub fn new(
        session_id: String,
        session_kind: SessionTeeKind,
        stream: SessionTeeStream,
        path: &[u8],
    ) -> (r: SessionTeeFileRequest)
        ensures
            r.session_id == session_id,
            r.session_kind == session_kind,
            r.stream == stream,
            r.path@ == path@,
            r.mode == SessionTeeFileMode::Append,
            r.queue_capacity == 0,
            r.write_missed_markers,
            r.backpressure == SessionTeeBackpressure::DropOldest,
    {
        SessionTeeFileRequest {
            session_id,
            session_kind,
            stream,
            path: copy_bytes(path),
            mode: SessionTeeFileMode::Append,
            queue_capacity: 0,
            write_missed_markers: true,
            backpressure: SessionTeeBackpressure::DropOldest,
        }
    }

    /// The request with an emptied file.
    pub fn truncate(self) -> (r: SessionTeeFileRequest)
        ensures
            r == (SessionTeeFileRequest { mode: SessionTeeFileMode::Truncate, ..self }),
    {
        SessionTeeFileRequest { mode: SessionTeeFileMode::Truncate, ..self }
    }

    /// The request with another queue.
    pub fn queue_capacity(self, capacity: u32) -> (r: SessionTeeFileRequest)
        ensures
            r == (SessionTeeFileRequest { queue_capacity: capacity, ..self }),
    {
        SessionTeeFileRequest { queue_capacity: capacity, ..self }
    }

    /// The request without marks for missed bytes.
    pub fn suppress_missed_markers(self) -> (r: SessionTeeFileRequest)
        ensures
            r == (SessionTeeFileRequest { write_missed_markers: false, ..self }),
    {
        SessionTeeFileRequest { write_missed_markers: false, ..self }
    }

    /// The request with another choice for a full tee.
    pub fn backpressure(self, backpressure: SessionTeeBackpressure) -> (r: SessionTeeFileRequest)
        ensures
            r == (SessionTeeFileRequest { backpressure, ..self }),
    {
        SessionTeeFileRequest { backpressure, ..self }
    }
}

/// State of a session tee.
#[derive(Clone, Copy, Debug, PartialEq, Eq, Structural)]
pub struct SessionTeeStatus {
    /// Stream of the tee.
    pub stream: SessionTeeStream,
    /// Number of missed bytes.
    pub missed_bytes: u64,
    /// Whether the tee lost its receiver.
    pub disconnected: bool,
}

/// A refusal of the daemon, or an answer that is no answer.
#[derive(Clone, Debug, PartialEq, Eq)]
pub struct ServerError {
    /// What the daemon said.
    pub code: StatusCode,
    /// In words.
    pub message: String,
}

/// The stream of a tee as it stands in an answer.
#[derive(Clone, Copy, Debug, PartialEq, Eq, Structural)]
pub enum AnsweredStream {
    /// A stream.
    Known(SessionTeeStream),
    /// The number for no stream.
    Unspecified,
    /// A number that means nothing.
    Unknown,
}

/// An answer of the daemon with its payload.
#[derive(Clone, Debug, PartialEq, Eq)]
pub struct Answer<T> {
    /// The code, if its number means something.
    pub code: Option<StatusCode>,
    /// In words.
    pub message: String,
    /// The payload.
    pub payload: Option<T>,
}

/// Whether an error reports what an answer refused.
pub open spec fn refuses<T>(answer: Answer<T>, error: ServerError) -> bool {
    &&& answer.code != Some(StatusCode::Done)
    &&& error.code == (match answer.code {
        Some(code) => code,
        None => StatusCode::UnknownRequest,
    })
    &&& error.message@ == answer.message@
}

/// Whether an error reports an answer that is no answer.
pub open spec fn malformed(error: ServerError, text: Seq<char>) -> bool {
    error.code == StatusCode::Internal && error.message@ == text
}

/// Checks that the daemon did what it was asked. A code that means nothing is
/// reported as an unknown request.
pub fn ensure_ok<T>(answer: &Answer<T>) -> (r: Result<(), ServerError>)
    ensures
        match r {
            Ok(()) => answer.code == Some(StatusCode::Done),
            Err(e) => refuses(*answer, e),
        },
{
    let code: StatusCode = match answer.code {
        Some(code) => code,
        None => StatusCode::UnknownRequest,
    };
    if code == StatusCode::Done {
        return Ok(());
    }
    Err(ServerError { code, message: answer.message.as_str().to_owned() })
}

fn internal(text: &str) -> (e: ServerError)
    ensures
        malformed(e, text@),
{
    ServerError { code: StatusCode::Internal, message: text.to_owned() }
}

/// The handle of a tee that was registered.
pub fn registered_tee(answer: Answer<u64>) -> (r: Result<u64, ServerError>)
    ensures
        match r {
            Ok(handle) => answer.code == Some(StatusCode::Done) && answer.payload == Some(handle),
            Err(e) => refuses(answer, e) || (answer.code == Some(StatusCode::Done)
                && answer.payload is None && malformed(
                e,
                "register_session_tee response missing payload"@,
            )),
        },
{
    match ensure_ok(&answer) {
        Err(e) => Err(e),
        Ok(()) => match answer.payload {
            Some(handle) => Ok(handle),
            None => Err(internal("register_session_tee response missing payload")),
        },
    }
}

/// What an answer about a tee says.
#[derive(Clone, Copy, Debug, PartialEq, Eq, Structural)]
pub struct AnsweredStatus {
    /// Stream of the tee.
    pub stream: AnsweredStream,
    /// Number of missed bytes.
    pub missed_bytes: u64,
    /// Whether the tee lost its receiver.
    pub disconnected: bool,
}

/// The state of a tee.
pub fn tee_status(answer: Answer<AnsweredStatus>) -> (r: Result<SessionTeeStatus, ServerError>)
    ensures
        match r {
            Ok(s) => {
                &&& answer.code == Some(StatusCode::Done)
                &&& answer.payload == Some(
                    AnsweredStatus {
                        stream: AnsweredStream::Known(s.stream),
                        missed_bytes: s.missed_bytes,
                        disconnected: s.disconnected,
                    },
                )
            },
            Err(e) => refuses(answer, e) || (answer.code == Some(StatusCode::Done)
                && match answer.payload {
                None => malformed(e, "get_session_tee_status response missing payload"@),
                Some(p) => match p.stream {
                    AnsweredStream::Unknown => malformed(
                        e,
                        "get_session_tee_status response has invalid stream"@,
                    ),
                    AnsweredStream::Unspecified => malformed(
                        e,
                        "get_session_tee_status response has unspecified stream"@,
                    ),
                    AnsweredStream::Known(_) => false,
                },
            }),
        },
{
    match ensure_ok(&answer) {
        Err(e) => Err(e),
        Ok(()) => match answer.payload {
            None => Err(internal("get_session_tee_status response missing payload")),
            Some(p) => match p.stream {
                AnsweredStream::Unknown => Err(
                    internal("get_session_tee_status response has invalid stream"),
                ),
                AnsweredStream::Unspecified => Err(
                    internal("get_session_tee_status response has unspecified stream"),
                ),
                AnsweredStream::Known(stream) => Ok(
                    SessionTeeStatus {
                        stream,
                        missed_bytes: p.missed_bytes,
                        disconnected: p.disconnected,
                    },
                ),
            },
        },
    }
}

/// What is asked of the daemon about session tees.
#[derive(Debug, PartialEq, Eq)]
pub enum TeeCall {
    /// Tee a stream into a file.
    Register {
        /// Session to tee.
        session_id: String,
        /// Its kind.
        session_kind: SessionTeeKind,
        /// Stream to tee.
        stream: SessionTeeStream,
        /// Native bytes of the file's path.
        file_path: Vec<u8>,
        /// How the file is opened.
        file_mode: SessionTeeFileMode,
        /// Number of items that may wait; zero for the daemon's default.
        queue_capacity: u32,
        /// Whether missed bytes are left unmarked.
        suppress_missed_markers: bool,
        /// What a full tee does.
        backpressure: SessionTeeBackpressure,
    },
    /// End a tee.
    Unregister {
        /// Session of the tee.
        session_id: String,
        /// Its kind.
        session_kind: SessionTeeKind,
        /// The tee.
        tee_handle: u64,
    },
    /// Ask for the state of a tee.
    Status {
        /// Session of the tee.
        session_id: String,
        /// Its kind.
        session_kind: SessionTeeKind,
        /// The tee.
        tee_handle: u64,
    },
}

/// The call that registers a file tee.
pub fn register_session_file_tee(request: SessionTeeFileRequest) -> (c: TeeCall)
    ensures
        c == (TeeCall::Register {
            session_id: request.session_id,
            session_kind: request.session_kind,
            stream: request.stream,
            file_path: request.path,
            file_mode: request.mode,
            queue_capacity: request.queue_capacity,
            suppress_missed_markers: !request.write_missed_markers,
            backpressure: request.backpressure,
        }),
{
    TeeCall::Register {
        session_id: request.session_id,
        session_kind: request.session_kind,
        stream: request.stream,
        file_path: request.path,
        file_mode: request.mode,
        queue_capacity: request.queue_capacity,
        suppress_missed_markers: !request.write_missed_markers,
        backpressure: request.backpressure,
    }
}

/// The call that ends a tee.
pub fn unregister_session_tee(
    session_kind: SessionTeeKind,
    session_id: String,
    tee_handle: u64,
) -> (c: TeeCall)
    ensures
        c == (TeeCall::Unregister { session_id, session_kind, tee_handle }),
{
    TeeCall::Unregister { session_id, session_kind, tee_handle }
}

/// The call that asks for the state of a tee.
pub fn get_session_tee_status(
    session_kind: SessionTeeKind,
    session_id: String,
    tee_handle: u64,
) -> (c: TeeCall)
    ensures
        c == (TeeCall::Status { session_id, session_kind, tee_handle }),
{
    TeeCall::Status { session_id, session_kind, tee_handle }
}

/// A refusal is passed on with the daemon's own code and words; only an answer that is
/// done is no refusal, and a code that means nothing is an unknown request.
pub proof fn law_refusals_are_passed_on<T>(answer: Answer<T>, error: ServerError)
    requires
        refuses(answer, error),
    ensures
        answer.code != Some(StatusCode::Done),
        answer.code matches Some(code) ==> error.code == code,
        answer.code is None ==> error.code == StatusCode::UnknownRequest,
        error.code != StatusCode::Done,
        error.message@ == answer.message@,
{
}

/// An answer that is no answer is the daemon's fault, whatever it says of itself.
pub proof fn law_malformed_answers_are_internal(error: ServerError, text: Seq<char>)
    requires
        malformed(error, text),
    ensures
        error.code == StatusCode::Internal,
        error.message@ == text,
{
}

} // verus!
