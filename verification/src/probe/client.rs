//! Requests to the probe daemon, and how its replies are judged.

use crate::errors::IoFailure;
use crate::probe::worker::RegisterProcess;
use vstd::prelude::*;
use vstd::string::*;

verus! {

/// Number of bytes that a reply may have.
pub const MAX_REPLY_BYTES: usize = 65536;

/// Version of the wire.
pub const WIRE_VERSION: u32 = 1;

/// The state of a registration that is in force.
pub const ARMED: i32 = 2;

/// Why a request failed.
#[derive(Clone, Debug, PartialEq, Eq)]
pub enum ClientError {
    /// The daemon could not be reached.
    Unreachable(IoFailure),
    /// The wire failed.
    Wire(String),
    /// The daemon refused.
    Refused {
        /// Why, in the daemon's words.
        reason: String,
    },
    /// The daemon said something else than what was asked for.
    UnexpectedReply,
}

impl ClientError {
    /// Text of this error.
    pub open spec fn text(self) -> Seq<char> {
        match self {
            ClientError::Unreachable(failure) => "probe daemon unreachable: "@ + failure.text@,
            ClientError::Wire(detail) => "probe wire error: "@ + detail@,
            ClientError::Refused { reason } => "probe daemon refused the request: "@ + reason@,
            ClientError::UnexpectedReply => "unexpected reply from probe daemon"@,
        }
    }

    /// Text of this error.
    pub fn message(&self) -> (s: String)
        ensures
            s@ == self.text(),
    {
        match self {
            ClientError::Unreachable(failure) => {
                let mut s: String = "probe daemon unreachable: ".to_owned();
                s.append(failure.text.as_str());
                s
            },
            ClientError::Wire(detail) => {
                let mut s: String = "probe wire error: ".to_owned();
                s.append(detail.as_str());
                s
            },
            ClientError::Refused { reason } => {
                let mut s: String = "probe daemon refused the request: ".to_owned();
                s.append(reason.as_str());
                s
            },
            ClientError::UnexpectedReply => "unexpected reply from probe daemon".to_owned(),
        }
    }

    /// The failure of the operating system behind this error.
    pub fn source(&self) -> (r: Option<&IoFailure>)
        ensures
            match *self {
                ClientError::Unreachable(failure) => r is Some && *(r->0) == failure,
                _ => r is None,
            },
    {
        match self {
            ClientError::Unreachable(failure) => Some(failure),
            _ => None,
        }
    }
}

/// Identity of a process, across restarts of the host.
#[derive(Clone, Debug, PartialEq, Eq)]
pub struct ProcessKey {
    /// Its number.
    pub pid: u64,
    /// When it started, in milliseconds since the Unix epoch.
    pub start_time: Option<u64>,
    /// The boot in which it started.
    pub boot_id: Option<String>,
}

impl ProcessKey {
    /// Whether two keys say the same.
    pub open spec fn same(self, other: ProcessKey) -> bool {
        &&& self.pid == other.pid
        &&& self.start_time == other.start_time
        &&& match (self.boot_id, other.boot_id) {
            (Some(a), Some(b)) => a@ == b@,
            (None, None) => true,
            _ => false,
        }
    }

    /// A copy of this key.
    pub fn copied(&self) -> (k: ProcessKey)
        ensures
            k.same(*self),
    {
        ProcessKey {
            pid: self.pid,
            start_time: self.start_time,
            boot_id: match &self.boot_id {
                Some(text) => Some(text.as_str().to_owned()),
                None => None,
            },
        }
    }
}

/// What is asked of the daemon.
#[derive(Debug, PartialEq, Eq)]
pub enum Body {
    /// Enroll this process.
    Register(RegisterProcess),
    /// Refresh its liveness.
    Heartbeat(ProcessKey),
    /// Forget it.
    Unregister(ProcessKey),
}

/// A request.
#[derive(Debug, PartialEq, Eq)]
pub struct ProbeEnvelope {
    /// Version of the wire.
    pub wire_version: u32,
    /// Number of the request.
    pub request_id: u64,
    /// When it expires; zero for never.
    pub deadline_unix_ms: u64,
    /// What is asked.
    pub body: Body,
}

/// What a reply says, as far as it matters.
#[derive(Debug, PartialEq, Eq)]
pub enum Reply {
    /// The state of a registration.
    RegistrationStatus {
        /// Number of the state.
        state: i32,
        /// In words.
        detail: String,
    },
    /// Something else.
    Another,
}

/// A client's side of a connection to the daemon.
#[derive(Clone, Copy, Debug, PartialEq, Eq, Structural)]
pub struct ProbeSession {
    request_id: u64,
}

impl ProbeSession {
    /// Number of the last request.
    pub closed spec fn last_id(self) -> u64 {
        self.request_id
    }

    /// A connection without requests.
    pub fn new() -> (s: ProbeSession)
        ensures
            s.last_id() == 0,
    {
        ProbeSession { request_id: 0 }
    }

    /// The number of the next request; after the last number comes zero.
    pub fn next_request_id(&mut self) -> (id: u64)
        ensures
            id == (if old(self).last_id() == u64::MAX {
                0
            } else {
                old(self).last_id() + 1
            }),
            final(self).last_id() == id,
    {
        self.request_id = self.request_id.wrapping_add(1);
        self.request_id
    }

    /// The next request.
    pub fn request(&mut self, body: Body) -> (e: ProbeEnvelope)
        ensures
            e.wire_version == WIRE_VERSION,
            e.request_id == (if old(self).last_id() == u64::MAX {
                0
            } else {
                old(self).last_id() + 1
            }),
            final(self).last_id() == e.request_id,
            e.deadline_unix_ms == 0,
            e.body == body,
    {
        let request_id = self.next_request_id();
        ProbeEnvelope { wire_version: WIRE_VERSION, request_id, deadline_unix_ms: 0, body }
    }
}

/// The number of bytes that may be read of a reply, given the most that a frame may
/// have.
pub fn reply_cap(max_frame_bytes: usize) -> (n: usize)
    ensures
        n == (if max_frame_bytes < MAX_REPLY_BYTES {
            max_frame_bytes
        } else {
            MAX_REPLY_BYTES
        }),
{
    if max_frame_bytes < MAX_REPLY_BYTES {
        max_frame_bytes
    } else {
        MAX_REPLY_BYTES
    }
}

/// Judges the reply to a registration: the identity that the daemon armed is the
/// one that was asked for.
pub fn register(request: &RegisterProcess, reply: Result<Reply, ClientError>) -> (r: Result<
    ProcessKey,
    ClientError,
>)
    ensures
        judges(*request, reply, r),
        match reply {
            Err(error) => r == Err::<ProcessKey, ClientError>(error),
            Ok(Reply::RegistrationStatus { state, detail }) => if state == ARMED {
                match request.key {
                    Some(key) => r matches Ok(armed) && armed.same(key),
                    None => r == Err::<ProcessKey, ClientError>(ClientError::UnexpectedReply),
                }
            } else {
                r == Err::<ProcessKey, ClientError>(ClientError::Refused { reason: detail })
            },
            Ok(Reply::Another) => r == Err::<ProcessKey, ClientError>(ClientError::UnexpectedReply),
        },
{
    match reply {
        Err(error) => Err(error),
        Ok(reply) => match reply {
            Reply::RegistrationStatus { state, detail } => if state == ARMED {
                match &request.key {
                    Some(key) => Ok(key.copied()),
                    None => Err(ClientError::UnexpectedReply),
                }
            } else {
                Err(ClientError::Refused { reason: detail })
            },
            Reply::Another => Err(ClientError::UnexpectedReply),
        },
    }
}

/// Judges the reply to a heartbeat or a farewell: any reply will do.
pub fn acknowledge(reply: Result<Reply, ClientError>) -> (r: Result<(), ClientError>)
    ensures
        match reply {
            Ok(_) => r == Ok::<(), ClientError>(()),
            Err(error) => r == Err::<(), ClientError>(error),
        },
{
    match reply {
        Ok(_) => Ok(()),
        Err(error) => Err(error),
    }
}

/// Keys say the same exactly if they agree on the number, the start and the boot,
/// where what is not known agrees only with what is not known.
pub proof fn law_keys_agree_on_everything(a: ProcessKey, b: ProcessKey)
    ensures
        a.same(a),
        a.same(b) == b.same(a),
        a.same(b) ==> a.pid == b.pid && a.start_time == b.start_time,
        a.same(b) ==> (a.boot_id is Some <==> b.boot_id is Some),
        a.same(b) && a.boot_id is Some ==> (a.boot_id->0)@ == (b.boot_id->0)@,
        a.pid != b.pid ==> !a.same(b),
        a.start_time != b.start_time ==> !a.same(b),
        a.boot_id is Some && b.boot_id is Some && (a.boot_id->0)@ != (b.boot_id->0)@ ==> !a.same(b),
        a == b ==> a.same(b),
{
}

/// An error ends with its cause.
pub proof fn law_errors_end_with_their_cause(e: ClientError)
    ensures
        match e {
            ClientError::Unreachable(failure) => failure.text@.is_suffix_of(e.text()),
            ClientError::Wire(detail) => detail@.is_suffix_of(e.text()),
            ClientError::Refused { reason } => reason@.is_suffix_of(e.text()),
            ClientError::UnexpectedReply => true,
        },
{
}

/// The numbers that daemon and client agree on: version one of the wire, two for a
/// registration in force, and at most 64 KiB in a reply.
pub proof fn law_agreed_numbers()
    ensures
        WIRE_VERSION == 1,
        ARMED == 2,
        MAX_REPLY_BYTES == 65536,
{
}

/// Whether a result judges the reply to a registration.
pub open spec fn judges(
    request: RegisterProcess,
    reply: Result<Reply, ClientError>,
    r: Result<ProcessKey, ClientError>,
) -> bool {
    match (reply, r) {
        (Ok(Reply::RegistrationStatus { state, .. }), Ok(armed)) => state == ARMED && request.key
            is Some && armed.same(request.key->0),
        (Ok(Reply::RegistrationStatus { state, detail }), Err(e)) => if state != ARMED {
            e == (ClientError::Refused { reason: detail })
        } else {
            request.key is None && e is UnexpectedReply
        },
        (Ok(Reply::Another), Err(e)) => e is UnexpectedReply,
        (Err(error), Err(e)) => e == error,
        (_, Ok(_)) => false,
    }
}

/// A process is enrolled exactly if the daemon says that its registration is in force,
/// and then under the identity that it asked for. A refusal is passed on in the
/// daemon's words and a failure as it is, and no other reply enrolls.
pub proof fn law_only_armed_processes_are_enrolled(
    request: RegisterProcess,
    reply: Result<Reply, ClientError>,
    r: Result<ProcessKey, ClientError>,
)
    requires
        judges(request, reply, r),
    ensures
        r is Ok <==> request.key is Some && (reply matches Ok(Reply::RegistrationStatus { state, .. })
            && state == 2),
        r matches Ok(armed) ==> armed.pid == (request.key->0).pid && armed.start_time == (
        request.key->0).start_time,
        reply matches Err(error) ==> r == Err::<ProcessKey, ClientError>(error),
        reply matches Ok(Reply::Another) ==> r == Err::<ProcessKey, ClientError>(
            ClientError::UnexpectedReply,
        ),
        reply matches Ok(Reply::RegistrationStatus { state, detail }) ==> (state != 2 ==> (r
            matches Err(ClientError::Refused { reason }) && reason@ == detail@)),
{
}

} // verus!
