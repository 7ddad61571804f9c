//! Codes of the daemon protocol.

use vstd::prelude::*;

verus! {

/// Outcome of a daemon request.
#[derive(Clone, Copy, Debug, PartialEq, Eq, Structural)]
pub enum StatusCode {
    /// It was done.
    Done,
    /// It is not known.
    UnknownRequest,
    /// It is malformed.
    InvalidArgument,
    /// It names nothing that exists.
    NotFound,
    /// It failed.
    Internal,
}

/// Type of a daemon request.
#[derive(Clone, Copy, Debug, PartialEq, Eq, Structural)]
pub enum RequestType {
    /// Track a process.
    Register,
    /// Stop tracking a process.
    Unregister,
    /// Spawn a detached command.
    SpawnDaemon,
    /// List the tracked processes.
    ListActive,
    /// List the tracked processes of an originator.
    ListByOriginator,
    /// Show a process tree.
    GetProcessTree,
    /// Kill orphaned processes.
    KillZombies,
    /// Kill a process tree.
    KillTree,
    /// Ask for a sign of life.
    Ping,
    /// Shut the daemon down.
    Shutdown,
    /// Ask for the state of the daemon.
    Status,
}

impl RequestType {
    /// Number of this type on the wire.
    pub open spec fn wire(self) -> int {
        match self {
            RequestType::Register => 10,
            RequestType::Unregister => 11,
            RequestType::SpawnDaemon => 12,
            RequestType::ListActive => 20,
            RequestType::ListByOriginator => 21,
            RequestType::GetProcessTree => 22,
            RequestType::KillZombies => 30,
            RequestType::KillTree => 31,
            RequestType::Ping => 40,
            RequestType::Shutdown => 41,
            RequestType::Status => 42,
        }
    }

    /// Number of this type on the wire.
    pub fn wire_value(self) -> (n: i32)
        ensures
            n == self.wire(),
    {
        match self {
            RequestType::Register => 10,
            RequestType::Unregister => 11,
            RequestType::SpawnDaemon => 12,
            RequestType::ListActive => 20,
            RequestType::ListByOriginator => 21,
            RequestType::GetProcessTree => 22,
            RequestType::KillZombies => 30,
            RequestType::KillTree => 31,
            RequestType::Ping => 40,
            RequestType::Shutdown => 41,
            RequestType::Status => 42,
        }
    }

    /// The type with a number on the wire.
    pub fn from_wire(n: i32) -> (r: Option<RequestType>)
        ensures
            match r {
                Some(t) => t.wire() == n,
                None => forall|t: RequestType| #[trigger] t.wire() != n,
            },
    {
        match n {
            10 => Some(RequestType::Register),
            11 => Some(RequestType::Unregister),
            12 => Some(RequestType::SpawnDaemon),
            20 => Some(RequestType::ListActive),
            21 => Some(RequestType::ListByOriginator),
            22 => Some(RequestType::GetProcessTree),
            30 => Some(RequestType::KillZombies),
            31 => Some(RequestType::KillTree),
            40 => Some(RequestType::Ping),
            41 => Some(RequestType::Shutdown),
            42 => Some(RequestType::Status),
            _ => None,
        }
    }
}

/// No two types share a number.
pub proof fn law_request_types_are_distinct(a: RequestType, b: RequestType)
    ensures
        a.wire() == b.wire() ==> a == b,
{
}

/// The numbers of the types on the wire: tracking from ten, lists from twenty, kills
/// from thirty, and the daemon itself from forty.
pub proof fn law_request_numbers()
    ensures
        RequestType::Register.wire() == 10,
        RequestType::Unregister.wire() == 11,
        RequestType::SpawnDaemon.wire() == 12,
        RequestType::ListActive.wire() == 20,
        RequestType::ListByOriginator.wire() == 21,
        RequestType::GetProcessTree.wire() == 22,
        RequestType::KillZombies.wire() == 30,
        RequestType::KillTree.wire() == 31,
        RequestType::Ping.wire() == 40,
        RequestType::Shutdown.wire() == 41,
        RequestType::Status.wire() == 42,
{
}

} // verus!
