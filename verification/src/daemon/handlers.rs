//! Request handlers of the daemon: what a request asks for, and how its outcome
//! is answered.

use crate::daemon::handlers::services::ServiceState;
use crate::daemon::protocol::StatusCode;
use vstd::prelude::*;
use vstd::string::*;

pub mod services;
pub mod spawn;

verus! {

/// What a response carries.
#[derive(Debug, PartialEq, Eq)]
pub enum Payload {
    /// The service that was started.
    ServiceStart(ServiceState),
    /// Number of services that were stopped.
    ServiceStop {
        /// The number.
        stopped_count: u32,
    },
    /// Number of services that were restarted.
    ServiceRestart {
        /// The number.
        restarted_count: u32,
    },
    /// Number of services that were deleted.
    ServiceDelete {
        /// The number.
        deleted_count: u32,
    },
    /// All services.
    ServiceList(Vec<ServiceState>),
    /// One service.
    ServiceDescribe(ServiceState),
    /// No log lines.
    ServiceLogs,
    /// Nothing flushed.
    ServiceFlush,
    /// Nothing saved.
    ServiceSave,
    /// Nothing resurrected.
    ServiceResurrect,
    /// The detached command that was spawned.
    SpawnDaemon(spawn::SpawnedCommand),
}

/// Answer to a request.
#[derive(Debug, PartialEq, Eq)]
pub struct DaemonResponse {
    /// Number of the request.
    pub request_id: u64,
    /// How it went.
    pub code: StatusCode,
    /// Why it went wrong.
    pub message: String,
    /// What was asked for.
    pub payload: Option<Payload>,
}

impl DaemonResponse {
    /// Whether this answers a request with a payload.
    pub open spec fn grants(self, request_id: u64, payload: Payload) -> bool {
        &&& self.request_id == request_id
        &&& self.code == StatusCode::Done
        &&& self.message@.len() == 0
        &&& self.payload == Some(payload)
    }

    /// Whether this refuses a request.
    pub open spec fn refuses(self, request_id: u64, code: StatusCode, message: Seq<char>) -> bool {
        &&& self.request_id == request_id
        &&& self.code == code
        &&& self.message@ == message
        &&& self.payload is None
    }
}

/// The answer with a payload.
pub fn ok_response(request_id: u64, payload: Payload) -> (r: DaemonResponse)
    ensures
        r.grants(request_id, payload),
{
    DaemonResponse {
        request_id,
        code: StatusCode::Done,
        message: String::new(),
        payload: Some(payload),
    }
}

/// The answer that refuses.
pub fn error_response(request_id: u64, code: StatusCode, message: String) -> (r: DaemonResponse)
    ensures
        r.refuses(request_id, code, message@),
{
    DaemonResponse { request_id, code, message, payload: None }
}

/// An answer carries the number of its request. It either grants, with what was asked
/// for and no complaint, or refuses, with a complaint and nothing else. None does
/// both.
pub proof fn law_answers_grant_or_refuse(
    response: DaemonResponse,
    request_id: u64,
    payload: Payload,
    code: StatusCode,
    message: Seq<char>,
)
    ensures
        response.grants(request_id, payload) ==> {
            &&& response.request_id == request_id
            &&& response.code == StatusCode::Done
            &&& response.message@.len() == 0
            &&& response.payload == Some(payload)
        },
        response.refuses(request_id, code, message) ==> {
            &&& response.request_id == request_id
            &&& response.code == code
            &&& response.message@ == message
            &&& response.payload is None
        },
        !(response.grants(request_id, payload) && response.refuses(request_id, code, message)),
{
}

} // verus!
