//! Accept loops of the daemon's endpoints: connections come and go, and only a
//! listener that fails ends the loop.

use crate::errors::IoFailure;
use vstd::prelude::*;
use vstd::string::*;

verus! {

/// What happened at an endpoint.
#[derive(Debug, PartialEq, Eq)]
pub enum EndpointEvent {
    /// A connection was accepted.
    Accepted,
    /// The listener failed.
    AcceptFailed(IoFailure),
    /// The process group of a connection was made.
    GroupMade,
    /// The process group of a connection could not be made.
    GroupFailed(IoFailure),
    /// A connection ended.
    Ended(Result<(), IoFailure>),
}

/// What an endpoint does.
#[derive(Debug, PartialEq, Eq)]
pub enum EndpointAction {
    /// Begin a task for the connection and accept the next one.
    Begin,
    /// Serve the connection in its group.
    Serve,
    /// Drop the connection without a word.
    Drop,
    /// Drop the connection and write this line.
    Report(String),
    /// Return this failure.
    Finish(IoFailure),
}

/// What a session endpoint does: nothing that happens to a connection is reported.
pub fn serve_session_endpoint(event: EndpointEvent) -> (a: EndpointAction)
    ensures
        endpoint_answers(false, event, a),
        match event {
            EndpointEvent::Accepted => a == EndpointAction::Begin,
            EndpointEvent::AcceptFailed(failure) => a == EndpointAction::Finish(failure),
            EndpointEvent::GroupMade => a == EndpointAction::Serve,
            EndpointEvent::GroupFailed(_) | EndpointEvent::Ended(_) => a == EndpointAction::Drop,
        },
{
    match event {
        EndpointEvent::Accepted => EndpointAction::Begin,
        EndpointEvent::AcceptFailed(failure) => EndpointAction::Finish(failure),
        EndpointEvent::GroupMade => EndpointAction::Serve,
        EndpointEvent::GroupFailed(_) | EndpointEvent::Ended(_) => EndpointAction::Drop,
    }
}

/// The line about a backend connection that failed.
pub open spec fn report_text(failure: IoFailure) -> Seq<char> {
    "running-process-daemon: backend connection ended: "@ + failure.text@
}

fn report(failure: &IoFailure) -> (s: String)
    ensures
        s@ == report_text(*failure),
{
    let mut s: String = "running-process-daemon: backend connection ended: ".to_owned();
    s.append(failure.text.as_str());
    s
}

/// What a backend endpoint does: a connection that failed is reported, and is all
/// that fails.
pub fn serve_backend_endpoint(event: EndpointEvent) -> (a: EndpointAction)
    ensures
        endpoint_answers(true, event, a),
        match event {
            EndpointEvent::Accepted => a == EndpointAction::Begin,
            EndpointEvent::AcceptFailed(failure) => a == EndpointAction::Finish(failure),
            EndpointEvent::GroupMade => a == EndpointAction::Serve,
            EndpointEvent::GroupFailed(failure) | EndpointEvent::Ended(Err(failure)) => a
                matches EndpointAction::Report(line) && line@ == report_text(failure),
            EndpointEvent::Ended(Ok(())) => a == EndpointAction::Drop,
        },
{
    match event {
        EndpointEvent::Accepted => EndpointAction::Begin,
        EndpointEvent::AcceptFailed(failure) => EndpointAction::Finish(failure),
        EndpointEvent::GroupMade => EndpointAction::Serve,
        EndpointEvent::GroupFailed(failure) => EndpointAction::Report(report(&failure)),
        EndpointEvent::Ended(result) => match result {
            Ok(()) => EndpointAction::Drop,
            Err(failure) => EndpointAction::Report(report(&failure)),
        },
    }
}

/// The line about a connection that failed ends with the failure.
pub proof fn law_reports_end_with_the_failure(failure: IoFailure)
    ensures
        failure.text@.is_suffix_of(report_text(failure)),
        "running-process-daemon: backend connection ended: "@.is_prefix_of(report_text(failure)),
        report_text(failure).len() == "running-process-daemon: backend connection ended: "@.len()
            + failure.text@.len(),
{
}

/// Whether an action answers an event at an endpoint that reports failed connections,
/// or at one that does not.
pub open spec fn endpoint_answers(
    reports: bool,
    event: EndpointEvent,
    action: EndpointAction,
) -> bool {
    match event {
        EndpointEvent::Accepted => action is Begin,
        EndpointEvent::GroupMade => action is Serve,
        EndpointEvent::AcceptFailed(failure) => action == EndpointAction::Finish(failure),
        EndpointEvent::Ended(Ok(())) => action is Drop,
        EndpointEvent::GroupFailed(failure) | EndpointEvent::Ended(Err(failure)) => if reports {
            action matches EndpointAction::Report(line) && line@ == report_text(failure)
        } else {
            action is Drop
        },
    }
}

/// An endpoint ends exactly when its listener fails, and with that failure: whatever
/// happens to a connection, the next one is accepted. Every connection is begun and,
/// once it has a group, served; a failure is reported only where failures are.
pub proof fn law_connections_do_not_end_the_endpoint(
    reports: bool,
    event: EndpointEvent,
    action: EndpointAction,
)
    requires
        endpoint_answers(reports, event, action),
    ensures
        action is Finish <==> event is AcceptFailed,
        event matches EndpointEvent::AcceptFailed(failure) ==> action == EndpointAction::Finish(
            failure,
        ),
        action is Begin <==> event is Accepted,
        action is Serve <==> event is GroupMade,
        action is Report ==> reports && (event is GroupFailed || event is Ended),
        reports && event is GroupFailed ==> action is Report,
        event matches EndpointEvent::Ended(Ok(())) ==> action is Drop,
        !reports && (event is GroupFailed || event is Ended) ==> action is Drop,
{
}

} // verus!
