//! Ending the output of a session: a request that stays, and a completion that is
//! acknowledged on its own.

use crate::errors::IoFailure;
use crate::types::ProcessError;
use vstd::prelude::*;

verus! {

/// What someone who waits for the pumps sees.
#[derive(Debug)]
pub enum ShutdownWait {
    /// They ended, or failed, or will never say.
    Ended(Result<(), ProcessError>),
    /// Nothing yet.
    Pending,
}

/// A request to end the output of a session, and whether it was done.
#[derive(Debug)]
pub struct SessionOutputShutdown {
    requested: bool,
    completion: Option<Result<(), IoFailure>>,
    producer_gone: bool,
}

/// A shutdown as plain values.
pub struct ShutdownModel {
    /// Whether it was requested.
    pub requested: bool,
    /// How the pumps ended, if they did.
    pub completion: Option<Result<(), IoFailure>>,
    /// Whether nobody is left to say so.
    pub producer_gone: bool,
}

impl View for SessionOutputShutdown {
    type V = ShutdownModel;

    closed spec fn view(&self) -> ShutdownModel {
        ShutdownModel {
            requested: self.requested,
            completion: self.completion,
            producer_gone: self.producer_gone,
        }
    }
}

/// What someone who waits sees of a shutdown: how the pumps ended, even when
/// nobody is left; and only otherwise that nobody is left.
pub open spec fn outcome(m: ShutdownModel) -> Option<Result<(), ProcessError>> {
    match m.completion {
        Some(Ok(())) => Some(Ok(())),
        Some(Err(failure)) => Some(Err(ProcessError::Io(failure))),
        None => if m.producer_gone {
            Some(Err(ProcessError::NotRunning))
        } else {
            None
        },
    }
}

impl SessionOutputShutdown {
    /// A shutdown that nobody requested.
    pub fn new() -> (s: SessionOutputShutdown)
        ensures
            s@ == (ShutdownModel { requested: false, completion: None, producer_gone: false }),
    {
        SessionOutputShutdown { requested: false, completion: None, producer_gone: false }
    }

    /// Requests the shutdown; the request stays.
    pub fn request(&mut self)
        ensures
            final(self)@ == (ShutdownModel { requested: true, ..old(self)@ }),
    {
        self.requested = true;
    }

    /// Whether the shutdown was requested.
    pub fn requested(&self) -> (b: bool)
        ensures
            b == self@.requested,
    {
        self.requested
    }

    /// Records how the pumps ended.
    pub fn complete(&mut self, result: Result<(), IoFailure>)
        ensures
            final(self)@ == (ShutdownModel { completion: Some(result), ..old(self)@ }),
    {
        self.completion = Some(result);
    }

    /// Records that nobody is left who could say how the pumps ended.
    pub fn drop_producer(&mut self)
        ensures
            final(self)@ == (ShutdownModel { producer_gone: true, ..old(self)@ }),
    {
        self.producer_gone = true;
    }

    /// What someone who waits sees.
    pub fn wait(&self) -> (w: ShutdownWait)
        ensures
            match w {
                ShutdownWait::Ended(result) => outcome(self@) == Some(result),
                ShutdownWait::Pending => outcome(self@) is None,
            },
    {
        match &self.completion {
            Some(result) => match result {
                Ok(()) => ShutdownWait::Ended(Ok(())),
                Err(failure) => ShutdownWait::Ended(Err(ProcessError::Io(failure.copied()))),
            },
            None => if self.producer_gone {
                ShutdownWait::Ended(Err(ProcessError::NotRunning))
            } else {
                ShutdownWait::Pending
            },
        }
    }
}

/// An acknowledged completion is seen by everyone who waits, also by those who come
/// after the producer has gone, and a failure is seen as it was reported; a request
/// alone ends no wait.
pub proof fn law_completion_outlives_its_producer(m: ShutdownModel, failure: IoFailure)
    ensures
        outcome(ShutdownModel { producer_gone: true, completion: Some(Ok(())), ..m }) == Some(
            Ok::<(), ProcessError>(()),
        ),
        outcome(ShutdownModel { producer_gone: true, completion: Some(Err(failure)), ..m }) == Some(
            Err::<(), ProcessError>(ProcessError::Io(failure)),
        ),
        outcome(ShutdownModel { requested: true, ..m }) == outcome(m),
{
}

/// A wait for the pumps lasts until they ended or nobody is left who could say so. What
/// they reported comes first; without a report, that nobody is left means that nothing
/// runs.
pub proof fn law_waits_for_pumps_end(m: ShutdownModel)
    ensures
        outcome(m) is None <==> m.completion is None && !m.producer_gone,
        m.completion is None && m.producer_gone ==> outcome(m) == Some(
            Err::<(), ProcessError>(ProcessError::NotRunning),
        ),
        m.completion == Some(Ok::<(), IoFailure>(())) ==> outcome(m) == Some(
            Ok::<(), ProcessError>(()),
        ),
        m.completion matches Some(Err(failure)) ==> outcome(m) == Some(
            Err::<(), ProcessError>(ProcessError::Io(failure)),
        ),
{
}

} // verus!
