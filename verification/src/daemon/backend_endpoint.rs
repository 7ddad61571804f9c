//! One connection to the daemon's backend endpoint: identity probes are answered
//! in place, and the first session frame hands the connection over with every byte
//! that was read and not used up.

use crate::errors::{ErrorKind, IoFailure};
use vstd::prelude::*;
use vstd::string::*;

verus! {

/// `bytes::BytesMut`, a growable byte buffer that is consumed from its front.
#[verifier::external_type_specification]
#[verifier::external_body]
pub struct ExBytesMut(bytes::BytesMut);

/// The bytes in a buffer, in order.
pub uninterp spec fn buffered(buffer: bytes::BytesMut) -> Seq<u8>;

/// `bytes::BytesMut::new`: the new buffer holds nothing.
#[verifier::external_body]
fn empty_buffer() -> (buffer: bytes::BytesMut)
    ensures
        buffered(buffer) == Seq::<u8>::empty(),
{
    bytes::BytesMut::new()
}

/// `bytes::BytesMut::extend_from_slice`: the given bytes stand behind those that
/// the buffer held.
#[verifier::external_body]
fn extend_buffer(buffer: &mut bytes::BytesMut, extra: &[u8])
    requires
        buffered(*old(buffer)).len() + extra@.len() <= isize::MAX,
    ensures
        buffered(*final(buffer)) == buffered(*old(buffer)) + extra@,
{
    buffer.extend_from_slice(extra)
}

/// `bytes::Buf::advance` of `bytes::BytesMut`: the given number of bytes leaves
/// the front of the buffer. It panics where the buffer holds fewer.
#[verifier::external_body]
fn advance_buffer(buffer: &mut bytes::BytesMut, count: usize)
    requires
        count <= buffered(*old(buffer)).len(),
    ensures
        buffered(*final(buffer)) == buffered(*old(buffer)).skip(count as int),
{
    bytes::Buf::advance(buffer, count)
}

/// `bytes::BytesMut::len`: the number of bytes in the buffer.
#[verifier::external_body]
fn buffer_len(buffer: &bytes::BytesMut) -> (n: usize)
    ensures
        n == buffered(*buffer).len(),
{
    buffer.len()
}

/// `bytes::BytesMut::to_vec`, through its view as a slice: the bytes in the buffer.
#[verifier::external_body]
fn buffer_bytes(buffer: &bytes::BytesMut) -> (v: Vec<u8>)
    ensures
        v@ == buffered(*buffer),
{
    buffer.to_vec()
}

/// What the multiplexer made of the bytes that were read.
#[derive(Debug, PartialEq, Eq)]
pub enum Verdict {
    /// They are not a frame yet.
    NeedMoreBytes,
    /// They are of a wire that this endpoint does not speak.
    Legacy,
    /// They begin with an identity probe.
    ProbeAnswered {
        /// The answer.
        reply: Vec<u8>,
        /// Number of bytes of the probe.
        consumed: usize,
    },
    /// They begin with a session frame.
    Payload,
    /// They are malformed.
    Failed(String),
}

/// What happened to a connection.
#[derive(Debug, PartialEq, Eq)]
pub enum BackendEvent {
    /// The multiplexer judged.
    Judged(Verdict),
    /// Bytes were read; none means that the peer hung up.
    Read(Vec<u8>),
    /// The reply was written.
    Replied,
    /// Reading, writing or making the group failed.
    Failed(IoFailure),
    /// The process group of the session was made.
    GroupMade,
    /// The session ended.
    SessionEnded(Result<(), IoFailure>),
}

/// What a connection does next.
#[derive(Debug, PartialEq, Eq)]
pub enum BackendAction {
    /// Let the multiplexer judge the bytes that were read.
    Judge,
    /// Read more bytes.
    Read,
    /// Write this and flush.
    Reply(Vec<u8>),
    /// Make a process group.
    MakeGroup,
    /// Hand the connection to a session that begins with these bytes.
    TakeOver(Vec<u8>),
    /// Return this.
    Finish(Result<(), IoFailure>),
    /// Nothing: the event does not belong here.
    Ignore,
}

/// What a connection waits for.
#[derive(Clone, Copy, Debug, PartialEq, Eq, Structural)]
pub enum BackendStage {
    /// A verdict.
    Judging,
    /// More bytes.
    Reading,
    /// The end of a reply to a probe of this length.
    Replying(usize),
    /// A process group.
    Grouping,
    /// The end of the session.
    Serving,
    /// Nothing.
    Over,
}

/// A connection to the backend endpoint.
pub struct BackendConnection {
    stage: BackendStage,
    buffer: bytes::BytesMut,
}

/// A connection as plain values.
#[verifier::ext_equal]
pub struct BackendModel {
    /// What it waits for.
    pub stage: BackendStage,
    /// Bytes that were read and not used up.
    pub pending: Seq<u8>,
}

impl View for BackendConnection {
    type V = BackendModel;

    closed spec fn view(&self) -> BackendModel {
        BackendModel { stage: self.stage, pending: buffered(self.buffer) }
    }
}

/// Whether an event can happen to a connection: a probe is not longer than what
/// was read, and what was read fits.
pub open spec fn possible(m: BackendModel, event: BackendEvent) -> bool {
    match event {
        BackendEvent::Judged(Verdict::ProbeAnswered { consumed, .. }) => consumed <= m.pending.len(),
        BackendEvent::Read(bytes) => m.pending.len() + bytes@.len() <= isize::MAX,
        _ => true,
    }
}

/// A connection after an event.
pub open spec fn backend_after(m: BackendModel, event: BackendEvent) -> BackendModel {
    match (m.stage, event) {
        (BackendStage::Judging, BackendEvent::Judged(verdict)) => BackendModel {
            stage: match verdict {
                Verdict::NeedMoreBytes => BackendStage::Reading,
                Verdict::Legacy | Verdict::Failed(_) => BackendStage::Over,
                Verdict::ProbeAnswered { consumed, .. } => BackendStage::Replying(consumed),
                Verdict::Payload => BackendStage::Grouping,
            },
            ..m
        },
        (BackendStage::Reading, BackendEvent::Read(bytes)) => BackendModel {
            stage: if bytes@.len() == 0 {
                BackendStage::Over
            } else {
                BackendStage::Judging
            },
            pending: m.pending + bytes@,
        },
        (BackendStage::Replying(consumed), BackendEvent::Replied) => BackendModel {
            stage: BackendStage::Judging,
            pending: m.pending.skip(consumed as int),
        },
        (BackendStage::Grouping, BackendEvent::GroupMade) => BackendModel {
            stage: BackendStage::Serving,
            ..m
        },
        (BackendStage::Reading, BackendEvent::Failed(_)) | (
            BackendStage::Replying(_),
            BackendEvent::Failed(_),
        ) | (BackendStage::Grouping, BackendEvent::Failed(_)) | (
            BackendStage::Serving,
            BackendEvent::SessionEnded(_),
        ) => BackendModel { stage: BackendStage::Over, ..m },
        _ => m,
    }
}

/// Whether an action answers an event.
pub open spec fn backend_answers(
    m: BackendModel,
    event: BackendEvent,
    action: BackendAction,
) -> bool {
    match (m.stage, event) {
        (BackendStage::Judging, BackendEvent::Judged(verdict)) => match verdict {
            Verdict::NeedMoreBytes => action is Read,
            Verdict::Legacy => {
                &&& action is Finish
                &&& action->Finish_0 is Err
                &&& failed_with(
                    action->Finish_0->Err_0,
                    ErrorKind::Other,
                    "unexpected legacy-wire bytes on the SESSION backend endpoint"@,
                )
            },
            Verdict::Failed(detail) => {
                &&& action is Finish
                &&& action->Finish_0 is Err
                &&& failed_with(action->Finish_0->Err_0, ErrorKind::InvalidData, detail@)
            },
            Verdict::ProbeAnswered { reply, .. } => action == BackendAction::Reply(reply),
            Verdict::Payload => action is MakeGroup,
        },
        (BackendStage::Reading, BackendEvent::Read(bytes)) => if bytes@.len() == 0 {
            action == BackendAction::Finish(Ok(()))
        } else {
            action is Judge
        },
        (BackendStage::Replying(_), BackendEvent::Replied) => action is Judge,
        (BackendStage::Grouping, BackendEvent::GroupMade) => action matches BackendAction::TakeOver(
            bytes,
        ) && bytes@ == m.pending,
        (BackendStage::Reading, BackendEvent::Failed(failure)) | (
            BackendStage::Replying(_),
            BackendEvent::Failed(failure),
        ) | (BackendStage::Grouping, BackendEvent::Failed(failure)) => action
            == BackendAction::Finish(Err(failure)),
        (BackendStage::Serving, BackendEvent::SessionEnded(result)) => action
            == BackendAction::Finish(result),
        _ => action is Ignore,
    }
}

/// A failure without a number.
pub open spec fn failed_with(failure: IoFailure, kind: ErrorKind, text: Seq<char>) -> bool {
    failure.kind == kind && failure.raw_os_error is None && failure.text@ == text
}

impl BackendConnection {
    /// Whether the probe that is being answered was read.
    pub closed spec fn wf(&self) -> bool {
        sound_backend(self@)
    }

    /// What the connection waits for.
    pub fn stage(&self) -> (s: BackendStage)
        ensures
            s == self@.stage,
    {
        self.stage
    }

    /// Number of bytes that were read and not used up.
    pub fn pending_len(&self) -> (n: usize)
        ensures
            n == self@.pending.len(),
    {
        buffer_len(&self.buffer)
    }

    /// The bytes that were read and not used up: what the multiplexer judges.
    pub fn pending(&self) -> (v: Vec<u8>)
        ensures
            v@ == self@.pending,
    {
        buffer_bytes(&self.buffer)
    }

    /// Takes the connection one step further.
    pub fn step(&mut self, event: BackendEvent) -> (action: BackendAction)
        requires
            old(self).wf(),
            possible(old(self)@, event),
        ensures
            final(self).wf(),
            final(self)@ == backend_after(old(self)@, event),
            backend_answers(old(self)@, event, action),
    {
        match (self.stage, event) {
            (BackendStage::Judging, BackendEvent::Judged(verdict)) => match verdict {
                Verdict::NeedMoreBytes => {
                    self.stage = BackendStage::Reading;
                    BackendAction::Read
                },
                Verdict::Legacy => {
                    self.stage = BackendStage::Over;
                    BackendAction::Finish(
                        Err(
                            IoFailure {
                                kind: ErrorKind::Other,
                                raw_os_error: None,
                                text: "unexpected legacy-wire bytes on the SESSION backend endpoint".to_owned(),
                            },
                        ),
                    )
                },
                Verdict::Failed(detail) => {
                    self.stage = BackendStage::Over;
                    BackendAction::Finish(
                        Err(
                            IoFailure {
                                kind: ErrorKind::InvalidData,
                                raw_os_error: None,
                                text: detail,
                            },
                        ),
                    )
                },
                Verdict::ProbeAnswered { reply, consumed } => {
                    self.stage = BackendStage::Replying(consumed);
                    BackendAction::Reply(reply)
                },
                Verdict::Payload => {
                    self.stage = BackendStage::Grouping;
                    BackendAction::MakeGroup
                },
            },
            (BackendStage::Reading, BackendEvent::Read(bytes)) => {
                extend_buffer(&mut self.buffer, bytes.as_slice());
                if bytes.len() == 0 {
                    self.stage = BackendStage::Over;
                    BackendAction::Finish(Ok(()))
                } else {
                    self.stage = BackendStage::Judging;
                    BackendAction::Judge
                }
            },
            (BackendStage::Replying(consumed), BackendEvent::Replied) => {
                advance_buffer(&mut self.buffer, consumed);
                self.stage = BackendStage::Judging;
                BackendAction::Judge
            },
            (BackendStage::Grouping, BackendEvent::GroupMade) => {
                self.stage = BackendStage::Serving;
                BackendAction::TakeOver(buffer_bytes(&self.buffer))
            },
            (BackendStage::Reading, BackendEvent::Failed(failure)) | (
                BackendStage::Replying(_),
                BackendEvent::Failed(failure),
            ) | (BackendStage::Grouping, BackendEvent::Failed(failure)) => {
                self.stage = BackendStage::Over;
                BackendAction::Finish(Err(failure))
            },
            (BackendStage::Serving, BackendEvent::SessionEnded(result)) => {
                self.stage = BackendStage::Over;
                BackendAction::Finish(result)
            },
            _ => BackendAction::Ignore,
        }
    }
}

/// A new connection: the multiplexer judges first.
pub fn serve_backend_connection() -> (c: BackendConnection)
    ensures
        c.wf(),
        c@ == (BackendModel { stage: BackendStage::Judging, pending: Seq::empty() }),
{
    BackendConnection { stage: BackendStage::Judging, buffer: empty_buffer() }
}

/// Whether a connection could be in a state: the probe that is being answered was
/// read.
pub open spec fn sound_backend(m: BackendModel) -> bool {
    m.stage matches BackendStage::Replying(consumed) ==> consumed <= m.pending.len()
}

/// What an event adds to the bytes that were read.
pub open spec fn read_by(m: BackendModel, event: BackendEvent) -> Seq<u8> {
    match (m.stage, event) {
        (BackendStage::Reading, BackendEvent::Read(bytes)) => bytes@,
        _ => Seq::empty(),
    }
}

/// What an event uses up of the bytes that were read.
pub open spec fn used_by(m: BackendModel, event: BackendEvent) -> Seq<u8> {
    match (m.stage, event) {
        (BackendStage::Replying(consumed), BackendEvent::Replied) => m.pending.take(
            consumed as int,
        ),
        _ => Seq::empty(),
    }
}

/// No byte is lost, repeated or reordered: what was used up by answered probes,
/// then what is pending, is what was read. So a session begins with exactly the
/// bytes that came after the last probe.
pub proof fn law_every_byte_is_kept(
    used: Seq<u8>,
    read: Seq<u8>,
    m: BackendModel,
    event: BackendEvent,
)
    requires
        sound_backend(m),
        used + m.pending == read,
    ensures
        (used + used_by(m, event)) + backend_after(m, event).pending == read + read_by(m, event),
{
    match (m.stage, event) {
        (BackendStage::Reading, BackendEvent::Read(bytes)) => {
            assert((used + Seq::<u8>::empty()) + (m.pending + bytes@) =~= used + m.pending + bytes@);
        },
        (BackendStage::Replying(consumed), BackendEvent::Replied) => {
            assert(m.pending.take(consumed as int) + m.pending.skip(consumed as int) =~= m.pending);
            assert((used + m.pending.take(consumed as int)) + m.pending.skip(consumed as int)
                =~= used + (m.pending.take(consumed as int) + m.pending.skip(consumed as int)));
            assert(read + Seq::<u8>::empty() =~= read);
        },
        _ => {
            assert(used + Seq::<u8>::empty() =~= used);
            assert(read + Seq::<u8>::empty() =~= read);
        },
    }
}

/// A connection follows the multiplexer: it reads more where more is needed, answers a
/// probe with the reply and goes on behind it, hands the connection over at a session
/// frame, and ends where the bytes are of another wire or malformed.
pub proof fn law_verdicts_are_followed(
    pending: Seq<u8>,
    verdict: Verdict,
    action: BackendAction,
    after_reply: BackendAction,
    taken_over: BackendAction,
)
    requires
        ({
            let m = BackendModel { stage: BackendStage::Judging, pending };
            let next = backend_after(m, BackendEvent::Judged(verdict));
            &&& backend_answers(m, BackendEvent::Judged(verdict), action)
            &&& backend_answers(next, BackendEvent::Replied, after_reply)
            &&& backend_answers(next, BackendEvent::GroupMade, taken_over)
        }),
    ensures
        ({
            let m = BackendModel { stage: BackendStage::Judging, pending };
            let next = backend_after(m, BackendEvent::Judged(verdict));
            &&& next.pending == pending
            &&& match verdict {
                Verdict::NeedMoreBytes => action is Read && next.stage is Reading,
                Verdict::Legacy => action matches BackendAction::Finish(Err(_)) && next.stage
                    is Over,
                Verdict::Failed(detail) => action matches BackendAction::Finish(Err(failure))
                    && failure.text@ == detail@ && next.stage is Over,
                Verdict::ProbeAnswered { reply, consumed } => {
                    &&& action == BackendAction::Reply(reply)
                    &&& after_reply is Judge
                    &&& backend_after(next, BackendEvent::Replied) == (BackendModel {
                        stage: BackendStage::Judging,
                        pending: pending.skip(consumed as int),
                    })
                },
                Verdict::Payload => {
                    &&& action is MakeGroup
                    &&& taken_over matches BackendAction::TakeOver(bytes) && bytes@ == pending
                    &&& backend_after(next, BackendEvent::GroupMade).stage is Serving
                },
            }
        }),
{
}

/// Bytes that were read are judged together with those before them; a peer that hung up
/// ends the connection without an error. A failure ends it as it is, and so does the end
/// of the session. Nothing else ends it.
pub proof fn law_connections_end(m: BackendModel, event: BackendEvent, action: BackendAction)
    requires
        backend_answers(m, event, action),
        !(m.stage is Over),
    ensures
        m.stage is Reading ==> match event {
            BackendEvent::Read(bytes) => if bytes@.len() == 0 {
                action == BackendAction::Finish(Ok(()))
            } else {
                action is Judge && backend_after(m, event) == (BackendModel {
                    stage: BackendStage::Judging,
                    pending: m.pending + bytes@,
                })
            },
            BackendEvent::Failed(failure) => action == BackendAction::Finish(Err(failure)),
            _ => action is Ignore,
        },
        m.stage is Serving ==> match event {
            BackendEvent::SessionEnded(result) => action == BackendAction::Finish(result),
            _ => action is Ignore,
        },
        m.stage is Grouping || m.stage is Replying ==> (event matches BackendEvent::Failed(failure)
            ==> action == BackendAction::Finish(Err(failure))),
        action is Finish <==> backend_after(m, event).stage is Over,
        action is Ignore ==> backend_after(m, event) == m,
{
}

/// A failure that the endpoint finds itself has its class and its words, and no number
/// of the host.
pub proof fn law_found_failures_have_no_number(failure: IoFailure, kind: ErrorKind, text: Seq<char>)
    requires
        failed_with(failure, kind, text),
    ensures
        failure.kind == kind,
        failure.raw_os_error is None,
        failure.text@ == text,
{
}

} // verus!
