//! Captured output of a child: line queues that readers empty, histories that
//! stay, and the raw bytes, with an optional limit on the latter.

use crate::types::{StderrMode, StreamEvent, StreamKind};
use crate::wire::{append_bytes, copy_bytes};
use std::collections::VecDeque;
use vstd::prelude::*;
use vstd::slice::slice_subrange;

verus! {

/// A captured line and the stream that shows it.
#[verifier::ext_equal]
pub struct LineModel {
    /// Stream that shows the line.
    pub stream: StreamKind,
    /// Bytes of the line.
    pub line: Seq<u8>,
}

/// The line that an event holds.
pub open spec fn line_model(event: StreamEvent) -> LineModel {
    LineModel { stream: event.stream, line: event.line@ }
}

/// What one stream holds.
#[verifier::ext_equal]
pub struct LaneModel {
    /// Lines that were not read yet.
    pub queue: Seq<Seq<u8>>,
    /// Lines that were captured.
    pub history: Seq<Seq<u8>>,
    /// Bytes that were captured.
    pub raw: Seq<u8>,
}

/// What a [`CaptureState`] holds.
#[verifier::ext_equal]
pub struct CaptureModel {
    /// Lines shown as standard output.
    pub stdout: LaneModel,
    /// Lines shown as standard error.
    pub stderr: LaneModel,
    /// Lines of both that were not read yet, in order.
    pub combined_queue: Seq<LineModel>,
    /// Lines of both that were captured, in order.
    pub combined_history: Seq<LineModel>,
    /// Whether the standard-output pipe is done.
    pub stdout_closed: bool,
    /// Whether the standard-error pipe is done.
    pub stderr_closed: bool,
    /// Most raw bytes of both streams.
    pub limit: Option<nat>,
    /// Whether bytes were dropped for the limit.
    pub overflowed: bool,
}

impl CaptureModel {
    /// A stream.
    pub open spec fn lane(self, stream: StreamKind) -> LaneModel {
        match stream {
            StreamKind::Stdout => self.stdout,
            StreamKind::Stderr => self.stderr,
        }
    }

    /// The capture with another value for a stream.
    pub open spec fn with_lane(self, stream: StreamKind, lane: LaneModel) -> CaptureModel {
        match stream {
            StreamKind::Stdout => CaptureModel { stdout: lane, ..self },
            StreamKind::Stderr => CaptureModel { stderr: lane, ..self },
        }
    }

    /// Number of raw bytes that are retained.
    pub open spec fn retained(self) -> nat {
        self.stdout.raw.len() + self.stderr.raw.len()
    }

    /// Number of bytes of a chunk that are still taken.
    pub open spec fn room(self, chunk: nat) -> nat {
        match self.limit {
            None => chunk,
            Some(limit) => {
                let left: nat = if limit > self.retained() {
                    (limit - self.retained()) as nat
                } else {
                    0
                };
                if chunk < left {
                    chunk
                } else {
                    left
                }
            },
        }
    }

    /// The capture after a chunk: its front that fits is retained.
    pub open spec fn with_chunk(self, stream: StreamKind, chunk: Seq<u8>) -> CaptureModel {
        let taken = self.room(chunk.len());
        let lane = self.lane(stream);
        let next = self.with_lane(
            stream,
            LaneModel { raw: lane.raw + chunk.take(taken as int), ..lane },
        );
        CaptureModel { overflowed: self.overflowed || taken != chunk.len(), ..next }
    }

    /// The capture after one line.
    pub open spec fn with_line(self, stream: StreamKind, line: Seq<u8>) -> CaptureModel {
        let lane = self.lane(stream);
        let next = self.with_lane(
            stream,
            LaneModel { queue: lane.queue.push(line), history: lane.history.push(line), ..lane },
        );
        let event = LineModel { stream, line };
        CaptureModel {
            combined_queue: self.combined_queue.push(event),
            combined_history: self.combined_history.push(event),
            ..next
        }
    }

    /// The capture after some lines.
    pub open spec fn with_lines(self, stream: StreamKind, lines: Seq<Seq<u8>>) -> CaptureModel
        decreases lines.len(),
    {
        if lines.len() == 0 {
            self
        } else {
            self.with_lines(stream, lines.drop_last()).with_line(stream, lines.last())
        }
    }

    /// Whether a stream is shown at all: standard error is not, where it goes
    /// into standard output.
    pub open spec fn shown(stderr_mode: StderrMode, stream: StreamKind) -> bool {
        !(stream == StreamKind::Stderr && stderr_mode == StderrMode::Stdout)
    }

    /// Whether no more lines of a stream will come.
    pub open spec fn ended(self, stderr_mode: StderrMode, stream: StreamKind) -> bool {
        match stream {
            StreamKind::Stdout => self.stdout_closed && (stderr_mode == StderrMode::Stdout
                ==> self.stderr_closed),
            StreamKind::Stderr => self.stderr_closed,
        }
    }
}

/// Number of bytes of some lines.
pub open spec fn line_bytes(lines: Seq<Seq<u8>>) -> nat
    decreases lines.len(),
{
    if lines.len() == 0 {
        0
    } else {
        line_bytes(lines.drop_last()) + lines.last().len()
    }
}

/// Number of bytes of some lines of both streams.
pub open spec fn event_bytes(events: Seq<LineModel>) -> nat
    decreases events.len(),
{
    if events.len() == 0 {
        0
    } else {
        event_bytes(events.drop_last()) + events.last().line.len()
    }
}

/// A byte count as far as the machine can hold it.
pub open spec fn counted(n: nat) -> usize {
    if n <= usize::MAX {
        n as usize
    } else {
        usize::MAX
    }
}

fn count_more(count: usize, more: usize, Ghost(total): Ghost<nat>) -> (r: usize)
    requires
        count == counted(total),
    ensures
        r == counted(total + more as nat),
{
    if more <= usize::MAX - count {
        count + more
    } else {
        usize::MAX
    }
}

/// One stream of a capture.
#[derive(Clone, Debug, PartialEq, Eq)]
pub struct Lane {
    queue: VecDeque<Vec<u8>>,
    history: VecDeque<Vec<u8>>,
    raw: Vec<u8>,
    history_bytes: usize,
}

/// The bytes of some lines.
pub open spec fn line_views(lines: Seq<Vec<u8>>) -> Seq<Seq<u8>> {
    lines.map_values(|l: Vec<u8>| l@)
}

impl View for Lane {
    type V = LaneModel;

    closed spec fn view(&self) -> LaneModel {
        LaneModel {
            queue: line_views(self.queue@),
            history: line_views(self.history@),
            raw: self.raw@,
        }
    }
}

impl Lane {
    closed spec fn wf(&self) -> bool {
        self.history_bytes == counted(line_bytes(self@.history))
    }

    fn new() -> (l: Lane)
        ensures
            l.wf(),
            l@ == (LaneModel { queue: Seq::empty(), history: Seq::empty(), raw: Seq::empty() }),
    {
        let l = Lane {
            queue: VecDeque::new(),
            history: VecDeque::new(),
            raw: Vec::new(),
            history_bytes: 0,
        };
        assert(line_views(l.queue@) =~= Seq::<Seq<u8>>::empty());
        assert(line_views(l.history@) =~= Seq::<Seq<u8>>::empty());
        l
    }

    fn push(&mut self, line: &[u8])
        requires
            old(self).wf(),
        ensures
            final(self).wf(),
            final(self)@ == (LaneModel {
                queue: old(self)@.queue.push(line@),
                history: old(self)@.history.push(line@),
                ..old(self)@
            }),
    {
        self.history_bytes = count_more(
            self.history_bytes,
            line.len(),
            Ghost(line_bytes(self@.history)),
        );
        self.history.push_back(copy_bytes(line));
        self.queue.push_back(copy_bytes(line));
        proof {
            assert(self@.queue =~= old(self)@.queue.push(line@));
            assert(self@.history =~= old(self)@.history.push(line@));
            assert(self@.history.drop_last() =~= old(self)@.history);
        }
    }

    fn clear(&mut self) -> (released: usize)
        requires
            old(self).wf(),
        ensures
            final(self).wf(),
            final(self)@ == (LaneModel {
                queue: old(self)@.queue,
                history: Seq::empty(),
                raw: Seq::empty(),
            }),
            released == counted(line_bytes(old(self)@.history)),
    {
        let released: usize = self.history_bytes;
        self.history = VecDeque::new();
        self.raw = Vec::new();
        self.history_bytes = 0;
        assert(self@.history =~= Seq::<Seq<u8>>::empty());
        released
    }

    fn pop(&mut self) -> (r: Option<Vec<u8>>)
        requires
            old(self).wf(),
        ensures
            final(self).wf(),
            match r {
                Some(line) => old(self)@.queue.len() > 0 && line@ == old(self)@.queue[0]
                    && final(self)@ == (LaneModel {
                    queue: old(self)@.queue.skip(1),
                    ..old(self)@
                }),
                None => old(self)@.queue.len() == 0 && final(self)@ == old(self)@,
            },
    {
        match self.queue.pop_front() {
            Some(line) => {
                assert(self@.queue =~= old(self)@.queue.skip(1));
                Some(line)
            },
            None => {
                assert(self@.queue =~= old(self)@.queue);
                None
            },
        }
    }

    fn drain(&mut self) -> (lines: Vec<Vec<u8>>)
        requires
            old(self).wf(),
        ensures
            final(self).wf(),
            line_views(lines@) == old(self)@.queue,
            final(self)@ == (LaneModel { queue: Seq::empty(), ..old(self)@ }),
    {
        let mut lines: Vec<Vec<u8>> = Vec::new();
        let ghost all = self@.queue;
        assert(all.skip(0) =~= all);
        assert(line_views(lines@) =~= all.take(0));
        loop
            invariant
                self.wf(),
                lines@.len() <= all.len(),
                line_views(lines@) == all.take(lines@.len() as int),
                self@.queue == all.skip(lines@.len() as int),
                self@.history == old(self)@.history,
                self@.raw == old(self)@.raw,
            ensures
                self.wf(),
                line_views(lines@) == all,
                self@ == (LaneModel { queue: Seq::empty(), ..old(self)@ }),
            decreases all.len() - lines@.len(),
        {
            match self.pop() {
                Some(line) => {
                    let ghost n = lines@.len() as int;
                    lines.push(line);
                    assert(line_views(lines@) =~= all.take(n + 1));
                    assert(self@.queue =~= all.skip(n + 1));
                },
                None => {
                    assert(lines@.len() == all.len());
                    assert(all.take(all.len() as int) =~= all);
                    assert(self@.queue =~= Seq::<Seq<u8>>::empty());
                    break;
                },
            }
        }
        lines
    }

    fn lines(&self) -> (lines: Vec<Vec<u8>>)
        ensures
            line_views(lines@) == self@.history,
    {
        let mut lines: Vec<Vec<u8>> = Vec::new();
        let mut i: usize = 0;
        assert(line_views(lines@) =~= self@.history.take(0));
        while i < self.history.len()
            invariant
                i <= self.history@.len(),
                line_views(lines@) == self@.history.take(i as int),
            decreases self.history@.len() - i,
        {
            let ghost before = line_views(lines@);
            let line: &Vec<u8> = &self.history[i];
            lines.push(copy_bytes(line.as_slice()));
            assert(line_views(lines@) =~= before.push(self@.history[i as int]));
            assert(line_views(lines@) =~= self@.history.take(i as int + 1));
            i = i + 1;
        }
        assert(self@.history.take(self@.history.len() as int) =~= self@.history);
        lines
    }
}

/// Captured output of a child.
#[derive(Clone, Debug, PartialEq, Eq)]
pub struct CaptureState {
    stdout: Lane,
    stderr: Lane,
    combined_queue: VecDeque<StreamEvent>,
    combined_history: VecDeque<StreamEvent>,
    combined_history_bytes: usize,
    stdout_closed: bool,
    stderr_closed: bool,
    limit: Option<usize>,
    overflowed: bool,
}

/// The lines of some events.
pub open spec fn event_views(events: Seq<StreamEvent>) -> Seq<LineModel> {
    events.map_values(|e: StreamEvent| line_model(e))
}

impl View for CaptureState {
    type V = CaptureModel;

    closed spec fn view(&self) -> CaptureModel {
        CaptureModel {
            stdout: self.stdout@,
            stderr: self.stderr@,
            combined_queue: event_views(self.combined_queue@),
            combined_history: event_views(self.combined_history@),
            stdout_closed: self.stdout_closed,
            stderr_closed: self.stderr_closed,
            limit: match self.limit {
                Some(n) => Some(n as nat),
                None => None,
            },
            overflowed: self.overflowed,
        }
    }
}

/// What a look for the next item gave.
#[derive(Clone, Debug, PartialEq, Eq)]
pub enum NextItem<T> {
    /// The item.
    Item(T),
    /// No more items will come.
    Ended,
    /// An item may still come.
    Pending,
}

impl CaptureState {
    /// Whether the byte counts fit the histories.
    pub closed spec fn wf(&self) -> bool {
        &&& self.stdout.wf()
        &&& self.stderr.wf()
        &&& self.combined_history_bytes == counted(event_bytes(self@.combined_history))
    }

    /// A capture that holds nothing; where nothing is captured, both pipes are
    /// done from the start.
    pub fn new(capture: bool, limit: Option<usize>) -> (c: CaptureState)
        ensures
            c.wf(),
            c@ == (CaptureModel {
                stdout: LaneModel {
                    queue: Seq::empty(),
                    history: Seq::empty(),
                    raw: Seq::empty(),
                },
                stderr: LaneModel {
                    queue: Seq::empty(),
                    history: Seq::empty(),
                    raw: Seq::empty(),
                },
                combined_queue: Seq::empty(),
                combined_history: Seq::empty(),
                stdout_closed: !capture,
                stderr_closed: !capture,
                limit: match limit {
                    Some(n) => Some(n as nat),
                    None => None,
                },
                overflowed: false,
            }),
    {
        let c = CaptureState {
            stdout: Lane::new(),
            stderr: Lane::new(),
            combined_queue: VecDeque::new(),
            combined_history: VecDeque::new(),
            combined_history_bytes: 0,
            stdout_closed: !capture,
            stderr_closed: !capture,
            limit,
            overflowed: false,
        };
        assert(c@.combined_queue =~= Seq::<LineModel>::empty());
        assert(c@.combined_history =~= Seq::<LineModel>::empty());
        c
    }

    /// Takes the raw bytes of a chunk, as far as the limit allows; false where
    /// some were dropped.
    pub fn append_raw(&mut self, stream: StreamKind, chunk: &[u8]) -> (whole: bool)
        requires
            old(self).wf(),
        ensures
            final(self).wf(),
            final(self)@ == old(self)@.with_chunk(stream, chunk@),
            whole == (old(self)@.room(chunk@.len()) == chunk@.len()),
    {
        if chunk.len() == 0 {
            proof {
                let lane = self@.lane(stream);
                assert(lane.raw + chunk@.take(0) =~= lane.raw);
            }
            return true;
        }
        let accepted: usize = match self.limit {
            Some(limit) => {
                let out: usize = self.stdout.raw.len();
                let err: usize = self.stderr.raw.len();
                let left: usize = if out <= limit && err <= limit - out {
                    limit - out - err
                } else {
                    0
                };
                if chunk.len() < left {
                    chunk.len()
                } else {
                    left
                }
            },
            None => chunk.len(),
        };
        let part = slice_subrange(chunk, 0, accepted);
        assert(part@ =~= chunk@.take(accepted as int));
        match stream {
            StreamKind::Stdout => append_bytes(&mut self.stdout.raw, part),
            StreamKind::Stderr => append_bytes(&mut self.stderr.raw, part),
        }
        if accepted != chunk.len() {
            self.overflowed = true;
            false
        } else {
            true
        }
    }

    fn emit_line(&mut self, stream: StreamKind, line: &[u8])
        requires
            old(self).wf(),
        ensures
            final(self).wf(),
            final(self)@ == old(self)@.with_line(stream, line@),
    {
        let ghost before = self@.combined_history;
        match stream {
            StreamKind::Stdout => self.stdout.push(line),
            StreamKind::Stderr => self.stderr.push(line),
        }
        self.combined_history_bytes = count_more(
            self.combined_history_bytes,
            line.len(),
            Ghost(event_bytes(before)),
        );
        self.combined_history.push_back(StreamEvent { stream, line: copy_bytes(line) });
        self.combined_queue.push_back(StreamEvent { stream, line: copy_bytes(line) });
        proof {
            let event = LineModel { stream, line: line@ };
            assert(self@.combined_history =~= before.push(event));
            assert(self@.combined_history.drop_last() =~= before);
            assert(self@.combined_queue =~= old(self)@.combined_queue.push(event));
        }
    }

    /// Takes complete lines; after an overflow none are taken.
    pub fn emit_lines(&mut self, stream: StreamKind, lines: &Vec<Vec<u8>>)
        requires
            old(self).wf(),
        ensures
            final(self).wf(),
            final(self)@ == (if old(self)@.overflowed {
                old(self)@
            } else {
                old(self)@.with_lines(stream, line_views(lines@))
            }),
    {
        if self.overflowed {
            return;
        }
        let ghost all = line_views(lines@);
        let mut i: usize = 0;
        assert(all.take(0) =~= Seq::<Seq<u8>>::empty());
        while i < lines.len()
            invariant
                i <= lines@.len(),
                all == line_views(lines@),
                self.wf(),
                self@ == old(self)@.with_lines(stream, all.take(i as int)),
            decreases lines@.len() - i,
        {
            self.emit_line(stream, &lines[i]);
            proof {
                assert(all.take(i as int + 1).drop_last() =~= all.take(i as int));
                assert(all.take(i as int + 1).last() == lines@[i as int]@);
            }
            i = i + 1;
        }
        assert(all.take(all.len() as int) =~= all);
    }

    /// Takes what a reader had left when its pipe ended: the line without an end,
    /// unless there is none or the capture overflowed.
    pub fn emit_rest(&mut self, stream: StreamKind, rest: &[u8])
        requires
            old(self).wf(),
        ensures
            final(self).wf(),
            final(self)@ == (if rest@.len() == 0 || old(self)@.overflowed {
                old(self)@
            } else {
                old(self)@.with_line(stream, rest@)
            }),
    {
        if rest.len() > 0 && !self.overflowed {
            self.emit_line(stream, rest);
        }
    }

    /// Records that the pipe of a stream is done.
    pub fn close_pipe(&mut self, source: StreamKind)
        requires
            old(self).wf(),
        ensures
            final(self).wf(),
            final(self)@ == (match source {
                StreamKind::Stdout => CaptureModel { stdout_closed: true, ..old(self)@ },
                StreamKind::Stderr => CaptureModel { stderr_closed: true, ..old(self)@ },
            }),
    {
        match source {
            StreamKind::Stdout => {
                self.stdout_closed = true;
            },
            StreamKind::Stderr => {
                self.stderr_closed = true;
            },
        }
    }

    /// Whether both pipes are done.
    pub fn is_complete(&self) -> (b: bool)
        ensures
            b == (self@.stdout_closed && self@.stderr_closed),
    {
        self.stdout_closed && self.stderr_closed
    }

    /// Whether bytes were dropped for the limit.
    pub fn has_overflowed(&self) -> (b: bool)
        ensures
            b == self@.overflowed,
    {
        self.overflowed
    }

    /// Gives up on pipes that are still open, so that readers see an end.
    pub fn force_complete(&mut self)
        requires
            old(self).wf(),
        ensures
            final(self).wf(),
            final(self)@ == (CaptureModel {
                stdout_closed: true,
                stderr_closed: true,
                ..old(self)@
            }),
    {
        self.stdout_closed = true;
        self.stderr_closed = true;
    }

    /// Whether lines of a stream wait.
    pub fn has_pending_stream(&self, stderr_mode: StderrMode, stream: StreamKind) -> (b: bool)
        ensures
            b == (CaptureModel::shown(stderr_mode, stream) && self@.lane(stream).queue.len() > 0),
    {
        if stream == StreamKind::Stderr && stderr_mode == StderrMode::Stdout {
            return false;
        }
        match stream {
            StreamKind::Stdout => self.stdout.queue.len() > 0,
            StreamKind::Stderr => self.stderr.queue.len() > 0,
        }
    }

    /// Whether lines of both streams wait.
    pub fn has_pending_combined(&self) -> (b: bool)
        ensures
            b == (self@.combined_queue.len() > 0),
    {
        self.combined_queue.len() > 0
    }

    /// Takes all waiting lines of a stream out.
    pub fn drain_stream(&mut self, stderr_mode: StderrMode, stream: StreamKind) -> (lines: Vec<
        Vec<u8>,
    >)
        requires
            old(self).wf(),
        ensures
            final(self).wf(),
            CaptureModel::shown(stderr_mode, stream) ==> line_views(lines@) == old(self)@.lane(
                stream,
            ).queue && final(self)@ == old(self)@.with_lane(
                stream,
                LaneModel { queue: Seq::empty(), ..old(self)@.lane(stream) },
            ),
            !CaptureModel::shown(stderr_mode, stream) ==> lines@.len() == 0 && final(self)@ == old(
                self,
            )@,
    {
        if stream == StreamKind::Stderr && stderr_mode == StderrMode::Stdout {
            return Vec::new();
        }
        match stream {
            StreamKind::Stdout => self.stdout.drain(),
            StreamKind::Stderr => self.stderr.drain(),
        }
    }

    fn pop_combined(&mut self) -> (r: Option<StreamEvent>)
        requires
            old(self).wf(),
        ensures
            final(self).wf(),
            match r {
                Some(e) => old(self)@.combined_queue.len() > 0 && line_model(e) == old(
                    self,
                )@.combined_queue[0] && final(self)@ == (CaptureModel {
                    combined_queue: old(self)@.combined_queue.skip(1),
                    ..old(self)@
                }),
                None => old(self)@.combined_queue.len() == 0 && final(self)@ == old(self)@,
            },
    {
        match self.combined_queue.pop_front() {
            Some(e) => {
                assert(self@.combined_queue =~= old(self)@.combined_queue.skip(1));
                Some(e)
            },
            None => {
                assert(self@.combined_queue =~= old(self)@.combined_queue);
                None
            },
        }
    }

    /// Takes all waiting lines of both streams out.
    pub fn drain_combined(&mut self) -> (events: Vec<StreamEvent>)
        requires
            old(self).wf(),
        ensures
            final(self).wf(),
            event_views(events@) == old(self)@.combined_queue,
            final(self)@ == (CaptureModel { combined_queue: Seq::empty(), ..old(self)@ }),
    {
        let mut events: Vec<StreamEvent> = Vec::new();
        let ghost all = self@.combined_queue;
        assert(all.skip(0) =~= all);
        assert(event_views(events@) =~= all.take(0));
        assert(self@ =~= (CaptureModel { combined_queue: all.skip(0), ..old(self)@ }));
        loop
            invariant
                self.wf(),
                events@.len() <= all.len(),
                event_views(events@) == all.take(events@.len() as int),
                self@ == (CaptureModel {
                    combined_queue: all.skip(events@.len() as int),
                    ..old(self)@
                }),
            ensures
                self.wf(),
                event_views(events@) == all,
                self@ == (CaptureModel { combined_queue: Seq::empty(), ..old(self)@ }),
            decreases all.len() - events@.len(),
        {
            match self.pop_combined() {
                Some(event) => {
                    let ghost n = events@.len() as int;
                    events.push(event);
                    assert(event_views(events@) =~= all.take(n + 1));
                    assert(self@.combined_queue =~= all.skip(n + 1));
                },
                None => {
                    assert(all.take(all.len() as int) =~= all);
                    assert(self@.combined_queue =~= Seq::<LineModel>::empty());
                    break;
                },
            }
        }
        events
    }

    /// Takes the next line of a stream out. A line that waits is given before the
    /// end of the stream is reported.
    pub fn next_line(&mut self, stderr_mode: StderrMode, stream: StreamKind) -> (r: NextItem<
        Vec<u8>,
    >)
        requires
            old(self).wf(),
        ensures
            takes_line(old(self)@, stderr_mode, stream, r, final(self)@),
            final(self).wf(),
            match r {
                NextItem::Item(line) => {
                    &&& CaptureModel::shown(stderr_mode, stream)
                    &&& old(self)@.lane(stream).queue.len() > 0
                    &&& line@ == old(self)@.lane(stream).queue[0]
                    &&& final(self)@ == old(self)@.with_lane(
                        stream,
                        LaneModel {
                            queue: old(self)@.lane(stream).queue.skip(1),
                            ..old(self)@.lane(stream)
                        },
                    )
                },
                NextItem::Ended => final(self)@ == old(self)@ && (!CaptureModel::shown(
                    stderr_mode,
                    stream,
                ) || (old(self)@.lane(stream).queue.len() == 0 && old(self)@.ended(
                    stderr_mode,
                    stream,
                ))),
                NextItem::Pending => final(self)@ == old(self)@ && CaptureModel::shown(
                    stderr_mode,
                    stream,
                ) && old(self)@.lane(stream).queue.len() == 0 && !old(self)@.ended(
                    stderr_mode,
                    stream,
                ),
            },
    {
        if stream == StreamKind::Stderr && stderr_mode == StderrMode::Stdout {
            return NextItem::Ended;
        }
        let next = match stream {
            StreamKind::Stdout => self.stdout.pop(),
            StreamKind::Stderr => self.stderr.pop(),
        };
        match next {
            Some(line) => {
                return NextItem::Item(line);
            },
            None => {},
        }
        let closed: bool = match stream {
            StreamKind::Stdout => if stderr_mode == StderrMode::Stdout {
                self.stdout_closed && self.stderr_closed
            } else {
                self.stdout_closed
            },
            StreamKind::Stderr => self.stderr_closed,
        };
        if closed {
            NextItem::Ended
        } else {
            NextItem::Pending
        }
    }

    /// Takes the next line of both streams out.
    pub fn next_combined(&mut self) -> (r: NextItem<StreamEvent>)
        requires
            old(self).wf(),
        ensures
            takes_event(old(self)@, r, final(self)@),
            final(self).wf(),
            match r {
                NextItem::Item(e) => {
                    &&& old(self)@.combined_queue.len() > 0
                    &&& line_model(e) == old(self)@.combined_queue[0]
                    &&& final(self)@ == (CaptureModel {
                        combined_queue: old(self)@.combined_queue.skip(1),
                        ..old(self)@
                    })
                },
                NextItem::Ended => final(self)@ == old(self)@ && old(self)@.combined_queue.len() == 0
                    && old(self)@.stdout_closed && old(self)@.stderr_closed,
                NextItem::Pending => final(self)@ == old(self)@ && old(self)@.combined_queue.len()
                    == 0 && !(old(self)@.stdout_closed && old(self)@.stderr_closed),
            },
    {
        match self.pop_combined() {
            Some(event) => NextItem::Item(event),
            None => if self.stdout_closed && self.stderr_closed {
                NextItem::Ended
            } else {
                NextItem::Pending
            },
        }
    }

    /// The captured lines of a stream.
    pub fn captured_lines(&self, stderr_mode: StderrMode, stream: StreamKind) -> (lines: Vec<
        Vec<u8>,
    >)
        ensures
            line_views(lines@) == (if CaptureModel::shown(stderr_mode, stream) {
                self@.lane(stream).history
            } else {
                Seq::empty()
            }),
    {
        if stream == StreamKind::Stderr && stderr_mode == StderrMode::Stdout {
            let none: Vec<Vec<u8>> = Vec::new();
            assert(line_views(none@) =~= Seq::<Seq<u8>>::empty());
            return none;
        }
        match stream {
            StreamKind::Stdout => self.stdout.lines(),
            StreamKind::Stderr => self.stderr.lines(),
        }
    }

    /// The captured bytes of a stream.
    pub fn captured_raw(&self, stderr_mode: StderrMode, stream: StreamKind) -> (bytes: Vec<u8>)
        ensures
            bytes@ == (if CaptureModel::shown(stderr_mode, stream) {
                self@.lane(stream).raw
            } else {
                Seq::empty()
            }),
    {
        if stream == StreamKind::Stderr && stderr_mode == StderrMode::Stdout {
            return Vec::new();
        }
        match stream {
            StreamKind::Stdout => copy_bytes(&self.stdout.raw),
            StreamKind::Stderr => copy_bytes(&self.stderr.raw),
        }
    }

    /// The captured lines of both streams.
    pub fn captured_combined(&self) -> (events: Vec<StreamEvent>)
        ensures
            event_views(events@) == self@.combined_history,
    {
        let mut events: Vec<StreamEvent> = Vec::new();
        let mut i: usize = 0;
        assert(event_views(events@) =~= self@.combined_history.take(0));
        while i < self.combined_history.len()
            invariant
                i <= self.combined_history@.len(),
                event_views(events@) == self@.combined_history.take(i as int),
            decreases self.combined_history@.len() - i,
        {
            let ghost before = event_views(events@);
            let captured: &StreamEvent = &self.combined_history[i];
            events.push(
                StreamEvent { stream: captured.stream, line: copy_bytes(captured.line.as_slice()) },
            );
            assert(event_views(events@) =~= before.push(self@.combined_history[i as int]));
            assert(event_views(events@) =~= self@.combined_history.take(i as int + 1));
            i = i + 1;
        }
        assert(self@.combined_history.take(self@.combined_history.len() as int)
            =~= self@.combined_history);
        events
    }

    /// Number of bytes of the captured lines of a stream.
    pub fn captured_stream_bytes(&self, stderr_mode: StderrMode, stream: StreamKind) -> (n: usize)
        requires
            self.wf(),
        ensures
            n == (if CaptureModel::shown(stderr_mode, stream) {
                counted(line_bytes(self@.lane(stream).history))
            } else {
                0
            }),
    {
        if stream == StreamKind::Stderr && stderr_mode == StderrMode::Stdout {
            return 0;
        }
        match stream {
            StreamKind::Stdout => self.stdout.history_bytes,
            StreamKind::Stderr => self.stderr.history_bytes,
        }
    }

    /// Number of bytes of the captured lines of both streams.
    pub fn captured_combined_bytes(&self) -> (n: usize)
        requires
            self.wf(),
        ensures
            n == counted(event_bytes(self@.combined_history)),
    {
        self.combined_history_bytes
    }

    /// Forgets what was captured of a stream, and returns the number of bytes of
    /// its lines. Waiting lines stay.
    pub fn clear_captured_stream(&mut self, stderr_mode: StderrMode, stream: StreamKind) -> (n:
        usize)
        requires
            old(self).wf(),
        ensures
            final(self).wf(),
            CaptureModel::shown(stderr_mode, stream) ==> {
                &&& n == counted(line_bytes(old(self)@.lane(stream).history))
                &&& final(self)@ == old(self)@.with_lane(
                    stream,
                    LaneModel {
                        queue: old(self)@.lane(stream).queue,
                        history: Seq::empty(),
                        raw: Seq::empty(),
                    },
                )
            },
            !CaptureModel::shown(stderr_mode, stream) ==> n == 0 && final(self)@ == old(self)@,
    {
        if stream == StreamKind::Stderr && stderr_mode == StderrMode::Stdout {
            return 0;
        }
        match stream {
            StreamKind::Stdout => self.stdout.clear(),
            StreamKind::Stderr => self.stderr.clear(),
        }
    }

    /// Forgets what was captured of both streams together, and returns the number
    /// of bytes of its lines.
    pub fn clear_captured_combined(&mut self) -> (n: usize)
        requires
            old(self).wf(),
        ensures
            final(self).wf(),
            n == counted(event_bytes(old(self)@.combined_history)),
            final(self)@ == (CaptureModel { combined_history: Seq::empty(), ..old(self)@ }),
    {
        let released: usize = self.combined_history_bytes;
        self.combined_history = VecDeque::new();
        self.combined_history_bytes = 0;
        assert(self@.combined_history =~= Seq::<LineModel>::empty());
        released
    }
}

/// The raw bytes never exceed the limit, and once a byte was dropped the capture
/// says so for good.
pub proof fn law_limit_bounds_the_raw_bytes(
    capture: CaptureModel,
    stream: StreamKind,
    chunk: Seq<u8>,
)
    requires
        capture.limit matches Some(limit) ==> capture.retained() <= limit,
    ensures
        ({
            let after = capture.with_chunk(stream, chunk);
            &&& after.limit == capture.limit
            &&& capture.limit matches Some(limit) ==> after.retained() <= limit
            &&& after.retained() == capture.retained() + capture.room(chunk.len())
            &&& after.overflowed <==> capture.overflowed || capture.room(chunk.len()) < chunk.len()
            &&& chunk.take(capture.room(chunk.len()) as int).is_prefix_of(chunk)
        }),
{
    let taken = capture.room(chunk.len());
    assert(chunk.take(taken as int).len() == taken);
    assert(chunk.take(taken as int) =~= chunk.subrange(0, taken as int));
}

/// Lines reach the queue of their stream, its history, and both combined lists,
/// in the order in which they came, and change nothing else.
pub proof fn law_lines_reach_every_list(
    capture: CaptureModel,
    stream: StreamKind,
    lines: Seq<Seq<u8>>,
)
    ensures
        ({
            let after = capture.with_lines(stream, lines);
            let events = Seq::new(lines.len(), |i: int| LineModel { stream, line: lines[i] });
            &&& after.lane(stream).queue == capture.lane(stream).queue + lines
            &&& after.lane(stream).history == capture.lane(stream).history + lines
            &&& after.combined_queue == capture.combined_queue + events
            &&& after.combined_history == capture.combined_history + events
            &&& after.lane(stream).raw == capture.lane(stream).raw
            &&& after.lane(other_stream(stream)) == capture.lane(other_stream(stream))
            &&& after.stdout_closed == capture.stdout_closed
            &&& after.stderr_closed == capture.stderr_closed
            &&& after.limit == capture.limit
            &&& after.overflowed == capture.overflowed
        }),
    decreases lines.len(),
{
    let events = Seq::new(lines.len(), |i: int| LineModel { stream, line: lines[i] });
    let after = capture.with_lines(stream, lines);
    if lines.len() > 0 {
        let front = lines.drop_last();
        law_lines_reach_every_list(capture, stream, front);
        let front_events = Seq::new(front.len(), |i: int| LineModel { stream, line: front[i] });
        assert(events =~= front_events.push(LineModel { stream, line: lines.last() }));
        assert(lines =~= front.push(lines.last()));
        assert(after.lane(stream).queue =~= capture.lane(stream).queue + lines);
        assert(after.lane(stream).history =~= capture.lane(stream).history + lines);
        assert(after.combined_queue =~= capture.combined_queue + events);
        assert(after.combined_history =~= capture.combined_history + events);
    } else {
        assert(after.lane(stream).queue =~= capture.lane(stream).queue + lines);
        assert(after.lane(stream).history =~= capture.lane(stream).history + lines);
        assert(after.combined_queue =~= capture.combined_queue + events);
        assert(after.combined_history =~= capture.combined_history + events);
    }
}

/// The other stream.
pub open spec fn other_stream(stream: StreamKind) -> StreamKind {
    match stream {
        StreamKind::Stdout => StreamKind::Stderr,
        StreamKind::Stderr => StreamKind::Stdout,
    }
}

/// The raw bytes of a stream are what the child wrote to it, in order: what was
/// there stays in front, the new bytes follow as far as the limit leaves room, and
/// how the output is cut into chunks makes no difference.
pub proof fn law_raw_bytes_keep_their_order(
    capture: CaptureModel,
    stream: StreamKind,
    a: Seq<u8>,
    b: Seq<u8>,
)
    ensures
        capture.with_chunk(stream, a).with_chunk(stream, b) == capture.with_chunk(stream, a + b),
        capture.limit is None ==> match stream {
            StreamKind::Stdout => capture.with_chunk(stream, a).with_chunk(stream, b).stdout.raw
                == capture.stdout.raw + a + b,
            StreamKind::Stderr => capture.with_chunk(stream, a).with_chunk(stream, b).stderr.raw
                == capture.stderr.raw + a + b,
        },
        capture.limit is None ==> capture.with_chunk(stream, a).overflowed == capture.overflowed,
        match stream {
            StreamKind::Stdout => capture.stdout.raw.is_prefix_of(
                capture.with_chunk(stream, a).stdout.raw,
            ),
            StreamKind::Stderr => capture.stderr.raw.is_prefix_of(
                capture.with_chunk(stream, a).stderr.raw,
            ),
        },
{
    let once = capture.with_chunk(stream, a);
    let twice = once.with_chunk(stream, b);
    let whole = capture.with_chunk(stream, a + b);
    let lane = capture.lane(stream);
    let n = capture.room(a.len());
    let m = once.room(b.len());
    let k = capture.room((a + b).len());
    assert(once.lane(stream).raw =~= lane.raw + a.take(n as int));
    assert(k == n + m);
    assert(a.take(n as int) + b.take(m as int) =~= (a + b).take(k as int));
    assert(twice.lane(stream).raw =~= lane.raw + (a + b).take(k as int));
    assert(twice =~= whole);
    if capture.limit is None {
        assert(a.take(n as int) =~= a);
        assert(b.take(m as int) =~= b);
        assert(twice.lane(stream).raw =~= lane.raw + a + b);
    }
    assert(once.lane(stream).raw.subrange(0, lane.raw.len() as int) =~= lane.raw);
}

/// A chunk changes the raw bytes of its stream and the mark of dropped bytes, and
/// nothing else. With a limit, bytes are taken from the front of the chunk until
/// both streams together hold that many, and the mark is set exactly where some
/// are left over.
pub proof fn law_chunks_change_their_stream_only(
    capture: CaptureModel,
    stream: StreamKind,
    chunk: Seq<u8>,
)
    ensures
        ({
            let after = capture.with_chunk(stream, chunk);
            let held = capture.stdout.raw.len() + capture.stderr.raw.len();
            let n: int = match capture.limit {
                None => chunk.len() as int,
                Some(limit) => if held + chunk.len() <= limit {
                    chunk.len() as int
                } else if held <= limit {
                    limit - held
                } else {
                    0
                },
            };
            &&& match stream {
                StreamKind::Stdout => after == (CaptureModel {
                    stdout: LaneModel {
                        raw: capture.stdout.raw + chunk.subrange(0, n),
                        ..capture.stdout
                    },
                    overflowed: after.overflowed,
                    ..capture
                }),
                StreamKind::Stderr => after == (CaptureModel {
                    stderr: LaneModel {
                        raw: capture.stderr.raw + chunk.subrange(0, n),
                        ..capture.stderr
                    },
                    overflowed: after.overflowed,
                    ..capture
                }),
            }
            &&& after.overflowed == (capture.overflowed || n < chunk.len())
            &&& capture.room(chunk.len()) == n
        }),
{
    let taken = capture.room(chunk.len());
    assert(chunk.take(taken as int) =~= chunk.subrange(0, taken as int));
}

/// A line of standard output is shown as standard output and one of standard error
/// as standard error: it is the newest of its stream and of both together, and the
/// lines before it stay as they were.
pub proof fn law_lines_stay_with_their_stream(
    capture: CaptureModel,
    stream: StreamKind,
    line: Seq<u8>,
)
    ensures
        ({
            let after = capture.with_line(stream, line);
            let (mine, was, other, other_was) = match stream {
                StreamKind::Stdout => (after.stdout, capture.stdout, after.stderr, capture.stderr),
                StreamKind::Stderr => (after.stderr, capture.stderr, after.stdout, capture.stdout),
            };
            &&& mine.queue.len() == was.queue.len() + 1
            &&& mine.queue.drop_last() == was.queue
            &&& mine.queue.last() == line
            &&& mine.history.drop_last() == was.history
            &&& mine.history.last() == line
            &&& mine.raw == was.raw
            &&& other == other_was
            &&& after.combined_queue.drop_last() == capture.combined_queue
            &&& after.combined_queue.last().line == line
            &&& after.combined_queue.last().stream == stream
            &&& after.combined_history.drop_last() == capture.combined_history
            &&& after.combined_history.last().line == line
            &&& after.combined_history.last().stream == stream
            &&& after.stdout_closed == capture.stdout_closed
            &&& after.stderr_closed == capture.stderr_closed
            &&& after.limit == capture.limit
            &&& after.overflowed == capture.overflowed
        }),
{
    let after = capture.with_line(stream, line);
    let lane = capture.lane(stream);
    assert(lane.queue.push(line).drop_last() =~= lane.queue);
    assert(lane.history.push(line).drop_last() =~= lane.history);
    assert(after.combined_queue.drop_last() =~= capture.combined_queue);
    assert(after.combined_history.drop_last() =~= capture.combined_history);
}

/// Standard error is shown unless it goes into standard output, and standard output
/// always is. A stream has ended when every pipe that feeds it is done.
pub proof fn law_streams_end_with_their_pipes(
    capture: CaptureModel,
    stderr_mode: StderrMode,
    stream: StreamKind,
)
    ensures
        CaptureModel::shown(stderr_mode, StreamKind::Stdout),
        CaptureModel::shown(stderr_mode, StreamKind::Stderr) <==> stderr_mode
            != StderrMode::Stdout,
        capture.ended(stderr_mode, stream) ==> match stream {
            StreamKind::Stdout => capture.stdout_closed,
            StreamKind::Stderr => capture.stderr_closed,
        },
        capture.stdout_closed && capture.stderr_closed ==> capture.ended(stderr_mode, stream),
        stderr_mode == StderrMode::Stdout && !capture.stderr_closed ==> !capture.ended(
            stderr_mode,
            StreamKind::Stdout,
        ),
        stderr_mode != StderrMode::Stdout && capture.stdout_closed ==> capture.ended(
            stderr_mode,
            StreamKind::Stdout,
        ),
        capture.stderr_closed ==> capture.ended(stderr_mode, StreamKind::Stderr),
{
}

/// The byte counts of lines are the lengths of what the lines hold, put together:
/// one line counts its bytes, and two lists count as much as both in one.
pub proof fn law_byte_counts_add_up(a: Seq<Seq<u8>>, b: Seq<Seq<u8>>, line: Seq<u8>)
    ensures
        line_bytes(Seq::empty()) == 0,
        line_bytes(seq![line]) == line.len(),
        line_bytes(a + b) == line_bytes(a) + line_bytes(b),
    decreases b.len(),
{
    assert(seq![line].drop_last() =~= Seq::<Seq<u8>>::empty());
    reveal_with_fuel(line_bytes, 2);
    if b.len() == 0 {
        assert(a + b =~= a);
    } else {
        law_byte_counts_add_up(a, b.drop_last(), line);
        assert((a + b).drop_last() =~= a + b.drop_last());
        assert((a + b).last() == b.last());
    }
}

/// The combined count is that of the lines alone, whatever their streams.
pub proof fn law_combined_bytes_are_line_bytes(events: Seq<LineModel>)
    ensures
        event_bytes(events) == line_bytes(events.map_values(|e: LineModel| e.line)),
    decreases events.len(),
{
    let lines = events.map_values(|e: LineModel| e.line);
    if events.len() > 0 {
        law_combined_bytes_are_line_bytes(events.drop_last());
        assert(events.drop_last().map_values(|e: LineModel| e.line) =~= lines.drop_last());
    }
}

/// Lines are shown with the bytes that they hold and the stream that they came from,
/// one for one and in order.
pub proof fn law_lines_are_shown_as_they_are(lines: Seq<Vec<u8>>, events: Seq<StreamEvent>, i: int)
    ensures
        line_views(lines).len() == lines.len(),
        0 <= i < lines.len() ==> line_views(lines)[i] == lines[i]@,
        event_views(events).len() == events.len(),
        0 <= i < events.len() ==> event_views(events)[i].line == events[i].line@
            && event_views(events)[i].stream == events[i].stream,
{
}

/// Byte counts are exact as far as the machine can hold them, and stay at the largest
/// number beyond.
pub proof fn law_counts_are_exact_where_they_fit(n: nat)
    ensures
        n <= usize::MAX ==> counted(n) == n,
        n > usize::MAX ==> counted(n) == usize::MAX,
{
}

/// Whether a look for the next line of a stream gives `r` and leaves `after`.
pub open spec fn takes_line(
    before: CaptureModel,
    stderr_mode: StderrMode,
    stream: StreamKind,
    r: NextItem<Vec<u8>>,
    after: CaptureModel,
) -> bool {
    let waiting = before.lane(stream).queue;
    if !CaptureModel::shown(stderr_mode, stream) {
        r is Ended && after == before
    } else if waiting.len() > 0 {
        &&& r matches NextItem::Item(line) && line@ == waiting[0]
        &&& after == before.with_lane(
            stream,
            LaneModel { queue: waiting.skip(1), ..before.lane(stream) },
        )
    } else {
        &&& after == before
        &&& r is Ended <==> before.ended(stderr_mode, stream)
        &&& r is Pending <==> !before.ended(stderr_mode, stream)
    }
}

/// Whether a look for the next line of both streams gives `r` and leaves `after`.
pub open spec fn takes_event(
    before: CaptureModel,
    r: NextItem<StreamEvent>,
    after: CaptureModel,
) -> bool {
    if before.combined_queue.len() > 0 {
        &&& r matches NextItem::Item(e) && line_model(e) == before.combined_queue[0]
        &&& after == (CaptureModel { combined_queue: before.combined_queue.skip(1), ..before })
    } else {
        &&& after == before
        &&& r is Ended <==> before.stdout_closed && before.stderr_closed
        &&& r is Pending <==> !(before.stdout_closed && before.stderr_closed)
    }
}

/// Lines are read in the order in which they came: the oldest that waits is given and
/// leaves the queue, and nothing else changes. The end is reported only when nothing
/// waits and nothing can come.
pub proof fn law_lines_are_read_in_order(
    before: CaptureModel,
    stderr_mode: StderrMode,
    r: NextItem<Vec<u8>>,
    after: CaptureModel,
)
    requires
        takes_line(before, stderr_mode, StreamKind::Stdout, r, after),
    ensures
        before.stdout.queue.len() > 0 ==> {
            &&& r matches NextItem::Item(line) && seq![line@] + after.stdout.queue
                == before.stdout.queue
            &&& after.stderr == before.stderr
            &&& after.stdout.history == before.stdout.history
            &&& after.stdout.raw == before.stdout.raw
            &&& after.combined_queue == before.combined_queue
        },
        before.stdout.queue.len() == 0 ==> after == before && !(r is Item),
        r is Ended ==> before.stdout.queue.len() == 0 && before.stdout_closed,
        before.stdout.queue.len() == 0 && before.stdout_closed && before.stderr_closed
            ==> r is Ended,
{
    if before.stdout.queue.len() > 0 {
        assert(seq![before.stdout.queue[0]] + before.stdout.queue.skip(1) =~= before.stdout.queue);
    }
}

/// Lines of standard error are read in the same way, where it is shown; where it goes
/// into standard output, its own stream has ended from the start.
pub proof fn law_error_lines_are_read_in_order(
    before: CaptureModel,
    stderr_mode: StderrMode,
    r: NextItem<Vec<u8>>,
    after: CaptureModel,
)
    requires
        takes_line(before, stderr_mode, StreamKind::Stderr, r, after),
    ensures
        stderr_mode == StderrMode::Stdout ==> r is Ended && after == before,
        stderr_mode != StderrMode::Stdout && before.stderr.queue.len() > 0 ==> {
            &&& r matches NextItem::Item(line) && seq![line@] + after.stderr.queue
                == before.stderr.queue
            &&& after.stdout == before.stdout
            &&& after.stderr.history == before.stderr.history
            &&& after.stderr.raw == before.stderr.raw
            &&& after.combined_queue == before.combined_queue
        },
        stderr_mode != StderrMode::Stdout && before.stderr.queue.len() == 0 ==> after == before && (
        r is Ended <==> before.stderr_closed) && !(r is Item),
{
    if before.stderr.queue.len() > 0 {
        assert(seq![before.stderr.queue[0]] + before.stderr.queue.skip(1) =~= before.stderr.queue);
    }
}

/// Lines of both streams together are read in the order in which they came, each with
/// its stream, and the end is reported only after the last of them.
pub proof fn law_events_are_read_in_order(
    before: CaptureModel,
    r: NextItem<StreamEvent>,
    after: CaptureModel,
)
    requires
        takes_event(before, r, after),
    ensures
        before.combined_queue.len() > 0 ==> {
            &&& r matches NextItem::Item(e) && e.line@ == before.combined_queue[0].line && e.stream
                == before.combined_queue[0].stream
            &&& after.combined_queue == before.combined_queue.subrange(
                1,
                before.combined_queue.len() as int,
            )
            &&& after.stdout == before.stdout
            &&& after.stderr == before.stderr
            &&& after.combined_history == before.combined_history
        },
        before.combined_queue.len() == 0 ==> after == before && (r is Ended <==> before.stdout_closed
            && before.stderr_closed) && !(r is Item),
{
}

} // verus!
