//! Opt-in output tees for daemon-owned sessions.
//!
//! A tee never blocks the session that it observes: a ring keeps the newest
//! bytes, and a queue counts what it could not take and reports it in the
//! stream, before the next bytes that it does take.

use crate::keyed::{
    contents, distinct_keys, lemma_contents_at, lemma_contents_domain, lemma_contents_map,
    lemma_contents_push, lemma_contents_remove, lemma_contents_update,
};
use crate::text::{append_decimal, decimal};
use crate::wire::copy_bytes;
use std::collections::VecDeque;
use vstd::prelude::*;
use vstd::string::*;
use vstd::utf8::*;

verus! {

/// Identifier of a registered tee.
#[derive(Clone, Copy, Debug, PartialEq, Eq, Hash, Structural)]
pub struct TeeHandle(u64);

impl View for TeeHandle {
    type V = u64;

    closed spec fn view(&self) -> u64 {
        self.0
    }
}

impl TeeHandle {
    /// The number of this handle.
    pub fn as_u64(self) -> (n: u64)
        ensures
            n == self@,
    {
        self.0
    }
}

/// Stream that a tee observes.
#[derive(Clone, Copy, Debug, PartialEq, Eq, Hash, Structural)]
pub enum TeeStream {
    /// Combined terminal output.
    PtyOutput,
    /// Standard output.
    Stdout,
    /// Standard error.
    Stderr,
    /// Echo of what was written to standard input.
    Stdin,
}

/// What a full tee does.
#[derive(Clone, Copy, Debug, PartialEq, Eq, Structural)]
pub enum TeeBackpressure {
    /// Never block; drop the oldest retained bytes.
    DropOldest,
}

/// Options of a tee.
#[derive(Clone, Copy, Debug, PartialEq, Eq, Structural)]
pub struct TeeOptions {
    /// What a full tee does.
    pub backpressure: TeeBackpressure,
}

impl Default for TeeOptions {
    fn default() -> (o: TeeOptions)
        ensures
            o.backpressure == TeeBackpressure::DropOldest,
    {
        TeeOptions { backpressure: TeeBackpressure::DropOldest }
    }
}

/// What a ring holds.
#[derive(Clone, Debug, PartialEq, Eq)]
pub struct TeeSnapshot {
    /// Stream that the ring observes.
    pub stream: TeeStream,
    /// Retained bytes.
    pub bytes: Vec<u8>,
    /// Number of bytes that were dropped.
    pub missed_bytes: u64,
    /// Most bytes that are retained.
    pub capacity: usize,
}

/// Item of a queued tee.
#[derive(Clone, Debug, PartialEq, Eq)]
pub enum TeeEvent {
    /// Bytes that were observed.
    Bytes(Vec<u8>),
    /// Number of bytes that were not taken before this point.
    MissedBytes(u64),
}

/// State of a tee.
#[derive(Clone, Copy, Debug, PartialEq, Eq, Structural)]
pub struct TeeStatus {
    /// Stream that the tee observes.
    pub stream: TeeStream,
    /// Number of bytes that were not retained or not taken.
    pub missed_bytes: u64,
    /// Whether the tee noticed that its receiver is gone.
    pub disconnected: bool,
}

/// How a tee file is opened.
#[derive(Clone, Copy, Debug, PartialEq, Eq, Structural)]
pub enum TeeFileMode {
    /// At its end.
    Append,
    /// Emptied.
    Truncate,
}

/// Options of a tee file.
#[derive(Clone, Copy, Debug, PartialEq, Eq, Structural)]
pub struct TeeFileOptions {
    /// How the file is opened.
    pub mode: TeeFileMode,
    /// Number of items that may wait for the writer.
    pub queue_capacity: usize,
    /// Whether missed bytes are marked in the file.
    pub write_missed_markers: bool,
}

impl Default for TeeFileOptions {
    fn default() -> (o: TeeFileOptions)
        ensures
            o == (TeeFileOptions {
                mode: TeeFileMode::Append,
                queue_capacity: 1024,
                write_missed_markers: true,
            }),
    {
        TeeFileOptions {
            mode: TeeFileMode::Append,
            queue_capacity: 1024,
            write_missed_markers: true,
        }
    }
}

/// The mark for missed bytes in a tee file.
pub open spec fn missed_marker(n: nat) -> Seq<char> {
    "\n[running-process tee missed "@ + decimal(n) + " bytes]\n"@
}

/// The bytes that an item of a queued tee adds to a file.
pub fn tee_file_bytes(event: &TeeEvent, write_missed_markers: bool) -> (bytes: Vec<u8>)
    ensures
        bytes@ == (match *event {
            TeeEvent::Bytes(b) => b@,
            TeeEvent::MissedBytes(n) => if write_missed_markers {
                encode_utf8(missed_marker(n as nat))
            } else {
                Seq::empty()
            },
        }),
{
    match event {
        TeeEvent::Bytes(b) => copy_bytes(b),
        TeeEvent::MissedBytes(n) => if write_missed_markers {
            let mut marker: String = "\n[running-process tee missed ".to_owned();
            append_decimal(&mut marker, *n as u128);
            marker.append(" bytes]\n");
            marker.as_str().as_bytes_vec()
        } else {
            Vec::new()
        },
    }
}

/// A sum that stays at the largest number.
pub open spec fn bounded_sum(a: u64, b: nat) -> u64 {
    if a + b <= u64::MAX {
        (a + b) as u64
    } else {
        u64::MAX
    }
}

fn add_bounded(a: u64, b: usize) -> (s: u64)
    ensures
        s == bounded_sum(a, b as nat),
{
    if b as u64 <= u64::MAX - a {
        a + b as u64
    } else {
        u64::MAX
    }
}

/// A ring that keeps the newest bytes.
#[derive(Clone, Debug, PartialEq, Eq)]
pub struct RingTeeSink {
    capacity: usize,
    data: VecDeque<u8>,
    missed_bytes: u64,
}

/// What a [`RingTeeSink`] holds.
#[verifier::ext_equal]
pub struct RingModel {
    /// Most bytes that are retained.
    pub capacity: nat,
    /// Retained bytes.
    pub data: Seq<u8>,
    /// Number of bytes that were dropped.
    pub missed: u64,
}

impl RingModel {
    /// Whether no more is retained than fits.
    pub open spec fn wf(self) -> bool {
        self.data.len() <= self.capacity
    }

    /// The ring after some bytes: the newest that fit stay, the others count as
    /// missed.
    pub open spec fn pushed(self, bytes: Seq<u8>) -> RingModel {
        let all = self.data + bytes;
        let dropped = if all.len() > self.capacity {
            (all.len() - self.capacity) as nat
        } else {
            0
        };
        RingModel {
            capacity: self.capacity,
            data: all.skip(dropped as int),
            missed: bounded_sum(self.missed, dropped),
        }
    }
}

impl View for RingTeeSink {
    type V = RingModel;

    closed spec fn view(&self) -> RingModel {
        RingModel {
            capacity: self.capacity as nat,
            data: self.data@,
            missed: self.missed_bytes,
        }
    }
}

impl RingTeeSink {
    /// An empty ring.
    pub fn new(capacity: usize) -> (r: RingTeeSink)
        ensures
            r@ == (RingModel { capacity: capacity as nat, data: Seq::empty(), missed: 0 }),
    {
        RingTeeSink { capacity, data: VecDeque::new(), missed_bytes: 0 }
    }

    /// Takes some bytes.
    pub fn push(&mut self, bytes: &[u8])
        requires
            old(self)@.wf(),
        ensures
            final(self)@.wf(),
            final(self)@ == old(self)@.pushed(bytes@),
    {
        let ghost all = self.data@ + bytes@;
        let ghost capacity = self.capacity as nat;
        let skip: usize = if bytes.len() > self.capacity {
            bytes.len() - self.capacity
        } else {
            0
        };
        let incoming: usize = bytes.len() - skip;
        // Room that the incoming bytes need beyond what is free.
        let free: usize = self.capacity - self.data.len();
        let overflow: usize = if incoming > free {
            incoming - free
        } else {
            0
        };
        let ghost before = self.data@;
        let mut removed: usize = 0;
        assert(before.skip(0) =~= before);
        while removed < overflow
            invariant
                removed <= overflow <= before.len(),
                self.data@ == before.skip(removed as int),
                self.capacity == old(self).capacity,
                self.missed_bytes == old(self).missed_bytes,
            decreases overflow - removed,
        {
            let _oldest = self.data.pop_front();
            assert(self.data@ =~= before.skip(removed as int + 1));
            removed = removed + 1;
        }
        self.missed_bytes = add_bounded(add_bounded(self.missed_bytes, overflow), skip);
        let ghost kept = self.data@;
        let mut i: usize = skip;
        assert(kept =~= kept + bytes@.subrange(skip as int, skip as int));
        while i < bytes.len()
            invariant
                skip <= i <= bytes@.len(),
                self.data@ == kept + bytes@.subrange(skip as int, i as int),
                self.capacity == old(self).capacity,
                self.missed_bytes == bounded_sum(
                    bounded_sum(old(self).missed_bytes, overflow as nat),
                    skip as nat,
                ),
            decreases bytes@.len() - i,
        {
            self.data.push_back(bytes[i]);
            assert(self.data@ =~= kept + bytes@.subrange(skip as int, i as int + 1));
            i = i + 1;
        }
        proof {
            let dropped = overflow + skip;
            assert(dropped == if all.len() > capacity {
                all.len() - capacity
            } else {
                0
            });
            assert(skip > 0 ==> overflow == before.len());
            assert(self.data@ =~= all.skip(dropped as int));
        }
    }

    /// The retained bytes and the number of missed ones.
    pub fn snapshot(&self) -> (r: (Vec<u8>, u64))
        ensures
            r.0@ == self@.data,
            r.1 == self@.missed,
    {
        let mut bytes: Vec<u8> = Vec::new();
        let mut i: usize = 0;
        while i < self.data.len()
            invariant
                i <= self.data@.len(),
                bytes@ == self.data@.take(i as int),
            decreases self.data@.len() - i,
        {
            bytes.push(self.data[i]);
            assert(bytes@ =~= self.data@.take(i as int + 1));
            i = i + 1;
        }
        assert(self.data@.take(self.data@.len() as int) =~= self.data@);
        (bytes, self.missed_bytes)
    }
}

/// Two writes leave a ring as one write of both would: only the newest bytes
/// and their total matter.
pub proof fn law_ring_depends_on_the_whole_stream(ring: RingModel, a: Seq<u8>, b: Seq<u8>)
    requires
        ring.wf(),
    ensures
        ring.pushed(a).pushed(b) == ring.pushed(a + b),
{
    let all = ring.data + a + b;
    assert(ring.data + (a + b) =~= all);
    let one = ring.pushed(a);
    assert(one.pushed(b).data =~= ring.pushed(a + b).data);
}

/// Retained and missed bytes add up to the bytes that were written.
pub proof fn law_ring_accounts_for_every_byte(ring: RingModel, bytes: Seq<u8>)
    requires
        ring.wf(),
        ring.missed + ring.data.len() + bytes.len() <= u64::MAX,
    ensures
        ring.pushed(bytes).wf(),
        ring.pushed(bytes).data.len() + ring.pushed(bytes).missed == ring.data.len() + ring.missed
            + bytes.len(),
        exists|n: int|
            0 <= n <= (ring.data + bytes).len() && ring.pushed(bytes).data == #[trigger] (ring.data
                + bytes).skip(n),
{
    let all = ring.data + bytes;
    let n: int = if all.len() > ring.capacity {
        all.len() - ring.capacity
    } else {
        0
    };
    assert(ring.pushed(bytes).data == all.skip(n));
}

/// A queued tee: a bounded queue between the session and a receiver. Without
/// capacity an item is only handed to a receiver that waits for one.
#[derive(Clone, Debug, PartialEq, Eq)]
pub struct EventTeeSink {
    capacity: usize,
    queue: VecDeque<TeeEvent>,
    receiver_waits: bool,
    receiver_gone: bool,
    missed_bytes: u64,
    pending_missed: u64,
    disconnected: bool,
}

/// What an item of a queued tee holds.
pub enum EventModel {
    /// Bytes that were observed.
    Bytes(Seq<u8>),
    /// Number of bytes that were not taken before this point.
    Missed(u64),
}

/// What an item of a queued tee holds.
pub open spec fn event_model(event: TeeEvent) -> EventModel {
    match event {
        TeeEvent::Bytes(b) => EventModel::Bytes(b@),
        TeeEvent::MissedBytes(n) => EventModel::Missed(n),
    }
}

/// What an [`EventTeeSink`] holds.
#[verifier::ext_equal]
pub struct QueueModel {
    /// Most items that may wait.
    pub capacity: nat,
    /// Items that wait, oldest first.
    pub queue: Seq<EventModel>,
    /// Whether the receiver waits for an item.
    pub receiver_waits: bool,
    /// Whether the receiver is gone.
    pub receiver_gone: bool,
    /// Number of bytes that were not taken.
    pub missed: u64,
    /// Number of those that were not reported yet.
    pub pending: u64,
    /// Whether the tee noticed that its receiver is gone.
    pub disconnected: bool,
}

impl QueueModel {
    /// Most items that can be on their way to the receiver.
    pub open spec fn limit(self) -> nat {
        if self.capacity == 0 {
            1
        } else {
            self.capacity
        }
    }

    /// Whether the tee holds no more than fits, a receiver waits only for an
    /// empty queue, only a receiver that is gone was noticed, and no more is to
    /// be reported than was missed.
    pub open spec fn wf(self) -> bool {
        &&& self.queue.len() <= self.limit()
        &&& self.receiver_waits ==> self.queue.len() == 0 && !self.receiver_gone
        &&& self.disconnected ==> self.receiver_gone
        &&& self.pending <= self.missed
    }

    /// The tee after bytes that it could not take.
    pub open spec fn missing(self, n: nat) -> QueueModel {
        QueueModel {
            missed: bounded_sum(self.missed, n),
            pending: bounded_sum(self.pending, n),
            ..self
        }
    }

    /// The tee after it noticed that its receiver is gone.
    pub open spec fn noticed(self) -> QueueModel {
        QueueModel { disconnected: true, ..self }
    }

    /// The tee after it queued an item.
    pub open spec fn queued(self, item: EventModel) -> QueueModel {
        QueueModel { queue: self.queue.push(item), receiver_waits: false, ..self }
    }

    /// Whether an item still fits, or a receiver waits for it.
    pub open spec fn has_room(self) -> bool {
        self.queue.len() < self.capacity || self.receiver_waits
    }

    /// The tee after its receiver found no item and waits for one.
    pub open spec fn awaited(self) -> QueueModel {
        if self.queue.len() == 0 && !self.receiver_gone {
            QueueModel { receiver_waits: true, ..self }
        } else {
            self
        }
    }

    /// The tee after its receiver went away, and what waited with it.
    pub open spec fn abandoned(self) -> QueueModel {
        QueueModel {
            receiver_gone: true,
            receiver_waits: false,
            queue: Seq::empty(),
            ..self
        }
    }

    /// The tee after some bytes. A report of what was missed goes in front of
    /// the next bytes that are taken; without room for it the bytes are missed
    /// too.
    pub open spec fn pushed(self, bytes: Seq<u8>) -> QueueModel {
        if bytes.len() == 0 {
            self
        } else if self.disconnected {
            self.missing(bytes.len())
        } else if self.receiver_gone {
            self.noticed().missing(bytes.len())
        } else if self.pending > 0 && !self.has_room() {
            self.missing(bytes.len())
        } else {
            let reported = if self.pending > 0 {
                QueueModel { pending: 0, ..self.queued(EventModel::Missed(self.pending)) }
            } else {
                self
            };
            if reported.has_room() {
                reported.queued(EventModel::Bytes(bytes))
            } else {
                reported.missing(bytes.len())
            }
        }
    }
}

impl EventTeeSink {
    /// The items that wait.
    pub closed spec fn items(&self) -> Seq<EventModel> {
        self.queue@.map_values(|e: TeeEvent| event_model(e))
    }
}

impl View for EventTeeSink {
    type V = QueueModel;

    closed spec fn view(&self) -> QueueModel {
        QueueModel {
            capacity: self.capacity as nat,
            queue: self.items(),
            receiver_waits: self.receiver_waits,
            receiver_gone: self.receiver_gone,
            missed: self.missed_bytes,
            pending: self.pending_missed,
            disconnected: self.disconnected,
        }
    }
}

impl EventTeeSink {
    /// A tee whose queue is empty.
    pub fn new(capacity: usize) -> (s: EventTeeSink)
        ensures
            s@ == (QueueModel {
                capacity: capacity as nat,
                queue: Seq::empty(),
                receiver_waits: false,
                receiver_gone: false,
                missed: 0,
                pending: 0,
                disconnected: false,
            }),
    {
        let s = EventTeeSink {
            capacity,
            queue: VecDeque::new(),
            receiver_waits: false,
            receiver_gone: false,
            missed_bytes: 0,
            pending_missed: 0,
            disconnected: false,
        };
        assert(s.items() =~= Seq::<EventModel>::empty());
        s
    }

    fn record_missed(&mut self, n: usize)
        ensures
            final(self)@ == old(self)@.missing(n as nat),
    {
        self.missed_bytes = add_bounded(self.missed_bytes, n);
        self.pending_missed = add_bounded(self.pending_missed, n);
        assert(self.items() =~= old(self).items());
    }

    fn enqueue(&mut self, event: TeeEvent)
        ensures
            final(self)@ == old(self)@.queued(event_model(event)),
    {
        self.queue.push_back(event);
        self.receiver_waits = false;
        assert(self.items() =~= old(self).items().push(event_model(event)));
    }

    fn is_open(&self) -> (b: bool)
        ensures
            b == self@.has_room(),
    {
        self.queue.len() < self.capacity || self.receiver_waits
    }

    /// Takes some bytes.
    pub fn push(&mut self, bytes: &[u8])
        requires
            old(self)@.wf(),
        ensures
            final(self)@.wf(),
            final(self)@ == old(self)@.pushed(bytes@),
    {
        proof {
            law_queue_stays_bounded(self@, bytes@);
        }
        if bytes.len() == 0 {
            return;
        }
        if self.disconnected {
            self.record_missed(bytes.len());
            return;
        }
        if self.receiver_gone {
            self.disconnected = true;
            assert(self@ =~= old(self)@.noticed());
            self.record_missed(bytes.len());
            return;
        }
        if self.pending_missed > 0 {
            if !self.is_open() {
                self.record_missed(bytes.len());
                return;
            }
            let missed: u64 = self.pending_missed;
            self.enqueue(TeeEvent::MissedBytes(missed));
            let ghost reported = self@;
            self.pending_missed = 0;
            assert(self@ =~= (QueueModel { pending: 0, ..reported }));
        }
        if !self.is_open() {
            self.record_missed(bytes.len());
            return;
        }
        self.enqueue(TeeEvent::Bytes(copy_bytes(bytes)));
    }

    /// Takes the oldest item out, for the receiver.
    pub fn take(&mut self) -> (r: Option<TeeEvent>)
        ensures
            match r {
                Some(e) => old(self)@.queue.len() > 0 && event_model(e) == old(self)@.queue[0]
                    && final(self)@ == (QueueModel { queue: old(self)@.queue.skip(1), ..old(self)@ }),
                None => old(self)@.queue.len() == 0 && final(self)@ == old(self)@,
            },
    {
        match self.queue.pop_front() {
            Some(e) => {
                assert(self.items() =~= old(self).items().skip(1));
                Some(e)
            },
            None => {
                assert(self.items() =~= old(self).items());
                None
            },
        }
    }

    /// Records that the receiver found no item and waits for one.
    pub fn await_item(&mut self)
        ensures
            final(self)@ == old(self)@.awaited(),
    {
        if self.queue.len() == 0 && !self.receiver_gone {
            self.receiver_waits = true;
        }
        assert(self.items() =~= old(self).items());
    }

    /// Records that the receiver is gone; what waited is gone with it.
    pub fn drop_receiver(&mut self)
        ensures
            final(self)@ == old(self)@.abandoned(),
    {
        self.receiver_gone = true;
        self.receiver_waits = false;
        self.queue.clear();
        assert(self.items() =~= Seq::<EventModel>::empty());
    }
}

/// Number of bytes that wait in a queue.
pub open spec fn waiting_bytes(queue: Seq<EventModel>) -> nat
    decreases queue.len(),
{
    if queue.len() == 0 {
        0
    } else {
        waiting_bytes(queue.drop_last()) + match queue.last() {
            EventModel::Bytes(b) => b.len(),
            EventModel::Missed(_) => 0,
        }
    }
}

/// Number of missed bytes that a queue reports.
pub open spec fn reported_bytes(queue: Seq<EventModel>) -> nat
    decreases queue.len(),
{
    if queue.len() == 0 {
        0
    } else {
        reported_bytes(queue.drop_last()) + match queue.last() {
            EventModel::Bytes(_) => 0,
            EventModel::Missed(n) => n as nat,
        }
    }
}

proof fn lemma_queue_sums(queue: Seq<EventModel>, item: EventModel)
    ensures
        waiting_bytes(queue.push(item)) == waiting_bytes(queue) + (match item {
            EventModel::Bytes(b) => b.len(),
            EventModel::Missed(_) => 0,
        }),
        reported_bytes(queue.push(item)) == reported_bytes(queue) + (match item {
            EventModel::Bytes(_) => 0,
            EventModel::Missed(n) => n as nat,
        }),
{
    assert(queue.push(item).drop_last() =~= queue);
}

/// Every byte that is written either waits in the queue or is counted as
/// missed, and every missed byte is either reported in the stream or pending.
pub proof fn law_queue_accounts_for_every_byte(tee: QueueModel, bytes: Seq<u8>)
    requires
        tee.pending <= tee.missed,
        tee.missed + bytes.len() <= u64::MAX,
    ensures
        ({
            let after = tee.pushed(bytes);
            &&& waiting_bytes(after.queue) + after.missed == waiting_bytes(tee.queue) + tee.missed
                + bytes.len()
            &&& reported_bytes(after.queue) + after.pending - after.missed == reported_bytes(
                tee.queue,
            ) + tee.pending - tee.missed
            &&& after.pending <= after.missed
        }),
{
    lemma_queue_sums(tee.queue, EventModel::Missed(tee.pending));
    lemma_queue_sums(tee.queue, EventModel::Bytes(bytes));
    let reported = tee.queue.push(EventModel::Missed(tee.pending));
    lemma_queue_sums(reported, EventModel::Bytes(bytes));
}

/// A queue never holds more items than its capacity; without capacity it holds
/// at most the one item that a waiting receiver is given.
pub proof fn law_queue_stays_bounded(tee: QueueModel, bytes: Seq<u8>)
    requires
        tee.wf(),
    ensures
        tee.pushed(bytes).wf(),
        tee.pushed(bytes).capacity == tee.capacity,
{
}

/// Without capacity bytes reach a receiver only while it waits: one item is
/// handed over, and whatever else is written is missed until it waits again.
pub proof fn law_a_tee_without_capacity_hands_over(tee: QueueModel, bytes: Seq<u8>)
    requires
        tee.wf(),
        tee.capacity == 0,
        !tee.receiver_gone,
        bytes.len() > 0,
    ensures
        !tee.receiver_waits ==> tee.pushed(bytes) == tee.missing(bytes.len()),
        tee.receiver_waits && tee.pending == 0 ==> tee.pushed(bytes).queue == seq![
            EventModel::Bytes(bytes),
        ] && tee.pushed(bytes).missed == tee.missed,
        tee.receiver_waits && tee.pending > 0 ==> tee.pushed(bytes).queue == seq![
            EventModel::Missed(tee.pending),
        ] && tee.pushed(bytes).missed == bounded_sum(tee.missed, bytes.len()),
        !tee.pushed(bytes).receiver_waits,
{
    assert(tee.queue.len() == 0 ==> tee.queue =~= Seq::<EventModel>::empty());
}

/// What a registered tee does with bytes.
#[derive(Clone, Debug, PartialEq, Eq)]
pub enum TeeSinkKind {
    /// Keeps the newest.
    Ring(RingTeeSink),
    /// Queues them.
    Event(EventTeeSink),
}

/// A registered tee.
#[derive(Clone, Debug, PartialEq, Eq)]
pub struct TeeSink {
    stream: TeeStream,
    kind: TeeSinkKind,
}

/// What a [`TeeSink`] holds.
pub enum SinkModel {
    /// A ring.
    Ring(RingModel),
    /// A queue.
    Event(QueueModel),
}

impl SinkModel {
    /// Whether the sink keeps its invariant.
    pub open spec fn wf(self) -> bool {
        match self {
            SinkModel::Ring(ring) => ring.wf(),
            SinkModel::Event(event) => event.wf(),
        }
    }

    /// The sink after some bytes.
    pub open spec fn pushed(self, bytes: Seq<u8>) -> SinkModel {
        match self {
            SinkModel::Ring(ring) => SinkModel::Ring(ring.pushed(bytes)),
            SinkModel::Event(event) => SinkModel::Event(event.pushed(bytes)),
        }
    }

    /// Number of missed bytes.
    pub open spec fn missed(self) -> u64 {
        match self {
            SinkModel::Ring(ring) => ring.missed,
            SinkModel::Event(event) => event.missed,
        }
    }

    /// Whether the sink noticed that its receiver is gone.
    pub open spec fn is_disconnected(self) -> bool {
        match self {
            SinkModel::Ring(_) => false,
            SinkModel::Event(event) => event.disconnected,
        }
    }
}

impl TeeSink {
    /// Stream that the tee observes.
    pub closed spec fn spec_stream(&self) -> TeeStream {
        self.stream
    }
}

impl View for TeeSink {
    type V = SinkModel;

    closed spec fn view(&self) -> SinkModel {
        match self.kind {
            TeeSinkKind::Ring(ring) => SinkModel::Ring(ring@),
            TeeSinkKind::Event(event) => SinkModel::Event(event@),
        }
    }
}

impl TeeSink {
    fn snapshot(&self) -> (r: Option<TeeSnapshot>)
        ensures
            match r {
                Some(s) => self@ matches SinkModel::Ring(ring) && s.stream == self.spec_stream()
                    && s.bytes@ == ring.data && s.missed_bytes == ring.missed && s.capacity
                    == ring.capacity,
                None => self@ is Event,
            },
    {
        match &self.kind {
            TeeSinkKind::Ring(ring) => {
                let (bytes, missed_bytes) = ring.snapshot();
                Some(
                    TeeSnapshot {
                        stream: self.stream,
                        bytes,
                        missed_bytes,
                        capacity: ring.capacity,
                    },
                )
            },
            TeeSinkKind::Event(_) => None,
        }
    }

    fn status(&self) -> (s: TeeStatus)
        ensures
            s == (TeeStatus {
                stream: self.spec_stream(),
                missed_bytes: self@.missed(),
                disconnected: self@.is_disconnected(),
            }),
    {
        match &self.kind {
            TeeSinkKind::Ring(ring) => TeeStatus {
                stream: self.stream,
                missed_bytes: ring.missed_bytes,
                disconnected: false,
            },
            TeeSinkKind::Event(event) => TeeStatus {
                stream: self.stream,
                missed_bytes: event.missed_bytes,
                disconnected: event.disconnected,
            },
        }
    }

    fn push(&mut self, bytes: &[u8])
        requires
            old(self)@.wf(),
        ensures
            final(self)@ == old(self)@.pushed(bytes@),
            final(self)@.wf(),
            final(self).spec_stream() == old(self).spec_stream(),
    {
        match &mut self.kind {
            TeeSinkKind::Ring(ring) => ring.push(bytes),
            TeeSinkKind::Event(event) => event.push(bytes),
        }
    }
}

/// What the registry knows of a tee.
#[verifier::ext_equal]
pub struct EntryModel {
    /// Stream that the tee observes.
    pub stream: TeeStream,
    /// What the tee holds.
    pub sink: SinkModel,
}

impl EntryModel {
    /// The tee after bytes on some stream.
    pub open spec fn written(self, stream: TeeStream, bytes: Seq<u8>) -> EntryModel {
        if self.stream == stream && bytes.len() > 0 {
            EntryModel { sink: self.sink.pushed(bytes), ..self }
        } else {
            self
        }
    }
}

/// The tees of one session.
#[derive(Clone, Debug, PartialEq, Eq)]
pub struct TeeRegistry {
    next_id: u64,
    sinks: Vec<(u64, TeeSink)>,
}

impl TeeRegistry {
    closed spec fn entries(&self) -> Seq<(u64, EntryModel)> {
        self.sinks@.map_values(
            |e: (u64, TeeSink)|
                (e.0, EntryModel { stream: e.1.spec_stream(), sink: e.1@ }),
        )
    }

    /// Number that the next tee gets.
    pub closed spec fn next(&self) -> u64 {
        self.next_id
    }

    /// Whether every handle is unique.
    pub closed spec fn registers_once(&self) -> bool {
        distinct_keys(self.entries())
    }

    /// Whether every handle is unique and every tee keeps its invariant.
    pub open spec fn wf(&self) -> bool {
        &&& self.registers_once()
        &&& forall|k: u64| #[trigger] self@.dom().contains(k) ==> self@[k].sink.wf()
    }
}

impl View for TeeRegistry {
    type V = Map<u64, EntryModel>;

    closed spec fn view(&self) -> Map<u64, EntryModel> {
        contents(self.entries())
    }
}

impl Default for TeeRegistry {
    fn default() -> (r: TeeRegistry)
        ensures
            r.wf(),
            r@ == Map::<u64, EntryModel>::empty(),
            r.next() == 1,
    {
        TeeRegistry::new()
    }
}

impl TeeRegistry {
    /// A registry without tees.
    pub fn new() -> (r: TeeRegistry)
        ensures
            r.wf(),
            r@ == Map::<u64, EntryModel>::empty(),
            r.next() == 1,
    {
        TeeRegistry { next_id: 1, sinks: Vec::new() }
    }

    fn find(&self, id: u64) -> (r: Option<usize>)
        requires
            self.wf(),
        ensures
            match r {
                Some(i) => i < self.sinks@.len() && self.sinks@[i as int].0 == id
                    && self@.dom().contains(id) && self@[id] == self.entries()[i as int].1,
                None => !self@.dom().contains(id),
            },
    {
        let mut i: usize = 0;
        while i < self.sinks.len()
            invariant
                i <= self.sinks@.len(),
                self.wf(),
                forall|j: int| 0 <= j < i ==> (#[trigger] self.entries()[j]).0 != id,
            decreases self.sinks@.len() - i,
        {
            assert(self.entries()[i as int].0 == self.sinks@[i as int].0);
            if self.sinks[i].0 == id {
                proof {
                    lemma_contents_at(self.entries(), i as int);
                }
                return Some(i);
            }
            i = i + 1;
        }
        proof {
            lemma_contents_domain(self.entries(), id);
        }
        None
    }

    fn detach(&mut self, id: u64) -> (removed: bool)
        requires
            old(self).wf(),
        ensures
            final(self).wf(),
            final(self)@ == old(self)@.remove(id),
            final(self).next() == old(self).next(),
            removed == old(self)@.dom().contains(id),
    {
        match self.find(id) {
            Some(i) => {
                let ghost before = self.entries();
                proof {
                    lemma_contents_remove(before, i as int);
                }
                let _gone = self.sinks.remove(i);
                assert(self.entries() =~= before.remove(i as int));
                true
            },
            None => {
                assert(self@ =~= old(self)@.remove(id));
                false
            },
        }
    }

    fn attach(&mut self, sink: TeeSink) -> (handle: TeeHandle)
        requires
            old(self).wf(),
            sink@.wf(),
        ensures
            final(self).wf(),
            handle@ == old(self).next(),
            final(self)@ == old(self)@.insert(
                handle@,
                EntryModel { stream: sink.spec_stream(), sink: sink@ },
            ),
            final(self).next() == (if old(self).next() == u64::MAX {
                0
            } else {
                (old(self).next() + 1) as u64
            }),
    {
        let id: u64 = self.next_id;
        let _replaced = self.detach(id);
        let ghost before = self.entries();
        let ghost model = EntryModel { stream: sink.spec_stream(), sink: sink@ };
        proof {
            lemma_contents_domain(before, id);
            lemma_contents_push(before, id, model);
        }
        self.next_id = if id == u64::MAX {
            0
        } else {
            id + 1
        };
        self.sinks.push((id, sink));
        assert(self.entries() =~= before.push((id, model)));
        assert(self@ =~= old(self)@.insert(id, model));
        TeeHandle(id)
    }

    /// Registers a ring for one stream.
    pub fn add_ring(&mut self, stream: TeeStream, capacity: usize) -> (handle: TeeHandle)
        requires
            old(self).wf(),
        ensures
            final(self).wf(),
            handle@ == old(self).next(),
            final(self)@ == old(self)@.insert(handle@, empty_ring(stream, capacity as nat)),
            final(self).next() == (if old(self).next() == u64::MAX {
                0
            } else {
                (old(self).next() + 1) as u64
            }),
    {
        self.add_ring_with_options(
            stream,
            capacity,
            TeeOptions { backpressure: TeeBackpressure::DropOldest },
        )
    }

    /// Registers a ring for one stream; a ring always drops its oldest bytes.
    pub fn add_ring_with_options(
        &mut self,
        stream: TeeStream,
        capacity: usize,
        options: TeeOptions,
    ) -> (handle: TeeHandle)
        requires
            old(self).wf(),
        ensures
            final(self).wf(),
            handle@ == old(self).next(),
            final(self)@ == old(self)@.insert(handle@, empty_ring(stream, capacity as nat)),
            final(self).next() == (if old(self).next() == u64::MAX {
                0
            } else {
                (old(self).next() + 1) as u64
            }),
    {
        match options.backpressure {
            TeeBackpressure::DropOldest => {
                let sink = TeeSink { stream, kind: TeeSinkKind::Ring(RingTeeSink::new(capacity)) };
                self.attach(sink)
            },
        }
    }

    /// Registers a queue for one stream; [`TeeRegistry::try_recv`] empties it.
    pub fn add_channel(&mut self, stream: TeeStream, capacity: usize) -> (handle: TeeHandle)
        requires
            old(self).wf(),
        ensures
            final(self).wf(),
            handle@ == old(self).next(),
            final(self)@ == old(self)@.insert(handle@, empty_queue(stream, capacity as nat)),
            final(self).next() == (if old(self).next() == u64::MAX {
                0
            } else {
                (old(self).next() + 1) as u64
            }),
    {
        let sink = TeeSink { stream, kind: TeeSinkKind::Event(EventTeeSink::new(capacity)) };
        self.attach(sink)
    }

    /// Removes a tee; false where there is none.
    pub fn remove(&mut self, handle: TeeHandle) -> (removed: bool)
        requires
            old(self).wf(),
        ensures
            final(self).wf(),
            final(self)@ == old(self)@.remove(handle@),
            final(self).next() == old(self).next(),
            removed == old(self)@.dom().contains(handle@),
    {
        self.detach(handle.0)
    }

    /// What a ring holds; none for another tee.
    pub fn snapshot(&self, handle: TeeHandle) -> (r: Option<TeeSnapshot>)
        requires
            self.wf(),
        ensures
            match r {
                Some(s) => {
                    &&& self@.dom().contains(handle@)
                    &&& s.stream == self@[handle@].stream
                    &&& self@[handle@].sink matches SinkModel::Ring(ring)
                    &&& s.bytes@ == ring.data
                    &&& s.missed_bytes == ring.missed
                    &&& s.capacity == ring.capacity
                },
                None => !self@.dom().contains(handle@) || self@[handle@].sink is Event,
            },
    {
        match self.find(handle.0) {
            Some(i) => self.sinks[i].1.snapshot(),
            None => None,
        }
    }

    /// State of a tee.
    pub fn status(&self, handle: TeeHandle) -> (r: Option<TeeStatus>)
        requires
            self.wf(),
        ensures
            match r {
                Some(s) => self@.dom().contains(handle@) && s == (TeeStatus {
                    stream: self@[handle@].stream,
                    missed_bytes: self@[handle@].sink.missed(),
                    disconnected: self@[handle@].sink.is_disconnected(),
                }),
                None => !self@.dom().contains(handle@),
            },
    {
        match self.find(handle.0) {
            Some(i) => Some(self.sinks[i].1.status()),
            None => None,
        }
    }

    /// Hands bytes to every tee of a stream.
    pub fn write(&mut self, stream: TeeStream, bytes: &[u8])
        requires
            old(self).wf(),
        ensures
            final(self).wf(),
            final(self).next() == old(self).next(),
            final(self)@ == old(self)@.map_values(
                |e: EntryModel| e.written(stream, bytes@),
            ),
    {
        let ghost f = |e: EntryModel| e.written(stream, bytes@);
        let ghost before = self.entries();
        let ghost sinks = self.sinks@;
        if bytes.len() == 0 || self.sinks.len() == 0 {
            proof {
                lemma_contents_map(before, before, f);
            }
            return;
        }
        let mut i: usize = 0;
        while i < self.sinks.len()
            invariant
                i <= self.sinks@.len(),
                self.sinks@.len() == sinks.len(),
                self.next_id == old(self).next_id,
                bytes@.len() > 0,
                sinks == old(self).sinks@,
                before == old(self).entries(),
                old(self).wf(),
                forall|j: int|
                    0 <= j < i ==> (#[trigger] self.sinks@[j]).0 == sinks[j].0 && self.sinks@[j].1@
                        == (EntryModel { stream: sinks[j].1.spec_stream(), sink: sinks[j].1@ })
                        .written(stream, bytes@).sink && self.sinks@[j].1.spec_stream()
                        == sinks[j].1.spec_stream(),
                forall|j: int| i <= j < sinks.len() ==> #[trigger] self.sinks@[j] == sinks[j],
            decreases sinks.len() - i,
        {
            proof {
                lemma_contents_at(before, i as int);
                assert(before[i as int].1.sink == sinks[i as int].1@);
            }
            if self.sinks[i].1.stream == stream {
                self.sinks[i].1.push(bytes);
            }
            i = i + 1;
        }
        proof {
            assert forall|j: int| 0 <= j < before.len() implies (#[trigger] self.entries()[j]) == (
                before[j].0,
                f(before[j].1),
            ) by {
                assert(self.sinks@[j].0 == sinks[j].0);
            }
            lemma_contents_map(before, self.entries(), f);
        }
    }

    /// Takes the oldest item of a queue out, for its receiver.
    pub fn try_recv(&mut self, handle: TeeHandle) -> (r: Option<TeeEvent>)
        requires
            old(self).wf(),
        ensures
            final(self).wf(),
            final(self).next() == old(self).next(),
            match r {
                Some(e) => {
                    &&& old(self)@.dom().contains(handle@)
                    &&& old(self)@[handle@].sink matches SinkModel::Event(queue)
                    &&& queue.queue.len() > 0
                    &&& event_model(e) == queue.queue[0]
                    &&& final(self)@ == old(self)@.insert(
                        handle@,
                        EntryModel {
                            stream: old(self)@[handle@].stream,
                            sink: SinkModel::Event(
                                QueueModel { queue: queue.queue.skip(1), ..queue },
                            ),
                        },
                    )
                },
                None => final(self)@ == old(self)@ && (!old(self)@.dom().contains(handle@)
                    || old(self)@[handle@].sink is Ring
                    || old(self)@[handle@].sink->Event_0.queue.len() == 0),
            },
    {
        match self.find(handle.0) {
            Some(i) => {
                let ghost before = self.entries();
                let r = match &mut self.sinks[i].1.kind {
                    TeeSinkKind::Ring(_) => None,
                    TeeSinkKind::Event(queue) => queue.take(),
                };
                proof {
                    let value = self.entries()[i as int].1;
                    lemma_contents_update(before, i as int, value);
                    assert(self.entries() =~= before.update(i as int, (before[i as int].0, value)));
                    if r is None {
                        assert(self@ =~= old(self)@);
                    }
                }
                r
            },
            None => None,
        }
    }

    /// Records that the receiver of a queue found no item and waits for one.
    pub fn await_item(&mut self, handle: TeeHandle)
        requires
            old(self).wf(),
        ensures
            final(self).wf(),
            final(self).next() == old(self).next(),
            final(self)@ == (if old(self)@.dom().contains(handle@)
                && old(self)@[handle@].sink is Event {
                old(self)@.insert(
                    handle@,
                    EntryModel {
                        stream: old(self)@[handle@].stream,
                        sink: SinkModel::Event(old(self)@[handle@].sink->Event_0.awaited()),
                    },
                )
            } else {
                old(self)@
            }),
    {
        match self.find(handle.0) {
            Some(i) => {
                let ghost before = self.entries();
                match &mut self.sinks[i].1.kind {
                    TeeSinkKind::Ring(_) => {},
                    TeeSinkKind::Event(queue) => queue.await_item(),
                }
                proof {
                    let value = self.entries()[i as int].1;
                    lemma_contents_update(before, i as int, value);
                    assert(self.entries() =~= before.update(i as int, (before[i as int].0, value)));
                    if old(self)@[handle@].sink is Ring {
                        assert(self@ =~= old(self)@);
                    }
                }
            },
            None => {},
        }
    }

    /// Records that the receiver of a queue is gone.
    pub fn drop_receiver(&mut self, handle: TeeHandle)
        requires
            old(self).wf(),
        ensures
            final(self).wf(),
            final(self).next() == old(self).next(),
            final(self)@ == (if old(self)@.dom().contains(handle@)
                && old(self)@[handle@].sink is Event {
                let queue = old(self)@[handle@].sink->Event_0;
                old(self)@.insert(
                    handle@,
                    EntryModel {
                        stream: old(self)@[handle@].stream,
                        sink: SinkModel::Event(queue.abandoned()),
                    },
                )
            } else {
                old(self)@
            }),
    {
        match self.find(handle.0) {
            Some(i) => {
                let ghost before = self.entries();
                match &mut self.sinks[i].1.kind {
                    TeeSinkKind::Ring(_) => {},
                    TeeSinkKind::Event(queue) => queue.drop_receiver(),
                }
                proof {
                    let value = self.entries()[i as int].1;
                    lemma_contents_update(before, i as int, value);
                    assert(self.entries() =~= before.update(i as int, (before[i as int].0, value)));
                    if old(self)@[handle@].sink is Ring {
                        assert(self@ =~= old(self)@);
                    }
                }
            },
            None => {},
        }
    }

    /// Whether no tee is registered.
    pub fn is_empty(&self) -> (b: bool)
        requires
            self.wf(),
        ensures
            b == (self@ == Map::<u64, EntryModel>::empty()),
    {
        proof {
            if self.sinks@.len() > 0 {
                lemma_contents_at(self.entries(), 0);
            }
        }
        self.sinks.len() == 0
    }
}

/// A ring that holds nothing yet.
pub open spec fn empty_ring(stream: TeeStream, capacity: nat) -> EntryModel {
    EntryModel {
        stream,
        sink: SinkModel::Ring(RingModel { capacity, data: Seq::empty(), missed: 0 }),
    }
}

/// A queue that holds nothing yet.
pub open spec fn empty_queue(stream: TeeStream, capacity: nat) -> EntryModel {
    EntryModel {
        stream,
        sink: SinkModel::Event(
            QueueModel {
                capacity,
                queue: Seq::empty(),
                receiver_waits: false,
                receiver_gone: false,
                missed: 0,
                pending: 0,
                disconnected: false,
            },
        ),
    }
}

/// Tees of other streams do not notice a write, and every tee of the stream
/// gets the same bytes.
pub proof fn law_write_reaches_exactly_its_stream(
    tees: Map<u64, EntryModel>,
    stream: TeeStream,
    bytes: Seq<u8>,
    handle: u64,
)
    requires
        tees.dom().contains(handle),
        bytes.len() > 0,
    ensures
        ({
            let after = tees.map_values(|e: EntryModel| e.written(stream, bytes));
            &&& after.dom().contains(handle)
            &&& tees[handle].stream != stream ==> after[handle] == tees[handle]
            &&& tees[handle].stream == stream ==> after[handle].sink == tees[handle].sink.pushed(
                bytes,
            )
        }),
{
}

/// A ring keeps the end of everything that was written, and as much of it as fits:
/// nothing is dropped while there is room.
pub proof fn law_ring_keeps_the_newest_that_fit(ring: RingModel, bytes: Seq<u8>)
    requires
        ring.wf(),
    ensures
        ({
            let after = ring.pushed(bytes);
            let all = ring.data + bytes;
            &&& after.capacity == ring.capacity
            &&& all.len() <= ring.capacity ==> after.data == all && after.missed == ring.missed
            &&& all.len() > ring.capacity ==> after.data.len() == ring.capacity && after.data
                == all.subrange(all.len() - ring.capacity, all.len() as int)
            &&& all.len() > ring.capacity && ring.missed + all.len() - ring.capacity <= u64::MAX
                ==> after.missed == ring.missed + all.len() - ring.capacity
            &&& after.missed >= ring.missed
        }),
{
    let all = ring.data + bytes;
    if all.len() <= ring.capacity {
        assert(all.skip(0) =~= all);
    } else {
        assert(ring.pushed(bytes).data =~= all.subrange(all.len() - ring.capacity, all.len() as int));
    }
}

/// Bytes that fit are queued behind what waits, and nothing counts as missed. Where
/// bytes were missed before, their report goes in front of the next bytes that are
/// taken; where only the report fits, the bytes are missed again.
pub proof fn law_queue_takes_what_fits(tee: QueueModel, bytes: Seq<u8>)
    requires
        tee.wf(),
        bytes.len() > 0,
        !tee.receiver_gone,
        tee.missed + bytes.len() <= u64::MAX,
    ensures
        ({
            let after = tee.pushed(bytes);
            let waits = tee.queue.len();
            &&& tee.pending == 0 && (waits < tee.capacity || tee.receiver_waits) ==> after.queue
                == tee.queue.push(EventModel::Bytes(bytes)) && after.missed == tee.missed
                && after.pending == 0
            &&& tee.pending > 0 && waits + 1 < tee.capacity ==> after.queue == tee.queue.push(
                EventModel::Missed(tee.pending),
            ).push(EventModel::Bytes(bytes)) && after.missed == tee.missed && after.pending == 0
            &&& tee.pending > 0 && waits + 1 == tee.capacity ==> after.queue == tee.queue.push(
                EventModel::Missed(tee.pending),
            ) && after.missed == tee.missed + bytes.len() && after.pending == bytes.len()
            &&& waits >= tee.capacity && !tee.receiver_waits ==> after.queue == tee.queue
                && after.missed == tee.missed + bytes.len() && after.pending == tee.pending
                + bytes.len()
            &&& !after.disconnected
            &&& !after.receiver_gone
        }),
{
}

/// A write that finds the receiver gone queues nothing, notices it, and counts its bytes
/// as missed; an empty write does nothing at all.
pub proof fn law_queue_notices_a_gone_receiver(tee: QueueModel, bytes: Seq<u8>)
    requires
        tee.receiver_gone,
        tee.missed + bytes.len() <= u64::MAX,
        tee.pending <= tee.missed,
    ensures
        bytes.len() > 0 ==> {
            let after = tee.pushed(bytes);
            &&& after.disconnected
            &&& after.queue == tee.queue
            &&& after.missed == tee.missed + bytes.len()
            &&& after.pending == tee.pending + bytes.len()
        },
        tee.pushed(Seq::empty()) == tee,
        tee.abandoned().receiver_gone,
        tee.abandoned().queue.len() == 0,
        tee.abandoned().disconnected == tee.disconnected,
        tee.abandoned().missed == tee.missed,
{
}

/// A receiver waits only where there is no item for it, and gets the next one.
pub proof fn law_waiting_receivers_are_served(tee: QueueModel, bytes: Seq<u8>)
    requires
        tee.wf(),
        !tee.receiver_gone,
        bytes.len() > 0,
        tee.pending == 0,
    ensures
        tee.queue.len() == 0 <==> tee.awaited().receiver_waits,
        tee.awaited().queue == tee.queue,
        tee.queue.len() == 0 ==> tee.awaited().pushed(bytes).queue == seq![
            EventModel::Bytes(bytes),
        ],
        tee.abandoned().awaited() == tee.abandoned(),
{
    assert(Seq::<EventModel>::empty().push(EventModel::Bytes(bytes)) =~= seq![
        EventModel::Bytes(bytes),
    ]);
}

/// New tees hold and have missed nothing, and observe the stream that they were made
/// for. A tee reports what its sink missed.
pub proof fn law_new_tees_are_empty(stream: TeeStream, capacity: nat)
    ensures
        empty_ring(stream, capacity).stream == stream,
        empty_queue(stream, capacity).stream == stream,
        empty_ring(stream, capacity).sink matches SinkModel::Ring(ring) && ring.data.len() == 0
            && ring.capacity == capacity,
        empty_queue(stream, capacity).sink matches SinkModel::Event(queue) && queue.queue.len() == 0
            && queue.capacity == capacity && !queue.receiver_waits && !queue.receiver_gone,
        empty_ring(stream, capacity).sink.missed() == 0,
        empty_queue(stream, capacity).sink.missed() == 0,
        !empty_ring(stream, capacity).sink.is_disconnected(),
        !empty_queue(stream, capacity).sink.is_disconnected(),
        empty_ring(stream, capacity).sink.wf(),
        empty_queue(stream, capacity).sink.wf(),
{
}

/// A sink reports its own count and its own receiver, and a write reaches what it is.
pub proof fn law_sinks_report_themselves(sink: SinkModel, bytes: Seq<u8>)
    ensures
        match sink {
            SinkModel::Ring(ring) => sink.missed() == ring.missed && !sink.is_disconnected()
                && sink.pushed(bytes) == SinkModel::Ring(ring.pushed(bytes)),
            SinkModel::Event(queue) => sink.missed() == queue.missed && sink.is_disconnected()
                == queue.disconnected && sink.pushed(bytes) == SinkModel::Event(
                queue.pushed(bytes),
            ),
        },
{
}

/// The mark for missed bytes holds their number, on a line of its own.
pub proof fn law_missed_markers_name_the_number(n: nat)
    ensures
        missed_marker(n).len() > decimal(n).len() + 2,
        missed_marker(n)[0] == '\n',
        missed_marker(n).last() == '\n',
        exists|i: int|
            0 <= i && i + decimal(n).len() <= missed_marker(n).len()
                && #[trigger] missed_marker(n).subrange(i, i + decimal(n).len()) == decimal(n),
{
    reveal_strlit("\n[running-process tee missed ");
    reveal_strlit(" bytes]\n");
    let front = "\n[running-process tee missed "@;
    assert(missed_marker(n).subrange(front.len() as int, front.len() + decimal(n).len() as int)
        =~= decimal(n));
}

} // verus!
