//! Byte-bounded output retention with independent reader cursors.
//!
//! Readers never remove records. Each cursor owns its position and receives an
//! explicit [`CursorRead::Gap`] when retention has moved past it.

use crate::types::StreamKind;
use crate::wire::copy_bytes;
use std::collections::VecDeque;
use vstd::prelude::*;

verus! {

/// One retained output observation.
#[derive(Clone, Debug, PartialEq, Eq)]
pub struct OutputRecord {
    /// Sequence number that the log assigned.
    pub sequence: u64,
    /// Stream that produced the bytes.
    pub stream: StreamKind,
    /// Bytes that were observed.
    pub bytes: Vec<u8>,
}

/// What an [`OutputRecord`] holds.
#[verifier::ext_equal]
pub struct RecordModel {
    /// Sequence number.
    pub sequence: u64,
    /// Stream that produced the bytes.
    pub stream: StreamKind,
    /// Bytes that were observed.
    pub bytes: Seq<u8>,
}

impl View for OutputRecord {
    type V = RecordModel;

    open spec fn view(&self) -> RecordModel {
        RecordModel { sequence: self.sequence, stream: self.stream, bytes: self.bytes@ }
    }
}

/// What advancing a cursor gave.
#[derive(Clone, Debug, PartialEq, Eq)]
pub enum CursorRead {
    /// Records before the retained window were lost.
    Gap {
        /// First sequence number that the cursor missed.
        from: u64,
        /// Last sequence number before the retained window.
        to: u64,
    },
    /// One retained record.
    Record(OutputRecord),
    /// No record is available.
    Eof,
}

/// A byte-bounded output log.
#[derive(Debug)]
pub struct OutputLog {
    capacity_bytes: usize,
    retained_bytes: usize,
    next_sequence: u64,
    records: VecDeque<OutputRecord>,
}

/// What an [`OutputLog`] holds.
#[verifier::ext_equal]
pub struct LogModel {
    /// Aggregate byte capacity.
    pub capacity: nat,
    /// Sequence number that the next append gets.
    pub next: u64,
    /// Retained records, oldest first.
    pub records: Seq<RecordModel>,
}

/// Total number of bytes in `records`.
pub open spec fn total_bytes(records: Seq<RecordModel>) -> nat
    decreases records.len(),
{
    if records.len() == 0 {
        0
    } else {
        records[0].bytes.len() + total_bytes(records.skip(1))
    }
}

/// The longest suffix of `records` that fits `capacity`.
pub open spec fn fitting_suffix(records: Seq<RecordModel>, capacity: nat) -> Seq<RecordModel>
    decreases records.len(),
{
    if total_bytes(records) <= capacity || records.len() == 0 {
        records
    } else {
        fitting_suffix(records.skip(1), capacity)
    }
}

/// Whether what is left of `records` without the first `n` fits `capacity`, and
/// with any more of them does not.
pub open spec fn longest_fitting(records: Seq<RecordModel>, capacity: nat, n: int) -> bool {
    &&& 0 <= n <= records.len()
    &&& total_bytes(records.skip(n)) <= capacity
    &&& forall|m: int| 0 <= m < n ==> total_bytes(#[trigger] records.skip(m)) > capacity
}

/// The number after `n`, staying at the largest one.
pub open spec fn next_number(n: u64) -> u64 {
    if n == u64::MAX {
        n
    } else {
        (n + 1) as u64
    }
}

impl LogModel {
    /// The log after an append. A record that does not fit empties the log; its
    /// sequence number is consumed all the same.
    pub open spec fn append(self, stream: StreamKind, bytes: Seq<u8>) -> LogModel {
        let record = RecordModel { sequence: self.next, stream, bytes };
        LogModel {
            capacity: self.capacity,
            next: next_number(self.next),
            records: if bytes.len() > self.capacity {
                Seq::empty()
            } else {
                fitting_suffix(self.records.push(record), self.capacity)
            },
        }
    }

    /// First retained sequence number, or the next one when nothing is retained.
    pub open spec fn first(self) -> u64 {
        if self.records.len() == 0 {
            self.next
        } else {
            self.records[0].sequence
        }
    }

    /// Whether record `i` is the first one with this sequence number.
    pub open spec fn holds(self, i: int, sequence: u64) -> bool {
        &&& 0 <= i < self.records.len()
        &&& self.records[i].sequence == sequence
        &&& forall|j: int| 0 <= j < i ==> (#[trigger] self.records[j]).sequence != sequence
    }

    /// Whether a cursor at `position` reads `r` and moves to `after`.
    pub open spec fn reads(self, position: u64, r: CursorRead, after: u64) -> bool {
        if position < self.first() {
            &&& r == CursorRead::Gap { from: position, to: (self.first() - 1) as u64 }
            &&& after == self.first()
        } else {
            match r {
                CursorRead::Record(record) => {
                    &&& exists|i: int| #[trigger] self.holds(i, position) && record@ == self.records[i]
                    &&& after == next_number(position)
                },
                CursorRead::Eof => {
                    &&& forall|i: int|
                        0 <= i < self.records.len() ==> (#[trigger] self.records[i]).sequence
                            != position
                    &&& after == position
                },
                CursorRead::Gap { .. } => false,
            }
        }
    }

    /// Whether the retained records carry the numbers just before the next one.
    pub open spec fn contiguous(self) -> bool {
        forall|i: int|
            0 <= i < self.records.len() ==> (#[trigger] self.records[i]).sequence + self.records.len()
                == self.next + i
    }
}

impl OutputLog {
    /// The retained records.
    pub closed spec fn record_models(&self) -> Seq<RecordModel> {
        self.records@.map_values(|r: OutputRecord| r@)
    }

    /// Whether the byte count is the bytes that are retained, and within the
    /// capacity.
    pub closed spec fn counts_bytes(&self) -> bool {
        &&& self.retained_bytes == total_bytes(self.record_models())
        &&& self.retained_bytes <= self.capacity_bytes
    }

    /// Whether the log counts its bytes and, until numbers run out, its records
    /// are numbered without a hole.
    pub open spec fn wf(&self) -> bool {
        &&& self.counts_bytes()
        &&& self@.next < u64::MAX ==> self@.contiguous()
    }
}

impl View for OutputLog {
    type V = LogModel;

    closed spec fn view(&self) -> LogModel {
        LogModel {
            capacity: self.capacity_bytes as nat,
            next: self.next_sequence,
            records: self.record_models(),
        }
    }
}

proof fn lemma_total_push(records: Seq<RecordModel>, last: RecordModel)
    ensures
        total_bytes(records.push(last)) == total_bytes(records) + last.bytes.len(),
    decreases records.len(),
{
    let longer = records.push(last);
    if records.len() == 0 {
        assert(longer.skip(1) =~= records);
    } else {
        assert(longer.skip(1) =~= records.skip(1).push(last));
        lemma_total_push(records.skip(1), last);
    }
}

impl OutputLog {
    /// A log with a fixed aggregate byte capacity.
    pub fn new(capacity_bytes: usize) -> (log: OutputLog)
        ensures
            log.wf(),
            log@ == (LogModel { capacity: capacity_bytes as nat, next: 0, records: Seq::empty() }),
    {
        let log = OutputLog {
            capacity_bytes,
            retained_bytes: 0,
            next_sequence: 0,
            records: VecDeque::new(),
        };
        assert(log.record_models() =~= Seq::<RecordModel>::empty());
        log
    }

    /// Appends bytes and gives the sequence number that they got.
    pub fn append(&mut self, stream: StreamKind, bytes: &[u8]) -> (sequence: u64)
        requires
            old(self).wf(),
        ensures
            final(self).wf(),
            sequence == old(self)@.next,
            final(self)@ == old(self)@.append(stream, bytes@),
    {
        let sequence: u64 = self.next_sequence;
        if self.next_sequence < u64::MAX {
            self.next_sequence = self.next_sequence + 1;
        }
        if bytes.len() > self.capacity_bytes {
            self.records.clear();
            self.retained_bytes = 0;
            assert(self.record_models() =~= Seq::<RecordModel>::empty());
            assert(self@ =~= old(self)@.append(stream, bytes@));
            return sequence;
        }
        let ghost before = self.record_models();
        let record = OutputRecord { sequence, stream, bytes: copy_bytes(bytes) };
        let ghost model = record@;
        let mut retained: u128 = self.retained_bytes as u128 + bytes.len() as u128;
        self.records.push_back(record);
        proof {
            assert(self.record_models() =~= before.push(model));
            lemma_total_push(before, model);
        }
        let ghost goal = fitting_suffix(self.record_models(), self.capacity_bytes as nat);
        while retained > self.capacity_bytes as u128
            invariant
                retained == total_bytes(self.record_models()),
                goal == fitting_suffix(self.record_models(), self.capacity_bytes as nat),
                self.capacity_bytes == old(self).capacity_bytes,
                self.next_sequence == next_number(old(self).next_sequence),
            decreases self.records@.len(),
        {
            let ghost models = self.record_models();
            if let Some(oldest) = self.records.pop_front() {
                proof {
                    assert(oldest@ == models[0]);
                    assert(self.record_models() =~= models.skip(1));
                }
                retained = retained - oldest.bytes.len() as u128;
            }
        }
        self.retained_bytes = retained as usize;
        proof {
            assert(self@ =~= old(self)@.append(stream, bytes@));
            if old(self)@.next < u64::MAX {
                law_append_keeps_numbers_contiguous(old(self)@, stream, bytes@);
            }
        }
        sequence
    }

    /// First retained sequence number, or the next one when nothing is retained.
    pub fn first_sequence(&self) -> (n: u64)
        ensures
            n == self@.first(),
    {
        if self.records.len() == 0 {
            self.next_sequence
        } else {
            self.records[0].sequence
        }
    }

    /// Sequence number that the next append gets.
    pub fn next_sequence(&self) -> (n: u64)
        ensures
            n == self@.next,
    {
        self.next_sequence
    }

    /// Number of bytes that are retained.
    pub fn retained_bytes(&self) -> (n: usize)
        requires
            self.wf(),
        ensures
            n == total_bytes(self@.records),
            n <= self@.capacity,
    {
        self.retained_bytes
    }

    /// Number of records that are retained.
    pub fn len(&self) -> (n: usize)
        ensures
            n == self@.records.len(),
    {
        self.records.len()
    }

    /// Whether nothing is retained.
    pub fn is_empty(&self) -> (b: bool)
        ensures
            b == (self@.records.len() == 0),
    {
        self.records.len() == 0
    }

    /// A cursor at the oldest retained record.
    pub fn cursor(&self) -> (c: OutputCursor)
        ensures
            c@ == self@.first(),
    {
        OutputCursor { next_sequence: self.first_sequence() }
    }

    /// A cursor at an explicit sequence number.
    pub fn cursor_from(&self, sequence: u64) -> (c: OutputCursor)
        ensures
            c@ == sequence,
    {
        OutputCursor { next_sequence: sequence }
    }
}

/// An independent position in an [`OutputLog`].
#[derive(Clone, Copy, Debug, PartialEq, Eq)]
pub struct OutputCursor {
    next_sequence: u64,
}

impl View for OutputCursor {
    type V = u64;

    closed spec fn view(&self) -> u64 {
        self.next_sequence
    }
}

impl OutputCursor {
    /// Sequence number that this cursor asks for next.
    pub fn position(&self) -> (n: u64)
        ensures
            n == self@,
    {
        self.next_sequence
    }

    /// Advances this cursor; the log and every other cursor stay as they are.
    pub fn read_next(&mut self, log: &OutputLog) -> (r: CursorRead)
        requires
            log.wf(),
        ensures
            log@.reads(old(self)@, r, final(self)@),
            log@.next < u64::MAX ==> (r is Eof) == (old(self)@ >= log@.next),
    {
        let first: u64 = log.first_sequence();
        let position: u64 = self.next_sequence;
        if position < first {
            self.next_sequence = first;
            return CursorRead::Gap { from: position, to: first - 1 };
        }
        let mut i: usize = 0;
        while i < log.records.len()
            invariant
                i <= log.records@.len(),
                position == self.next_sequence,
                position == old(self).next_sequence,
                position >= log@.first(),
                log.wf(),
                forall|j: int|
                    0 <= j < i ==> (#[trigger] log@.records[j]).sequence != position,
            decreases log.records@.len() - i,
        {
            let record: &OutputRecord = &log.records[i];
            assert(log@.records[i as int] == record@);
            if record.sequence == position {
                if position < u64::MAX {
                    self.next_sequence = position + 1;
                }
                let copy = OutputRecord {
                    sequence: record.sequence,
                    stream: record.stream,
                    bytes: copy_bytes(&record.bytes),
                };
                proof {
                    assert(log@.holds(i as int, position));
                    assert(copy@ == log@.records[i as int]);
                }
                return CursorRead::Record(copy);
            }
            i = i + 1;
        }
        proof {
            if log@.next < u64::MAX && position < log@.next {
                let k = log@.records.len() - (log@.next - position);
                assert(log@.records[0].sequence == log@.first());
                assert(log@.records[k].sequence == position);
            }
        }
        CursorRead::Eof
    }
}

/// Appending keeps the longest suffix of what was there and the new record that
/// fits the capacity: every longer one has too many bytes.
pub proof fn law_append_keeps_the_longest_fitting_suffix(log: LogModel, stream: StreamKind, bytes: Seq<u8>)
    ensures
        ({
            let after = log.append(stream, bytes);
            let all = log.records.push(RecordModel { sequence: log.next, stream, bytes });
            &&& total_bytes(after.records) <= log.capacity
            &&& exists|n: int| #[trigger] longest_fitting(all, log.capacity, n) && after.records
                == all.skip(n)
            &&& bytes.len() <= log.capacity ==> after.records.len() > 0 && after.records.last()
                == all.last()
        }),
{
    let all = log.records.push(RecordModel { sequence: log.next, stream, bytes });
    if bytes.len() > log.capacity {
        assert(all.skip(all.len() as int) =~= Seq::<RecordModel>::empty());
        assert forall|m: int| 0 <= m < all.len() implies total_bytes(#[trigger] all.skip(m))
            > log.capacity by {
            assert(all.skip(m) =~= all.skip(m).drop_last().push(all.last()));
            lemma_total_push(all.skip(m).drop_last(), all.last());
        }
        assert(longest_fitting(all, log.capacity, all.len() as int));
    } else {
        lemma_fitting_suffix(all, log.capacity);
    }
}

proof fn lemma_fitting_suffix(records: Seq<RecordModel>, capacity: nat)
    requires
        records.len() > 0,
        records.last().bytes.len() <= capacity,
    ensures
        ({
            let kept = fitting_suffix(records, capacity);
            &&& total_bytes(kept) <= capacity
            &&& kept.len() > 0
            &&& kept.last() == records.last()
            &&& exists|n: int| #[trigger] longest_fitting(records, capacity, n) && kept
                == records.skip(n)
        }),
    decreases records.len(),
{
    if total_bytes(records) <= capacity {
        assert(records.skip(0) =~= records);
        assert(longest_fitting(records, capacity, 0));
    } else {
        if records.len() == 1 {
            assert(records.skip(1) =~= Seq::<RecordModel>::empty());
            assert(total_bytes(records.skip(1)) == 0);
            assert(false);
        }
        let shorter = records.skip(1);
        lemma_fitting_suffix(shorter, capacity);
        let n = choose|n: int| #[trigger]
            longest_fitting(shorter, capacity, n) && fitting_suffix(shorter, capacity)
                == shorter.skip(n);
        assert(shorter.skip(n) =~= records.skip(n + 1));
        assert forall|m: int| 0 <= m < n + 1 implies total_bytes(#[trigger] records.skip(m))
            > capacity by {
            if m == 0 {
                assert(records.skip(0) =~= records);
            } else {
                assert(records.skip(m) =~= shorter.skip(m - 1));
            }
        }
        assert(longest_fitting(records, capacity, n + 1));
    }
}

/// Numbers stay contiguous as long as they do not run out.
pub proof fn law_append_keeps_numbers_contiguous(log: LogModel, stream: StreamKind, bytes: Seq<u8>)
    requires
        log.contiguous(),
        log.next < u64::MAX,
    ensures
        log.append(stream, bytes).contiguous(),
{
    let all = log.records.push(RecordModel { sequence: log.next, stream, bytes });
    law_append_keeps_the_longest_fitting_suffix(log, stream, bytes);
    let after = log.append(stream, bytes);
    let n = choose|n: int| #[trigger]
        longest_fitting(all, log.capacity, n) && after.records == all.skip(n);
    assert forall|i: int| 0 <= i < after.records.len() implies (#[trigger] after.records[i]).sequence
        + after.records.len() == after.next + i by {
        assert(after.records[i] == all[n + i]);
        if n + i < log.records.len() {
            assert(all[n + i] == log.records[n + i]);
        }
    }
}

/// A cursor behind the end of a log never loses a number in silence: it reads
/// exactly the record with the number it asks for, or a gap that ends just
/// before the retained window.
pub proof fn law_lagging_cursor_reads_record_or_gap(
    log: LogModel,
    position: u64,
    r: CursorRead,
    after: u64,
)
    requires
        log.contiguous(),
        position < log.next,
        log.reads(position, r, after),
    ensures
        match r {
            CursorRead::Gap { from, to } => from == position && to + 1 == log.first() && after
                == log.first() && position <= to,
            CursorRead::Record(record) => record@.sequence == position && after == position + 1,
            CursorRead::Eof => false,
        },
{
    if position >= log.first() {
        let i = position - log.first();
        assert(log.records[i].sequence == position);
        if let CursorRead::Record(record) = r {
            let k = choose|k: int| #[trigger] log.holds(k, position) && record@ == log.records[k];
            assert(log.records[k].sequence == position);
        }
    }
}

/// A cursor at the end of a log waits there.
pub proof fn law_cursor_at_the_end_reads_eof(log: LogModel, r: CursorRead, after: u64)
    requires
        log.contiguous(),
        log.reads(log.next, r, after),
    ensures
        r == CursorRead::Eof,
        after == log.next,
{
    if let CursorRead::Record(record) = r {
        let k = choose|k: int| #[trigger] log.holds(k, log.next) && record@ == log.records[k];
        assert(log.records[k].sequence == log.next);
    }
    if log.records.len() > 0 {
        assert(log.records[0].sequence + log.records.len() == log.next);
    }
}

/// What a cursor reads, and where it stands afterwards, depends on the log and
/// on its own position alone: no other cursor has a part in it.
pub proof fn law_cursors_are_independent(
    log: LogModel,
    position: u64,
    r: CursorRead,
    after: u64,
    other: CursorRead,
    other_after: u64,
)
    requires
        log.reads(position, r, after),
        log.reads(position, other, other_after),
    ensures
        after == other_after,
        match (r, other) {
            (CursorRead::Record(a), CursorRead::Record(b)) => a@ == b@,
            (CursorRead::Gap { from: a, to: b }, CursorRead::Gap { from: c, to: d }) => a == c && b
                == d,
            (CursorRead::Eof, CursorRead::Eof) => true,
            _ => false,
        },
{
    if position >= log.first() {
        match (r, other) {
            (CursorRead::Record(a), CursorRead::Record(b)) => {
                let i = choose|i: int| #[trigger] log.holds(i, position) && a@ == log.records[i];
                let j = choose|j: int| #[trigger] log.holds(j, position) && b@ == log.records[j];
                assert(log.records[i].sequence == log.records[j].sequence);
            },
            (CursorRead::Record(a), CursorRead::Eof) => {
                let i = choose|i: int| #[trigger] log.holds(i, position) && a@ == log.records[i];
                assert(log.records[i].sequence == position);
            },
            (CursorRead::Eof, CursorRead::Record(b)) => {
                let j = choose|j: int| #[trigger] log.holds(j, position) && b@ == log.records[j];
                assert(log.records[j].sequence == position);
            },
            _ => {},
        }
    }
}

/// An output log that several cursors read while it grows.
///
/// Threads that append and read share one log behind a lock of their own.
pub struct SharedOutputLog {
    log: OutputLog,
}

/// An independent cursor over a [`SharedOutputLog`].
#[derive(Clone)]
pub struct SharedOutputCursor {
    cursor: OutputCursor,
}

impl View for SharedOutputLog {
    type V = LogModel;

    closed spec fn view(&self) -> LogModel {
        self.log@
    }
}

impl SharedOutputLog {
    /// Whether the byte count is the bytes that are retained, and within the
    /// capacity.
    pub closed spec fn counts_bytes(&self) -> bool {
        self.log.counts_bytes()
    }

    /// Whether the log counts its bytes and, until numbers run out, its records
    /// are numbered without a hole.
    pub open spec fn wf(&self) -> bool {
        &&& self.counts_bytes()
        &&& self@.next < u64::MAX ==> self@.contiguous()
    }

    /// A shared log with a fixed aggregate byte capacity.
    pub fn new(capacity_bytes: usize) -> (log: SharedOutputLog)
        ensures
            log.wf(),
            log@ == (LogModel { capacity: capacity_bytes as nat, next: 0, records: Seq::empty() }),
    {
        SharedOutputLog { log: OutputLog::new(capacity_bytes) }
    }

    /// Appends an observation and gives the sequence number that it got.
    pub fn append(&mut self, stream: StreamKind, bytes: &[u8]) -> (sequence: u64)
        requires
            old(self).wf(),
        ensures
            final(self).wf(),
            sequence == old(self)@.next,
            final(self)@ == old(self)@.append(stream, bytes@),
    {
        self.log.append(stream, bytes)
    }

    /// A cursor at the retention boundary.
    pub fn cursor(&self) -> (c: SharedOutputCursor)
        ensures
            c@ == self@.first(),
    {
        SharedOutputCursor { cursor: self.log.cursor() }
    }

    /// Number of bytes that are retained.
    pub fn retained_bytes(&self) -> (n: usize)
        requires
            self.wf(),
        ensures
            n == total_bytes(self@.records),
            n <= self@.capacity,
    {
        self.log.retained_bytes()
    }
}

impl View for SharedOutputCursor {
    type V = u64;

    closed spec fn view(&self) -> u64 {
        self.cursor@
    }
}

impl SharedOutputCursor {
    /// Reads the next record or gap of `log`.
    pub fn read_next(&mut self, log: &SharedOutputLog) -> (r: CursorRead)
        requires
            log.wf(),
        ensures
            log@.reads(old(self)@, r, final(self)@),
            log@.next < u64::MAX ==> (r is Eof) == (old(self)@ >= log@.next),
    {
        self.cursor.read_next(&log.log)
    }

    /// Sequence number that this cursor asks for next.
    pub fn position(&self) -> (n: u64)
        ensures
            n == self@,
    {
        self.cursor.position()
    }
}

/// The bytes of a list of records are those of its parts, and one record has its own.
pub proof fn law_record_bytes_add_up(a: Seq<RecordModel>, b: Seq<RecordModel>, one: RecordModel)
    ensures
        total_bytes(Seq::empty()) == 0,
        total_bytes(seq![one]) == one.bytes.len(),
        total_bytes(a + b) == total_bytes(a) + total_bytes(b),
    decreases a.len(),
{
    reveal_with_fuel(total_bytes, 2);
    if a.len() == 0 {
        assert(a + b =~= b);
    } else {
        law_record_bytes_add_up(a.skip(1), b, one);
        assert((a + b).skip(1) =~= a.skip(1) + b);
    }
}

/// Every append takes one number, the same capacity stays, and a record that fits is
/// the newest one, with its stream, its bytes and its number. Where everything fits
/// nothing is lost, and a record that can never fit empties the log.
pub proof fn law_appends_are_numbered(log: LogModel, stream: StreamKind, bytes: Seq<u8>)
    ensures
        ({
            let after = log.append(stream, bytes);
            let record = RecordModel { sequence: log.next, stream, bytes };
            &&& log.next < u64::MAX ==> after.next == log.next + 1
            &&& log.next == u64::MAX ==> after.next == u64::MAX
            &&& after.capacity == log.capacity
            &&& total_bytes(log.records) + bytes.len() <= log.capacity ==> after.records
                == log.records.push(record)
            &&& bytes.len() > log.capacity ==> after.records.len() == 0 && after.first()
                == after.next
        }),
{
    lemma_total_push(log.records, RecordModel { sequence: log.next, stream, bytes });
}

/// A cursor at a retained record reads that very record.
pub proof fn law_cursors_read_retained_records(
    log: LogModel,
    i: int,
    r: CursorRead,
    after: u64,
)
    requires
        log.contiguous(),
        0 <= i < log.records.len(),
        log.reads(log.records[i].sequence, r, after),
    ensures
        r matches CursorRead::Record(record) && record@ == log.records[i],
{
    let position = log.records[i].sequence;
    assert(log.records[0].sequence + log.records.len() == log.next);
    assert(position + log.records.len() == log.next + i);
    match r {
        CursorRead::Record(record) => {
            let k = choose|k: int| #[trigger] log.holds(k, position) && record@ == log.records[k];
            assert(log.records[k].sequence + log.records.len() == log.next + k);
        },
        _ => {},
    }
}

} // verus!
