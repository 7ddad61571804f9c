//! Descendant tracking: walking a process tree, diffing snapshots, and the
//! events that a kernel queue reports.

use crate::host::HostNumbers;
use crate::observer::{EventCategory, ObserverEvent, ObserverEventKind};
use crate::text::{chars_of, number_within, parse_number, word_ranges, words, Blanks};
use vstd::prelude::*;

verus! {

/// Milliseconds between two snapshots.
pub const POLL_INTERVAL_MS: u64 = 50;

/// A set of process numbers.
#[derive(Clone, Debug, PartialEq, Eq)]
pub struct PidSet {
    pids: Vec<u32>,
}

impl View for PidSet {
    type V = Seq<u32>;

    closed spec fn view(&self) -> Seq<u32> {
        self.pids@
    }
}

impl PidSet {
    /// Whether no number occurs twice.
    pub open spec fn wf(&self) -> bool {
        self@.no_duplicates()
    }

    /// The empty set.
    pub fn new() -> (s: PidSet)
        ensures
            s.wf(),
            s@ == Seq::<u32>::empty(),
    {
        PidSet { pids: Vec::new() }
    }

    /// Whether `pid` is in the set.
    pub fn contains(&self, pid: u32) -> (b: bool)
        ensures
            b == self@.contains(pid),
    {
        let mut i: usize = 0;
        while i < self.pids.len()
            invariant
                i <= self.pids@.len(),
                forall|j: int| 0 <= j < i ==> self.pids@[j] != pid,
            decreases self.pids@.len() - i,
        {
            if self.pids[i] == pid {
                assert(self@[i as int] == pid);
                return true;
            }
            i = i + 1;
        }
        false
    }

    /// The numbers of `list`, each once.
    pub fn from_list(list: &[u32]) -> (s: PidSet)
        ensures
            s.wf(),
            forall|pid: u32| s@.contains(pid) <==> list@.contains(pid),
    {
        let mut s = PidSet::new();
        let mut i: usize = 0;
        while i < list.len()
            invariant
                i <= list@.len(),
                s.wf(),
                forall|pid: u32| s@.contains(pid) <==> list@.take(i as int).contains(pid),
            decreases list@.len() - i,
        {
            let pid: u32 = list[i];
            let ghost before = s@;
            let ghost seen = list@.take(i as int);
            if !s.contains(pid) {
                s.pids.push(pid);
                assert(s@ == before.push(pid));
            }
            proof {
                assert(list@.take(i as int + 1) =~= seen.push(pid));
                assert forall|p: u32| s@.contains(p) <==> seen.push(pid).contains(p) by {
                    lemma_push_contains(seen, pid, p);
                    lemma_push_contains(before, pid, p);
                }
            }
            i = i + 1;
        }
        assert(list@.take(list@.len() as int) =~= list@);
        s
    }
}

proof fn lemma_push_contains(s: Seq<u32>, last: u32, p: u32)
    ensures
        s.push(last).contains(p) <==> s.contains(p) || p == last,
{
    let longer = s.push(last);
    if s.contains(p) {
        let i = choose|i: int| 0 <= i < s.len() && s[i] == p;
        assert(longer[i] == p);
    }
    if p == last {
        assert(longer[s.len() as int] == p);
    }
    if longer.contains(p) {
        let i = choose|i: int| 0 <= i < longer.len() && longer[i] == p;
        if i < s.len() {
            assert(s[i] == p);
        }
    }
}

/// The members of `a` that are not in `b`, in order.
pub open spec fn missing_from(a: Seq<u32>, b: Seq<u32>) -> Seq<u32>
    decreases a.len(),
{
    if a.len() == 0 {
        Seq::empty()
    } else {
        let front = missing_from(a.drop_last(), b);
        if b.contains(a.last()) {
            front
        } else {
            front.push(a.last())
        }
    }
}

/// One descendant event.
pub open spec fn descendant_event(kind: ObserverEventKind, pid: u32, now: u128) -> ObserverEvent {
    ObserverEvent { category: EventCategory::Process, kind, pid, timestamp_ms: now }
}

/// Events of one kind, one per process.
pub open spec fn descendant_events(pids: Seq<u32>, kind: ObserverEventKind, now: u128) -> Seq<
    ObserverEvent,
> {
    pids.map_values(|pid: u32| descendant_event(kind, pid, now))
}

/// The events of two snapshots: a start for each new process, then an exit for
/// each one that is gone.
pub open spec fn diff_events(prev: Seq<u32>, current: Seq<u32>, now: u128) -> Seq<ObserverEvent> {
    descendant_events(missing_from(current, prev), ObserverEventKind::DescendantStarted, now)
        + descendant_events(missing_from(prev, current), ObserverEventKind::DescendantExited, now)
}

fn append_missing(
    a: &PidSet,
    b: &PidSet,
    kind: ObserverEventKind,
    sink: &mut Vec<ObserverEvent>,
    now: u128,
)
    ensures
        final(sink)@ == old(sink)@ + descendant_events(missing_from(a@, b@), kind, now),
{
    let mut i: usize = 0;
    assert(a@.take(0) =~= Seq::<u32>::empty());
    assert(sink@ =~= old(sink)@ + descendant_events(missing_from(a@.take(0), b@), kind, now));
    while i < a.pids.len()
        invariant
            i <= a.pids@.len(),
            sink@ == old(sink)@ + descendant_events(
                missing_from(a@.take(i as int), b@),
                kind,
                now,
            ),
        decreases a.pids@.len() - i,
    {
        let pid: u32 = a.pids[i];
        proof {
            assert(a@.take(i as int + 1).drop_last() =~= a@.take(i as int));
        }
        if !b.contains(pid) {
            let event = ObserverEvent {
                category: EventCategory::Process,
                kind,
                pid,
                timestamp_ms: now,
            };
            sink.push(event);
            proof {
                let front = missing_from(a@.take(i as int), b@);
                assert(descendant_events(front.push(pid), kind, now) =~= descendant_events(
                    front,
                    kind,
                    now,
                ).push(event));
                assert(sink@ =~= old(sink)@ + descendant_events(front.push(pid), kind, now));
            }
        }
        i = i + 1;
    }
    assert(a@.take(a@.len() as int) =~= a@);
}

/// Reports what changed between two snapshots.
pub fn emit_diff(prev: &PidSet, current: &PidSet, sink: &mut Vec<ObserverEvent>, now: u128)
    ensures
        final(sink)@ == old(sink)@ + diff_events(prev@, current@, now),
{
    append_missing(current, prev, ObserverEventKind::DescendantStarted, sink, now);
    append_missing(prev, current, ObserverEventKind::DescendantExited, sink, now);
    assert(sink@ =~= old(sink)@ + diff_events(prev@, current@, now));
}

/// A tracker of the descendants of one process.
#[derive(Clone, Debug, PartialEq, Eq)]
pub struct DescendantPump {
    known: PidSet,
}

impl View for DescendantPump {
    type V = Seq<u32>;

    closed spec fn view(&self) -> Seq<u32> {
        self.known@
    }
}

impl DescendantPump {
    /// Whether no process is tracked twice.
    pub closed spec fn wf(&self) -> bool {
        self.known.wf()
    }

    /// A tracker that knows no descendant yet.
    pub fn new() -> (p: DescendantPump)
        ensures
            p.wf(),
            p@ == Seq::<u32>::empty(),
    {
        DescendantPump { known: PidSet::new() }
    }

    /// Takes the snapshot of one round in which the root was alive.
    pub fn observe(&mut self, snapshot: &[u32], sink: &mut Vec<ObserverEvent>, now: u128)
        requires
            old(self).wf(),
        ensures
            final(self).wf(),
            forall|pid: u32| final(self)@.contains(pid) <==> snapshot@.contains(pid),
            final(sink)@ == old(sink)@ + diff_events(old(self)@, final(self)@, now),
    {
        let current = PidSet::from_list(snapshot);
        emit_diff(&self.known, &current, sink, now);
        self.known = current;
    }

    /// Ends tracking because the root is gone: every descendant that is still
    /// tracked is reported as exited.
    pub fn finish(&mut self, sink: &mut Vec<ObserverEvent>, now: u128)
        ensures
            final(self).wf(),
            final(self)@ == Seq::<u32>::empty(),
            final(sink)@ == old(sink)@ + descendant_events(
                old(self)@,
                ObserverEventKind::DescendantExited,
                now,
            ),
    {
        let none = PidSet::new();
        append_missing(&self.known, &none, ObserverEventKind::DescendantExited, sink, now);
        proof {
            lemma_missing_from_nothing(self.known@);
            assert(none@ =~= Seq::<u32>::empty());
        }
        self.known = none;
    }
}

proof fn lemma_missing_from_nothing(a: Seq<u32>)
    ensures
        missing_from(a, Seq::empty()) == a,
    decreases a.len(),
{
    if a.len() > 0 {
        lemma_missing_from_nothing(a.drop_last());
        assert(a.drop_last().push(a.last()) =~= a);
    } else {
        assert(a =~= Seq::<u32>::empty());
    }
}

/// Number of members of `s` that are in `b`.
pub open spec fn count_of(s: Seq<u32>, b: Seq<u32>) -> nat
    decreases s.len(),
{
    if s.len() == 0 {
        0
    } else {
        count_of(s.drop_last(), b) + if b.contains(s.last()) {
            1nat
        } else {
            0nat
        }
    }
}

proof fn lemma_missing_len(a: Seq<u32>, b: Seq<u32>)
    ensures
        missing_from(a, b).len() + count_of(a, b) == a.len(),
    decreases a.len(),
{
    if a.len() > 0 {
        lemma_missing_len(a.drop_last(), b);
    }
}

proof fn lemma_count_is_intersection(a: Seq<u32>, b: Seq<u32>)
    requires
        a.no_duplicates(),
    ensures
        count_of(a, b) == a.to_set().intersect(b.to_set()).len(),
    decreases a.len(),
{
    if a.len() == 0 {
        assert(a.to_set().intersect(b.to_set()) =~= Set::<u32>::empty());
    } else {
        let front = a.drop_last();
        let last = a.last();
        lemma_count_is_intersection(front, b);
        assert(front.push(last) =~= a);
        assert(a.to_set() =~= front.to_set().insert(last)) by {
            assert forall|p: u32| a.to_set().contains(p) <==> front.to_set().insert(last).contains(
                p,
            ) by {
                lemma_push_contains(front, last, p);
            }
        }
        assert(!front.contains(last));
        let small = front.to_set().intersect(b.to_set());
        let big = a.to_set().intersect(b.to_set());
        vstd::seq_lib::seq_to_set_is_finite(front);
        if b.contains(last) {
            assert(big =~= small.insert(last));
        } else {
            assert(big =~= small);
        }
    }
}

/// Starts minus exits of one round is the growth of the snapshot, so that over
/// a whole run, with the exits at its end, starts and exits balance.
pub proof fn law_diff_balances(prev: Seq<u32>, current: Seq<u32>)
    requires
        prev.no_duplicates(),
        current.no_duplicates(),
    ensures
        missing_from(current, prev).len() - missing_from(prev, current).len() == current.len()
            - prev.len(),
{
    lemma_missing_len(prev, current);
    lemma_missing_len(current, prev);
    lemma_count_is_intersection(prev, current);
    lemma_count_is_intersection(current, prev);
    assert(prev.to_set().intersect(current.to_set()) =~= current.to_set().intersect(prev.to_set()));
}

/// Two equal snapshots report nothing.
pub proof fn law_steady_state_is_silent(pids: Seq<u32>, now: u128)
    ensures
        diff_events(pids, pids, now) == Seq::<ObserverEvent>::empty(),
{
    lemma_missing_from_superset(pids, pids);
    assert(diff_events(pids, pids, now) =~= Seq::<ObserverEvent>::empty());
}

proof fn lemma_missing_from_superset(a: Seq<u32>, b: Seq<u32>)
    requires
        forall|i: int| 0 <= i < a.len() ==> b.contains(#[trigger] a[i]),
    ensures
        missing_from(a, b) == Seq::<u32>::empty(),
    decreases a.len(),
{
    if a.len() > 0 {
        assert(b.contains(a[a.len() - 1]));
        assert forall|i: int| 0 <= i < a.drop_last().len() implies b.contains(
            #[trigger] a.drop_last()[i],
        ) by {
            assert(b.contains(a[i]));
        }
        lemma_missing_from_superset(a.drop_last(), b);
    }
}

/// The process numbers among some words; other words are passed over.
pub open spec fn pids_in(tokens: Seq<Seq<char>>) -> Seq<u32>
    decreases tokens.len(),
{
    if tokens.len() == 0 {
        Seq::empty()
    } else {
        let front = pids_in(tokens.drop_last());
        match number_within(tokens.last(), u32::MAX as nat) {
            Some(n) => front.push(n as u32),
            None => front,
        }
    }
}

/// The process numbers that a list of children names.
pub fn parse_children(contents: &str) -> (pids: Vec<u32>)
    ensures
        pids@ == pids_in(words(Blanks::Ascii, contents@)),
{
    let chars = chars_of(contents);
    let ranges = word_ranges(&chars, Blanks::Ascii);
    let ghost tokens = words(Blanks::Ascii, contents@);
    let mut pids: Vec<u32> = Vec::new();
    let mut i: usize = 0;
    assert(tokens.take(0) =~= Seq::<Seq<char>>::empty());
    while i < ranges.len()
        invariant
            i <= ranges@.len(),
            chars@ == contents@,
            tokens == words(Blanks::Ascii, contents@),
            crate::text::are_words(ranges@, chars@, Blanks::Ascii),
            pids@ == pids_in(tokens.take(i as int)),
        decreases ranges@.len() - i,
    {
        let (from, to) = ranges[i];
        proof {
            assert(ranges@[i as int].0 < ranges@[i as int].1);
            assert(tokens.take(i as int + 1).drop_last() =~= tokens.take(i as int));
            assert(chars@.subrange(from as int, to as int) == tokens[i as int]);
        }
        if let Some(n) = parse_number(&chars[from..to], u32::MAX as u64) {
            pids.push(n as u32);
        }
        i = i + 1;
    }
    assert(tokens.take(tokens.len() as int) =~= tokens);
    pids
}

/// A walk over a process tree: the caller reads the children of the process
/// that [`Self::next`] names and hands the text, or its absence, to
/// [`Self::feed`].
#[derive(Clone, Debug, PartialEq, Eq)]
pub struct DescendantWalk {
    pending: Vec<u32>,
    found: Vec<u32>,
}

impl DescendantWalk {
    /// Processes whose children are still to be read, the next one last.
    pub closed spec fn pending(&self) -> Seq<u32> {
        self.pending@
    }

    /// Descendants that were found.
    pub closed spec fn found(&self) -> Seq<u32> {
        self.found@
    }

    /// A walk that starts at `root`.
    pub fn new(root: u32) -> (w: DescendantWalk)
        ensures
            w.pending() == seq![root],
            w.found() == Seq::<u32>::empty(),
    {
        let mut pending: Vec<u32> = Vec::new();
        pending.push(root);
        assert(pending@ =~= seq![root]);
        DescendantWalk { pending, found: Vec::new() }
    }

    /// The process whose children are to be read next; `None` at the end.
    pub fn next(&mut self) -> (r: Option<u32>)
        ensures
            final(self).found() == old(self).found(),
            match r {
                Some(pid) => old(self).pending().len() > 0 && pid == old(self).pending().last()
                    && final(self).pending() == old(self).pending().drop_last(),
                None => old(self).pending().len() == 0 && final(self).pending() == old(
                    self,
                ).pending(),
            },
    {
        let r = self.pending.pop();
        assert(r is Some ==> self.pending@ =~= old(self).pending().drop_last());
        r
    }

    /// Takes the children of one process; a process that vanished has none.
    pub fn feed(&mut self, contents: Option<&str>)
        ensures
            ({
                let children = match contents {
                    Some(text) => pids_in(words(Blanks::Ascii, text@)),
                    None => Seq::empty(),
                };
                &&& final(self).pending() == old(self).pending() + children
                &&& final(self).found() == old(self).found() + children
            }),
    {
        match contents {
            None => {
                assert(self.pending@ + Seq::<u32>::empty() =~= self.pending@);
                assert(self.found@ + Seq::<u32>::empty() =~= self.found@);
            },
            Some(text) => {
                let children = parse_children(text);
                let mut i: usize = 0;
                assert(self.pending@ =~= old(self).pending() + children@.take(0));
                assert(self.found@ =~= old(self).found() + children@.take(0));
                while i < children.len()
                    invariant
                        i <= children@.len(),
                        self.pending@ == old(self).pending() + children@.take(i as int),
                        self.found@ == old(self).found() + children@.take(i as int),
                    decreases children@.len() - i,
                {
                    self.found.push(children[i]);
                    self.pending.push(children[i]);
                    assert(self.pending@ =~= old(self).pending() + children@.take(i as int + 1));
                    assert(self.found@ =~= old(self).found() + children@.take(i as int + 1));
                    i = i + 1;
                }
                assert(children@.take(children@.len() as int) =~= children@);
            },
        }
    }

    /// The descendants that were found.
    pub fn into_found(self) -> (found: Vec<u32>)
        ensures
            found@ == self.found(),
    {
        self.found
    }
}

/// Whether a process is the root of a walk or was found by it.
pub open spec fn reached(root: u32, found: Seq<u32>, pid: u32) -> bool {
    pid == root || found.contains(pid)
}

/// What holds of a walk all along, where every process keeps its children: what
/// waits was reached, what was found is a child of what was reached, and the
/// children of what was reached were found, unless it still waits.
pub open spec fn walk_sound(
    root: u32,
    children: spec_fn(u32) -> Seq<u32>,
    pending: Seq<u32>,
    found: Seq<u32>,
) -> bool {
    &&& forall|pid: u32| #[trigger] pending.contains(pid) ==> reached(root, found, pid)
    &&& forall|child: u32| #[trigger]
        found.contains(child) ==> exists|pid: u32|
            reached(root, found, pid) && (#[trigger] children(pid)).contains(child)
    &&& forall|pid: u32, child: u32|
        reached(root, found, pid) && (#[trigger] children(pid).contains(child))
            ==> pending.contains(pid) || found.contains(child)
}

/// A walk over processes that keep their children finds the descendants of its
/// root: it begins sound, each step keeps it so, and at the end the children of
/// whatever was reached were found.
pub proof fn law_walk_finds_the_descendants(
    root: u32,
    children: spec_fn(u32) -> Seq<u32>,
    pending: Seq<u32>,
    found: Seq<u32>,
)
    ensures
        walk_sound(root, children, seq![root], Seq::empty()),
        walk_sound(root, children, pending, found) && pending.len() > 0 ==> walk_sound(
            root,
            children,
            pending.drop_last() + children(pending.last()),
            found + children(pending.last()),
        ),
        walk_sound(root, children, pending, found) && pending.len() == 0 ==> forall|
            pid: u32,
            child: u32,
        |
            reached(root, found, pid) && (#[trigger] children(pid).contains(child))
                ==> found.contains(child),
{
    assert(walk_sound(root, children, seq![root], Seq::empty())) by {
        assert(seq![root][0] == root);
    }
    if walk_sound(root, children, pending, found) && pending.len() > 0 {
        let at = pending.last();
        let kids = children(at);
        let after = pending.drop_last() + kids;
        let all = found + kids;
        assert(pending[pending.len() - 1] == at);
        assert(pending.contains(at));
        lemma_concat_contains(found, kids);
        lemma_concat_contains(pending.drop_last(), kids);
        assert(forall|pid: u32| #[trigger]
            pending.contains(pid) ==> pid == at || pending.drop_last().contains(pid)) by {
            lemma_last_or_front(pending);
        }
        assert forall|pid: u32| #[trigger] after.contains(pid) implies reached(root, all, pid) by {
            if pending.drop_last().contains(pid) {
                lemma_front_contained(pending, pid);
            }
        }
        assert forall|child: u32| #[trigger] all.contains(child) implies exists|pid: u32|
            reached(root, all, pid) && (#[trigger] children(pid)).contains(child) by {
            if found.contains(child) {
                let pid = choose|pid: u32|
                    reached(root, found, pid) && (#[trigger] children(pid)).contains(child);
                assert(reached(root, all, pid) && children(pid).contains(child));
            } else {
                assert(reached(root, all, at) && children(at).contains(child));
            }
        }
        assert forall|pid: u32, child: u32|
            reached(root, all, pid) && (#[trigger] children(pid).contains(child)) implies after.contains(
            pid,
        ) || all.contains(child) by {
            if reached(root, found, pid) {
                if pid == at {
                    assert(kids.contains(child));
                }
            } else {
                assert(kids.contains(pid));
            }
        }
    }
}

proof fn lemma_concat_contains(a: Seq<u32>, b: Seq<u32>)
    ensures
        forall|x: u32| #[trigger] (a + b).contains(x) <==> a.contains(x) || b.contains(x),
{
    assert forall|x: u32| #[trigger] (a + b).contains(x) <==> a.contains(x) || b.contains(x) by {
        if (a + b).contains(x) {
            let i = choose|i: int| 0 <= i < (a + b).len() && (a + b)[i] == x;
            if i < a.len() {
                assert(a[i] == x);
            } else {
                assert(b[i - a.len()] == x);
            }
        }
        if a.contains(x) {
            let i = choose|i: int| 0 <= i < a.len() && a[i] == x;
            assert((a + b)[i] == x);
        }
        if b.contains(x) {
            let i = choose|i: int| 0 <= i < b.len() && b[i] == x;
            assert((a + b)[a.len() + i] == x);
        }
    }
}

proof fn lemma_last_or_front(s: Seq<u32>)
    requires
        s.len() > 0,
    ensures
        forall|x: u32| #[trigger] s.contains(x) ==> x == s.last() || s.drop_last().contains(x),
{
    assert forall|x: u32| #[trigger] s.contains(x) implies x == s.last() || s.drop_last().contains(
        x,
    ) by {
        let i = choose|i: int| 0 <= i < s.len() && s[i] == x;
        if i < s.len() - 1 {
            assert(s.drop_last()[i] == x);
        }
    }
}

proof fn lemma_front_contained(s: Seq<u32>, x: u32)
    requires
        s.len() > 0,
        s.drop_last().contains(x),
    ensures
        s.contains(x),
{
    let i = choose|i: int| 0 <= i < s.drop_last().len() && s.drop_last()[i] == x;
    assert(s[i] == x);
}

/// One note of a kernel process queue.
#[derive(Clone, Copy, Debug, PartialEq, Eq, Structural)]
pub struct QueueNote {
    /// Process that the note is about.
    pub pid: u32,
    /// It is a new child of a tracked process.
    pub child: bool,
    /// A fork could not be tracked.
    pub track_error: bool,
    /// It exited.
    pub exit: bool,
}

/// The event that a note reports, if any: the root's own exit is none.
pub open spec fn note_event(note: QueueNote, root: u32, now: u128) -> Option<ObserverEvent> {
    if note.child {
        Some(descendant_event(ObserverEventKind::DescendantStarted, note.pid, now))
    } else if note.track_error {
        None
    } else if note.exit && note.pid != root {
        Some(descendant_event(ObserverEventKind::DescendantExited, note.pid, now))
    } else {
        None
    }
}

/// Whether a note reports that the root exited.
pub open spec fn ends_tracking(note: QueueNote, root: u32) -> bool {
    !note.child && !note.track_error && note.exit && note.pid == root
}

/// The events of a batch of notes.
pub open spec fn batch_events(notes: Seq<QueueNote>, root: u32, now: u128) -> Seq<ObserverEvent>
    decreases notes.len(),
{
    if notes.len() == 0 {
        Seq::empty()
    } else {
        let front = batch_events(notes.drop_last(), root, now);
        match note_event(notes.last(), root, now) {
            Some(event) => front.push(event),
            None => front,
        }
    }
}

/// Reports a batch of notes; the result says whether the root exited, so that
/// tracking ends after the batch.
pub fn take_notes(notes: &[QueueNote], root: u32, sink: &mut Vec<ObserverEvent>, now: u128) -> (ended:
    bool)
    ensures
        final(sink)@ == old(sink)@ + batch_events(notes@, root, now),
        ended == exists|i: int| 0 <= i < notes@.len() && ends_tracking(#[trigger] notes@[i], root),
{
    let mut ended: bool = false;
    let mut i: usize = 0;
    assert(notes@.take(0) =~= Seq::<QueueNote>::empty());
    assert(sink@ =~= old(sink)@ + batch_events(notes@.take(0), root, now));
    while i < notes.len()
        invariant
            i <= notes@.len(),
            sink@ == old(sink)@ + batch_events(notes@.take(i as int), root, now),
            ended == exists|j: int| 0 <= j < i && ends_tracking(#[trigger] notes@[j], root),
        decreases notes@.len() - i,
    {
        let note: QueueNote = notes[i];
        let ghost front = batch_events(notes@.take(i as int), root, now);
        proof {
            assert(notes@.take(i as int + 1).drop_last() =~= notes@.take(i as int));
        }
        if note.child {
            sink.push(
                ObserverEvent {
                    category: EventCategory::Process,
                    kind: ObserverEventKind::DescendantStarted,
                    pid: note.pid,
                    timestamp_ms: now,
                },
            );
        } else if !note.track_error && note.exit {
            if note.pid == root {
                ended = true;
                assert(ends_tracking(notes@[i as int], root));
            } else {
                sink.push(
                    ObserverEvent {
                        category: EventCategory::Process,
                        kind: ObserverEventKind::DescendantExited,
                        pid: note.pid,
                        timestamp_ms: now,
                    },
                );
            }
        }
        assert(sink@ =~= old(sink)@ + batch_events(notes@.take(i as int + 1), root, now));
        i = i + 1;
    }
    assert(notes@.take(notes@.len() as int) =~= notes@);
    ended
}

/// What to do after a wait on the kernel's queue.
#[derive(Clone, Copy, Debug, PartialEq, Eq, Structural)]
pub enum QueueTurn {
    /// Wait again.
    Again,
    /// Stop tracking.
    Stop,
    /// Take this many notes.
    Take(u32),
}

/// Decides what follows a wait that gave a count of notes, or a negative number
/// and an error. A signal is no reason to stop; any other error is.
pub fn queue_turn(count: i32, error: Option<i32>, numbers: HostNumbers) -> (t: QueueTurn)
    ensures
        t == (if count < 0 {
            if error == Some(numbers.interrupted) {
                QueueTurn::Again
            } else {
                QueueTurn::Stop
            }
        } else if count == 0 {
            QueueTurn::Again
        } else {
            QueueTurn::Take(count as u32)
        }),
{
    if count < 0 {
        match error {
            Some(code) => if code == numbers.interrupted {
                QueueTurn::Again
            } else {
                QueueTurn::Stop
            },
            None => QueueTurn::Stop,
        }
    } else if count == 0 {
        QueueTurn::Again
    } else {
        QueueTurn::Take(count as u32)
    }
}

/// What a registration with the kernel's queue gave: the error of the call itself,
/// else the error that the kernel noted in the entry, where it noted one other
/// than zero.
pub fn register_for_tracking(call_error: Option<i32>, entry_failed: bool, entry_error: i32) -> (r:
    Result<(), i32>)
    ensures
        r == (match call_error {
            Some(code) => Err::<(), i32>(code),
            None => if entry_failed && entry_error != 0 {
                Err(entry_error)
            } else {
                Ok(())
            },
        }),
{
    match call_error {
        Some(code) => Err(code),
        None => if entry_failed && entry_error != 0 {
            Err(entry_error)
        } else {
            Ok(())
        },
    }
}

proof fn lemma_missing_members(a: Seq<u32>, b: Seq<u32>)
    ensures
        forall|pid: u32| #[trigger]
            missing_from(a, b).contains(pid) <==> a.contains(pid) && !b.contains(pid),
    decreases a.len(),
{
    if a.len() > 0 {
        lemma_missing_members(a.drop_last(), b);
        let front = missing_from(a.drop_last(), b);
        assert forall|pid: u32| #[trigger] missing_from(a, b).contains(pid) <==> a.contains(pid)
            && !b.contains(pid) by {
            lemma_push_contains(front, a.last(), pid);
            lemma_push_contains(a.drop_last(), a.last(), pid);
            assert(a =~= a.drop_last().push(a.last()));
        }
    }
}

/// Two snapshots report a start for every process that is new and for no other, and an
/// exit for every process that is gone and for no other; all starts come before all
/// exits, each with the time of the later snapshot.
pub proof fn law_diff_reports_what_changed(prev: Seq<u32>, current: Seq<u32>, now: u128, pid: u32)
    ensures
        diff_events(prev, current, now).contains(
            ObserverEvent {
                category: EventCategory::Process,
                kind: ObserverEventKind::DescendantStarted,
                pid,
                timestamp_ms: now,
            },
        ) <==> current.contains(pid) && !prev.contains(pid),
        diff_events(prev, current, now).contains(
            ObserverEvent {
                category: EventCategory::Process,
                kind: ObserverEventKind::DescendantExited,
                pid,
                timestamp_ms: now,
            },
        ) <==> prev.contains(pid) && !current.contains(pid),
        forall|i: int, j: int|
            0 <= i < j < diff_events(prev, current, now).len() && (#[trigger] diff_events(
                prev,
                current,
                now,
            )[j]).kind == ObserverEventKind::DescendantStarted ==> (#[trigger] diff_events(
                prev,
                current,
                now,
            )[i]).kind == ObserverEventKind::DescendantStarted,
        forall|i: int|
            0 <= i < diff_events(prev, current, now).len() ==> {
                let event = #[trigger] diff_events(prev, current, now)[i];
                &&& event.category == EventCategory::Process
                &&& event.timestamp_ms == now
                &&& event.kind == ObserverEventKind::DescendantStarted || event.kind
                    == ObserverEventKind::DescendantExited
            },
{
    lemma_missing_members(current, prev);
    lemma_missing_members(prev, current);
    let new = missing_from(current, prev);
    let gone = missing_from(prev, current);
    let events = diff_events(prev, current, now);
    let n = new.len();
    assert forall|i: int| 0 <= i < events.len() implies #[trigger] events[i] == (if i < n {
        descendant_event(ObserverEventKind::DescendantStarted, new[i], now)
    } else {
        descendant_event(ObserverEventKind::DescendantExited, gone[i - n], now)
    }) by {}
    let start = descendant_event(ObserverEventKind::DescendantStarted, pid, now);
    let exit = descendant_event(ObserverEventKind::DescendantExited, pid, now);
    if new.contains(pid) {
        let k = choose|k: int| 0 <= k < new.len() && new[k] == pid;
        assert(events[k] == start);
    }
    if events.contains(start) {
        let k = choose|k: int| 0 <= k < events.len() && events[k] == start;
        assert(new[k] == pid);
    }
    if gone.contains(pid) {
        let k = choose|k: int| 0 <= k < gone.len() && gone[k] == pid;
        assert(events[n + k] == exit);
    }
    if events.contains(exit) {
        let k = choose|k: int| 0 <= k < events.len() && events[k] == exit;
        assert(gone[k - n] == pid);
    }
}

/// The numbers among some words are those of its parts in order: a word that is a
/// process number gives it, and every other word gives nothing.
pub proof fn law_children_are_read_in_order(a: Seq<Seq<char>>, b: Seq<Seq<char>>, word: Seq<char>)
    ensures
        pids_in(a + b) == pids_in(a) + pids_in(b),
        number_within(word, u32::MAX as nat) matches Some(n) ==> pids_in(seq![word]) == seq![
            n as u32,
        ],
        number_within(word, u32::MAX as nat) is None ==> pids_in(seq![word]).len() == 0,
        pids_in(Seq::empty()).len() == 0,
    decreases b.len(),
{
    reveal_with_fuel(pids_in, 2);
    assert(seq![word].drop_last() =~= Seq::<Seq<char>>::empty());
    if number_within(word, u32::MAX as nat) is Some {
        assert(pids_in(seq![word]) =~= seq![number_within(word, u32::MAX as nat)->0 as u32]);
    }
    if b.len() == 0 {
        assert(a + b =~= a);
        assert(pids_in(a) + pids_in(b) =~= pids_in(a));
    } else {
        law_children_are_read_in_order(a, b.drop_last(), word);
        assert((a + b).drop_last() =~= a + b.drop_last());
        assert((a + b).last() == b.last());
        assert(pids_in(a + b) =~= pids_in(a) + pids_in(b));
    }
}

/// A note reports a start exactly where it is about a new child, and an exit exactly
/// where a tracked process other than the root exited; the root's exit ends tracking,
/// and nothing else does.
pub proof fn law_notes_report_children(note: QueueNote, root: u32, now: u128)
    ensures
        match note_event(note, root, now) {
            Some(event) => {
                &&& event.pid == note.pid
                &&& event.timestamp_ms == now
                &&& event.category == EventCategory::Process
                &&& event.kind == (if note.child {
                    ObserverEventKind::DescendantStarted
                } else {
                    ObserverEventKind::DescendantExited
                })
            },
            None => !note.child && (note.track_error || !note.exit || note.pid == root),
        },
        note_event(note, root, now) is Some <==> note.child || (!note.track_error && note.exit
            && note.pid != root),
        ends_tracking(note, root) <==> !note.child && !note.track_error && note.exit && note.pid
            == root,
{
}

/// A batch reports what its notes report, in their order.
pub proof fn law_batches_report_every_note(
    a: Seq<QueueNote>,
    b: Seq<QueueNote>,
    note: QueueNote,
    root: u32,
    now: u128,
)
    ensures
        batch_events(a + b, root, now) == batch_events(a, root, now) + batch_events(b, root, now),
        note_event(note, root, now) matches Some(event) ==> batch_events(seq![note], root, now)
            == seq![event],
        note_event(note, root, now) is None ==> batch_events(seq![note], root, now).len() == 0,
    decreases b.len(),
{
    reveal_with_fuel(batch_events, 2);
    assert(seq![note].drop_last() =~= Seq::<QueueNote>::empty());
    if note_event(note, root, now) is Some {
        assert(batch_events(seq![note], root, now) =~= seq![note_event(note, root, now)->0]);
    }
    if b.len() == 0 {
        assert(a + b =~= a);
        assert(batch_events(a, root, now) + batch_events(b, root, now) =~= batch_events(
            a,
            root,
            now,
        ));
    } else {
        law_batches_report_every_note(a, b.drop_last(), note, root, now);
        assert((a + b).drop_last() =~= a + b.drop_last());
        assert((a + b).last() == b.last());
        assert(batch_events(a + b, root, now) =~= batch_events(a, root, now) + batch_events(
            b,
            root,
            now,
        ));
    }
}

} // verus!
