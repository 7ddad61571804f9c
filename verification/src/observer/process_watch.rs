//! Process watches: selectors, matching with limits and cooldowns, bounded
//! retention of matches, and cursors that report what they missed.

use crate::host::HostOs;
use crate::text::{
    append_decimal, append_hex, chars_of, code_point, decimal, hex, is_blank, string_of,
    word_ranges, words, Blanks,
};
use crate::unix_path::{file_name, is_same_path, path_file_name, same_path};
use crate::wire::bytes_equal;
use std::collections::VecDeque;
use std::sync::Arc;
use vstd::prelude::*;
use vstd::string::*;
use vstd::utf8::*;

verus! {

/// Number of matches that a log retains.
pub const DEFAULT_RETAINED_MATCHES: usize = 256;

/// How far observation may go.
#[derive(Clone, Copy, Debug, PartialEq, Eq, Structural)]
pub enum ObservationPolicy {
    /// Never trace the child.
    NonInvasive,
    /// Trace the child where the host can.
    AllowTracing,
    /// Fail unless the child can be traced.
    RequireExact,
}

impl Default for ObservationPolicy {
    fn default() -> (p: ObservationPolicy)
        ensures
            p == ObservationPolicy::NonInvasive,
    {
        ObservationPolicy::NonInvasive
    }
}

impl ObservationPolicy {
    /// Stable name.
    pub open spec fn spec_str(self) -> Seq<char> {
        match self {
            ObservationPolicy::NonInvasive => "non_invasive"@,
            ObservationPolicy::AllowTracing => "allow_tracing"@,
            ObservationPolicy::RequireExact => "require_exact"@,
        }
    }

    /// Stable name.
    pub fn as_str(self) -> (s: &'static str)
        ensures
            s@ == self.spec_str(),
    {
        match self {
            ObservationPolicy::NonInvasive => "non_invasive",
            ObservationPolicy::AllowTracing => "allow_tracing",
            ObservationPolicy::RequireExact => "require_exact",
        }
    }
}

/// How an observation was made.
#[derive(Clone, Copy, Debug, PartialEq, Eq, Structural)]
pub enum ObservationGrade {
    /// Every event was traced.
    ExactTrace,
    /// The event itself was reported.
    ExactEvent,
    /// The kernel notified.
    KernelNotification,
    /// The kernel hinted, and a snapshot confirmed.
    KernelHintReconciled,
    /// Two snapshots differed.
    SnapshotInferred,
}

impl ObservationGrade {
    /// Stable name.
    pub open spec fn spec_str(self) -> Seq<char> {
        match self {
            ObservationGrade::ExactTrace => "exact_trace"@,
            ObservationGrade::ExactEvent => "exact_event"@,
            ObservationGrade::KernelNotification => "kernel_notification"@,
            ObservationGrade::KernelHintReconciled => "kernel_hint_reconciled"@,
            ObservationGrade::SnapshotInferred => "snapshot_inferred"@,
        }
    }

    /// Stable name.
    pub fn as_str(self) -> (s: &'static str)
        ensures
            s@ == self.spec_str(),
    {
        match self {
            ObservationGrade::ExactTrace => "exact_trace",
            ObservationGrade::ExactEvent => "exact_event",
            ObservationGrade::KernelNotification => "kernel_notification",
            ObservationGrade::KernelHintReconciled => "kernel_hint_reconciled",
            ObservationGrade::SnapshotInferred => "snapshot_inferred",
        }
    }
}

/// Whose stack a match captures.
#[derive(Clone, Copy, Debug, PartialEq, Eq, Structural)]
pub enum StackCapture {
    /// The spawning thread, if it can be captured.
    OriginPreferred,
    /// The spawning thread.
    OriginRequired,
    /// All threads of the owner.
    OwnerAllThreads,
}

/// What a match captures, and where it is kept.
#[derive(Clone, Debug, PartialEq, Eq)]
pub struct StackDump {
    /// Whose stack.
    pub capture: StackCapture,
    /// Directory for artifacts; a default one if not set.
    pub directory: Option<Vec<u8>>,
    /// Whether symbols are wanted at once.
    pub symbolize_immediately: bool,
}

impl Default for StackDump {
    fn default() -> (d: StackDump)
        ensures
            d.capture == StackCapture::OriginPreferred,
            d.directory is None,
            !d.symbolize_immediately,
    {
        StackDump {
            capture: StackCapture::OriginPreferred,
            directory: None,
            symbolize_immediately: false,
        }
    }
}

/// Which events a watch matches.
#[derive(Clone, Debug, PartialEq, Eq)]
pub enum WatchSelector {
    /// Every spawn.
    Spawn,
    /// An image change.
    Exec {
        /// Final name of the image, if it matters.
        basename: Option<String>,
        /// Path of the image, if it matters.
        path: Option<Vec<u8>>,
    },
    /// An exit.
    Exit {
        /// Exit code, if it matters.
        code: Option<i32>,
        /// Terminating signal, if it matters.
        signal: Option<i32>,
        /// Final name of the image, if it matters.
        basename: Option<String>,
        /// Whether only failures match.
        failure_only: bool,
    },
}

/// A watch: which events match, how often, and what a match captures.
#[derive(Clone, Debug, PartialEq, Eq)]
pub struct ProcessWatch {
    /// Which events match.
    pub selector: WatchSelector,
    /// What a match captures.
    pub dump: Option<StackDump>,
    /// Number of matches after which the watch is spent.
    pub limit: Option<usize>,
    /// Nanoseconds that must pass between matches.
    pub cooldown: u128,
    /// Name of the watch.
    pub label: String,
}

/// Why a watch was refused.
#[derive(Clone, Debug, PartialEq, Eq)]
pub struct ProcessWatchConfigurationError(pub String);

/// What is wrong with a label or a limit.
pub open spec fn common_fault(limit: Option<usize>, label: Seq<char>) -> Option<Seq<char>> {
    if crate::text::blank(label) {
        Some("watch label must not be empty"@)
    } else if limit == Some(0usize) {
        Some("watch limit must be positive or None"@)
    } else {
        None
    }
}

/// Whether `r` is the watch with these parts, or the error that `fault` names.
pub open spec fn built(
    r: Result<ProcessWatch, ProcessWatchConfigurationError>,
    fault: Option<Seq<char>>,
    selector: WatchSelector,
    dump: Option<StackDump>,
    limit: Option<usize>,
    cooldown: u128,
    label: String,
) -> bool {
    match r {
        Ok(w) => fault is None && w == (ProcessWatch { selector, dump, limit, cooldown, label }),
        Err(e) => fault == Some(e.0@),
    }
}

fn refused(text: &str) -> (e: ProcessWatchConfigurationError)
    ensures
        e.0@ == text@,
{
    ProcessWatchConfigurationError(text.to_owned())
}

impl ProcessWatch {
    /// Watches every spawn.
    pub fn on_spawn(dump: Option<StackDump>, limit: Option<usize>, cooldown: u128, label: String) -> (r:
        Result<ProcessWatch, ProcessWatchConfigurationError>)
        ensures
            built(r, common_fault(limit, label@), WatchSelector::Spawn, dump, limit, cooldown, label),
    {
        ProcessWatch::new(WatchSelector::Spawn, dump, limit, cooldown, label)
    }

    /// Watches image changes, by final name or by path.
    pub fn on_exec(
        basename: Option<String>,
        path: Option<Vec<u8>>,
        dump: Option<StackDump>,
        limit: Option<usize>,
        cooldown: u128,
        label: String,
    ) -> (r: Result<ProcessWatch, ProcessWatchConfigurationError>)
        ensures
            built(
                r,
                if basename is Some && path is Some {
                    Some("on_exec accepts basename or path, not both"@)
                } else if basename is Some && basename->0@.len() == 0 {
                    Some("basename must not be empty"@)
                } else {
                    common_fault(limit, label@)
                },
                WatchSelector::Exec { basename, path },
                dump,
                limit,
                cooldown,
                label,
            ),
    {
        if basename.is_some() && path.is_some() {
            return Err(refused("on_exec accepts basename or path, not both"));
        }
        if let Some(name) = &basename {
            if name.as_str().is_empty() {
                return Err(refused("basename must not be empty"));
            }
        }
        ProcessWatch::new(WatchSelector::Exec { basename, path }, dump, limit, cooldown, label)
    }

    /// Watches exits, by code or by signal, and by final name.
    pub fn on_exit(
        code: Option<i32>,
        signal: Option<i32>,
        basename: Option<String>,
        dump: Option<StackDump>,
        limit: Option<usize>,
        cooldown: u128,
        label: String,
    ) -> (r: Result<ProcessWatch, ProcessWatchConfigurationError>)
        ensures
            built(
                r,
                if code is Some && signal is Some {
                    Some("on_exit accepts code or signal, not both"@)
                } else {
                    common_fault(limit, label@)
                },
                WatchSelector::Exit { code, signal, basename, failure_only: false },
                dump,
                limit,
                cooldown,
                label,
            ),
            r matches Ok(w) ==> w.selector == exit_selector(code, signal, basename),
    {
        if code.is_some() && signal.is_some() {
            return Err(refused("on_exit accepts code or signal, not both"));
        }
        ProcessWatch::new(
            WatchSelector::Exit { code, signal, basename, failure_only: false },
            dump,
            limit,
            cooldown,
            label,
        )
    }

    /// Watches failures.
    pub fn on_failure(
        basename: Option<String>,
        dump: Option<StackDump>,
        limit: Option<usize>,
        cooldown: u128,
        label: String,
    ) -> (r: Result<ProcessWatch, ProcessWatchConfigurationError>)
        ensures
            built(
                r,
                common_fault(limit, label@),
                WatchSelector::Exit { code: None, signal: None, basename, failure_only: true },
                dump,
                limit,
                cooldown,
                label,
            ),
            r matches Ok(w) ==> w.selector == failure_selector(basename),
    {
        ProcessWatch::new(
            WatchSelector::Exit { code: None, signal: None, basename, failure_only: true },
            dump,
            limit,
            cooldown,
            label,
        )
    }

    fn new(
        selector: WatchSelector,
        dump: Option<StackDump>,
        limit: Option<usize>,
        cooldown: u128,
        label: String,
    ) -> (r: Result<ProcessWatch, ProcessWatchConfigurationError>)
        ensures
            built(r, common_fault(limit, label@), selector, dump, limit, cooldown, label),
    {
        if is_blank(label.as_str()) {
            return Err(refused("watch label must not be empty"));
        }
        if let Some(n) = limit {
            if n == 0 {
                return Err(refused("watch limit must be positive or None"));
            }
        }
        Ok(ProcessWatch { selector, dump, limit, cooldown, label })
    }
}

/// A process, told apart from later users of its number.
#[derive(Clone, Copy, Debug, PartialEq, Eq, Structural)]
pub struct ProcessIdentity {
    /// Process number.
    pub pid: u32,
    /// Start key, if the host gave one.
    pub start_key: Option<u64>,
}

/// What happened to a process.
#[derive(Clone, Copy, Debug, PartialEq, Eq, Structural)]
pub enum ProcessEventKind {
    /// It was created.
    Spawn,
    /// It changed its image.
    Exec,
    /// It exited.
    Exit,
    /// Events about it were lost.
    Loss,
}

/// One process event.
#[derive(Clone, Debug, PartialEq, Eq)]
pub struct ProcessEvent {
    /// What happened.
    pub kind: ProcessEventKind,
    /// To which process.
    pub process: ProcessIdentity,
    /// Its parent, if known.
    pub parent: Option<ProcessIdentity>,
    /// Nanoseconds since the Unix epoch.
    pub timestamp: u128,
    /// Path of its image, if known.
    pub executable: Option<Vec<u8>>,
    /// Its arguments, if known.
    pub argv: Option<Vec<String>>,
    /// Exit code, if it exited by itself.
    pub exit_code: Option<i32>,
    /// Terminating signal, if there was one.
    pub signal: Option<i32>,
    /// Raw exit status of the host.
    pub raw_exit_status: Option<i64>,
    /// Backend that reported the event.
    pub backend: &'static str,
    /// How the observation was made.
    pub observation_grade: ObservationGrade,
    /// Whether no event was missed so far.
    pub coverage_complete: bool,
    /// Whether this event reports a loss.
    pub loss_detected: bool,
}

/// Where a captured stack came from.
#[derive(Clone, Copy, Debug, PartialEq, Eq, Structural)]
pub enum CaptureSource {
    /// The thread of another process that spawned.
    RemoteSpawningThread,
    /// The library's own spawn call.
    ManagedSpawnBoundary,
    /// A snapshot of the owner at the time of the event.
    OwnerEventTimeSnapshot,
    /// Nothing was captured.
    NoCapture,
}

impl CaptureSource {
    /// Stable name.
    pub open spec fn spec_str(self) -> Seq<char> {
        match self {
            CaptureSource::RemoteSpawningThread => "remote_spawning_thread"@,
            CaptureSource::ManagedSpawnBoundary => "managed_spawn_boundary"@,
            CaptureSource::OwnerEventTimeSnapshot => "owner_event_time_snapshot"@,
            CaptureSource::NoCapture => "none"@,
        }
    }

    /// Stable name.
    pub fn as_str(self) -> (s: &'static str)
        ensures
            s@ == self.spec_str(),
    {
        match self {
            CaptureSource::RemoteSpawningThread => "remote_spawning_thread",
            CaptureSource::ManagedSpawnBoundary => "managed_spawn_boundary",
            CaptureSource::OwnerEventTimeSnapshot => "owner_event_time_snapshot",
            CaptureSource::NoCapture => "none",
        }
    }
}

/// What a match captured.
#[derive(Clone, Debug, PartialEq, Eq)]
pub struct DumpResult {
    /// Where the stack came from.
    pub capture_source: CaptureSource,
    /// Paths of the artifacts.
    pub artifacts: Vec<Vec<u8>>,
    /// Whether symbols were resolved.
    pub symbolized: bool,
    /// Why nothing, or less, was captured.
    pub error: Option<String>,
}

/// One match of one watch.
#[derive(Clone, Debug, PartialEq, Eq)]
pub struct ProcessWatchMatch {
    /// Sequence number, from 1.
    pub sequence: u64,
    /// Watch that matched.
    pub watch: Arc<ProcessWatch>,
    /// Event that it matched.
    pub event: Arc<ProcessEvent>,
    /// What was captured, if anything was asked for.
    pub dump: Option<DumpResult>,
}

/// Matches that a cursor missed.
#[derive(Clone, Copy, Debug, PartialEq, Eq, Structural)]
pub struct ProcessWatchGap {
    /// First sequence number that was missed.
    pub first_missing: u64,
    /// Last sequence number that was missed.
    pub last_missing: u64,
}

/// What advancing a cursor gave.
#[derive(Clone, Debug, PartialEq, Eq)]
pub enum ProcessWatchRead {
    /// The next match.
    Match(Arc<ProcessWatchMatch>),
    /// Matches were dropped before the cursor reached them.
    Gap(ProcessWatchGap),
    /// No match within the time that was allowed.
    Timeout,
    /// No match will come any more.
    Eof,
}

/// What a host offers for exact observation.
#[derive(Clone, Copy, Debug, PartialEq, Eq)]
pub struct ProcessObservationCapabilities {
    /// Whether exact tracing is available.
    pub exact_available: bool,
    /// Backend that traces.
    pub exact_backend: &'static str,
    /// Why it is, or is not, available.
    pub reason: &'static str,
}

/// How a child is observed.
#[derive(Clone, Debug, PartialEq, Eq)]
pub struct ProcessObservation {
    /// Backend in use.
    pub backend: &'static str,
    /// Grade of its observations.
    pub grade: ObservationGrade,
    /// Why exact tracing was not used although it was allowed.
    pub fallback_reason: Option<String>,
}

/// Why a child cannot be observed as asked.
#[derive(Clone, Debug, PartialEq, Eq)]
pub struct ProcessObservationError(pub String);

/// Whether an exit code is the one that was asked for. On hosts that keep only
/// the low byte of an exit status, -1 is reported as 255.
pub open spec fn code_matches(requested: i32, observed: Option<i32>) -> bool {
    observed == Some(requested) || (requested == -1 && observed == Some(255i32))
}

/// Decides [`code_matches`].
pub fn exit_code_matches(requested: i32, observed: Option<i32>) -> (b: bool)
    ensures
        b == code_matches(requested, observed),
{
    match observed {
        None => false,
        Some(code) => if requested == -1 {
            code == 255 || code == -1
        } else {
            code == requested
        },
    }
}

/// Whether an image is the one that was asked for: the path decides if one is
/// given, otherwise the final name, otherwise every image will do.
pub open spec fn image_matches(
    executable: Option<Vec<u8>>,
    basename: Option<String>,
    exact_path: Option<Vec<u8>>,
) -> bool {
    match exact_path {
        Some(expected) => executable is Some && same_path(executable->0@, expected@),
        None => match basename {
            Some(expected) => executable is Some && file_name(executable->0@) == Some(
                encode_utf8(expected@),
            ),
            None => true,
        },
    }
}

/// Decides [`image_matches`].
pub fn executable_matches(
    executable: &Option<Vec<u8>>,
    basename: &Option<String>,
    exact_path: &Option<Vec<u8>>,
) -> (b: bool)
    ensures
        b == image_matches(*executable, *basename, *exact_path),
{
    match exact_path {
        Some(expected) => match executable {
            Some(image) => is_same_path(image, expected),
            None => false,
        },
        None => match basename {
            Some(expected) => match executable {
                Some(image) => match path_file_name(image) {
                    Some(name) => bytes_equal(&name, expected.as_str().as_bytes()),
                    None => false,
                },
                None => false,
            },
            None => true,
        },
    }
}

/// Whether a watch with this selector matches an event.
pub open spec fn selects(selector: WatchSelector, event: ProcessEvent) -> bool {
    match selector {
        WatchSelector::Spawn => event.kind == ProcessEventKind::Spawn,
        WatchSelector::Exec { basename, path } => event.kind == ProcessEventKind::Exec
            && image_matches(event.executable, basename, path),
        WatchSelector::Exit { code, signal, basename, failure_only } => {
            &&& event.kind == ProcessEventKind::Exit
            &&& image_matches(event.executable, basename, None)
            &&& code is Some ==> code_matches(code->0, event.exit_code)
            &&& signal is Some ==> event.signal == signal
            &&& failure_only ==> event.signal is Some || (event.exit_code is Some
                && event.exit_code->0 != 0)
        },
    }
}

/// Decides [`selects`].
pub fn selector_matches(selector: &WatchSelector, event: &ProcessEvent) -> (b: bool)
    ensures
        b == selects(*selector, *event),
{
    match selector {
        WatchSelector::Spawn => event.kind == ProcessEventKind::Spawn,
        WatchSelector::Exec { basename, path } => event.kind == ProcessEventKind::Exec
            && executable_matches(&event.executable, basename, path),
        WatchSelector::Exit { code, signal, basename, failure_only } => {
            if event.kind != ProcessEventKind::Exit || !executable_matches(
                &event.executable,
                basename,
                &None,
            ) {
                return false;
            }
            if let Some(wanted) = code {
                if !exit_code_matches(*wanted, event.exit_code) {
                    return false;
                }
            }
            if let Some(wanted) = signal {
                match event.signal {
                    Some(got) => if got != *wanted {
                        return false;
                    },
                    None => return false,
                }
            }
            if *failure_only {
                let failed: bool = match event.exit_code {
                    Some(c) => c != 0,
                    None => false,
                };
                return event.signal.is_some() || failed;
            }
            true
        },
    }
}

/// A watch and how often it matched.
#[derive(Clone, Debug, PartialEq, Eq)]
pub struct WatchRuntime {
    /// The watch.
    pub watch: Arc<ProcessWatch>,
    /// Number of matches so far.
    pub matched: usize,
    /// Time of the last match.
    pub last_match: Option<u128>,
}

impl WatchRuntime {
    /// Whether the watch still takes matches.
    pub open spec fn unspent(self) -> bool {
        self.watch.limit is Some ==> self.matched < self.watch.limit->0
    }

    /// Whether the cooldown has passed at `now`. A clock that went back counts
    /// as no time.
    pub open spec fn cooled(self, now: u128) -> bool {
        match self.last_match {
            None => true,
            Some(last) => (if now >= last {
                now - last
            } else {
                0
            }) >= self.watch.cooldown,
        }
    }

    /// Whether the watch matches `event` at `now`.
    pub open spec fn fires(self, event: ProcessEvent, now: u128) -> bool {
        self.unspent() && selects(self.watch.selector, event) && self.cooled(now)
    }

    /// The watch after a match at `now`.
    pub open spec fn after_match(self, now: u128) -> WatchRuntime {
        WatchRuntime {
            watch: self.watch,
            matched: if self.matched < usize::MAX {
                (self.matched + 1) as usize
            } else {
                self.matched
            },
            last_match: Some(now),
        }
    }

    /// Decides [`Self::fires`].
    pub fn is_firing(&self, event: &ProcessEvent, now: u128) -> (b: bool)
        ensures
            b == self.fires(*event, now),
    {
        if let Some(limit) = self.watch.limit {
            if self.matched >= limit {
                return false;
            }
        }
        if !selector_matches(&self.watch.selector, event) {
            return false;
        }
        if let Some(last) = self.last_match {
            let elapsed: u128 = if now >= last {
                now - last
            } else {
                0
            };
            if elapsed < self.watch.cooldown {
                return false;
            }
        }
        true
    }
}

/// The positions of the watches that match `event` at `now`, in order.
pub open spec fn firing(runtimes: Seq<WatchRuntime>, event: ProcessEvent, now: u128) -> Seq<usize>
    decreases runtimes.len(),
{
    if runtimes.len() == 0 {
        Seq::empty()
    } else {
        let front = firing(runtimes.drop_last(), event, now);
        if runtimes.last().fires(event, now) {
            front.push((runtimes.len() - 1) as usize)
        } else {
            front
        }
    }
}

/// The watches after `event` at `now`: those that match have counted it.
pub open spec fn advanced(runtimes: Seq<WatchRuntime>, event: ProcessEvent, now: u128) -> Seq<
    WatchRuntime,
> {
    runtimes.map_values(
        |r: WatchRuntime|
            if r.fires(event, now) {
                r.after_match(now)
            } else {
                r
            },
    )
}

/// A bounded log of matches.
#[derive(Clone, Debug, PartialEq, Eq)]
pub struct WatchLog {
    entries: VecDeque<Arc<ProcessWatchMatch>>,
    first_sequence: u64,
    next_sequence: u64,
    closed: bool,
    coverage_complete: bool,
}

/// What a [`WatchLog`] holds.
#[verifier::ext_equal]
pub struct WatchLogModel {
    /// Retained matches, oldest first.
    pub entries: Seq<Arc<ProcessWatchMatch>>,
    /// Sequence number of the oldest retained match, or of the next one.
    pub first: u64,
    /// Sequence number of the next match.
    pub next: u64,
    /// Whether no match will come any more.
    pub closed: bool,
    /// Whether no event was missed.
    pub coverage_complete: bool,
}

impl View for WatchLog {
    type V = WatchLogModel;

    closed spec fn view(&self) -> WatchLogModel {
        WatchLogModel {
            entries: self.entries@,
            first: self.first_sequence,
            next: self.next_sequence,
            closed: self.closed,
            coverage_complete: self.coverage_complete,
        }
    }
}

impl WatchLogModel {
    /// Numbers are contiguous, and no more matches are retained than the limit.
    pub open spec fn wf(self) -> bool {
        &&& self.entries.len() <= DEFAULT_RETAINED_MATCHES
        &&& self.first + self.entries.len() == self.next
        &&& forall|i: int|
            0 <= i < self.entries.len() ==> (#[trigger] self.entries[i]).sequence == self.first + i
    }

    /// The log after one more match.
    pub open spec fn pushed(self, item: Arc<ProcessWatchMatch>) -> WatchLogModel {
        let all = self.entries.push(item);
        let drop: int = if all.len() > DEFAULT_RETAINED_MATCHES {
            1
        } else {
            0
        };
        WatchLogModel {
            entries: all.skip(drop),
            first: (self.first + drop) as u64,
            next: (self.next + 1) as u64,
            ..self
        }
    }

    /// Whether a cursor at `position` reads `r` and moves to `after`.
    pub open spec fn reads(self, position: u64, r: ProcessWatchRead, after: u64) -> bool {
        if position < self.first {
            &&& r == ProcessWatchRead::Gap(
                ProcessWatchGap { first_missing: position, last_missing: (self.first - 1) as u64 },
            )
            &&& after == self.first
        } else if position < self.next {
            &&& r == ProcessWatchRead::Match(self.entries[position - self.first])
            &&& after == position + 1
        } else if self.closed {
            r == ProcessWatchRead::Eof && after == position
        } else {
            r == ProcessWatchRead::Timeout && after == position
        }
    }
}

impl WatchLog {
    /// Whether the log keeps its invariant.
    pub open spec fn wf(&self) -> bool {
        self@.wf()
    }

    /// An empty log.
    pub fn new() -> (log: WatchLog)
        ensures
            log.wf(),
            log@ == empty_log(),
    {
        WatchLog {
            entries: VecDeque::new(),
            first_sequence: 1,
            next_sequence: 1,
            closed: false,
            coverage_complete: true,
        }
    }

    /// Appends a match and drops the oldest one beyond the limit.
    pub fn push(
        &mut self,
        watch: Arc<ProcessWatch>,
        event: Arc<ProcessEvent>,
        dump: Option<DumpResult>,
    )
        requires
            old(self).wf(),
            old(self)@.next < u64::MAX,
        ensures
            final(self).wf(),
            final(self)@ == old(self)@.pushed(
                Arc::new(ProcessWatchMatch { sequence: old(self)@.next, watch, event, dump }),
            ),
    {
        let sequence: u64 = self.next_sequence;
        let item = Arc::new(ProcessWatchMatch { sequence, watch, event, dump });
        self.next_sequence = sequence + 1;
        self.entries.push_back(item);
        let ghost all = self.entries@;
        if self.entries.len() > DEFAULT_RETAINED_MATCHES {
            let _oldest = self.entries.pop_front();
            self.first_sequence = self.first_sequence + 1;
            assert(self.entries@ =~= all.skip(1));
        } else {
            assert(all.skip(0) =~= all);
        }
        assert(self@ =~= old(self)@.pushed(item));
    }

    /// Records that no match will come any more.
    pub fn close(&mut self)
        ensures
            final(self)@ == (WatchLogModel { closed: true, ..old(self)@ }),
            old(self).wf() ==> final(self).wf(),
    {
        self.closed = true;
    }

    /// Records that events were missed.
    pub fn mark_incomplete(&mut self)
        ensures
            final(self)@ == (WatchLogModel { coverage_complete: false, ..old(self)@ }),
            old(self).wf() ==> final(self).wf(),
    {
        self.coverage_complete = false;
    }

    /// Whether no event was missed.
    pub fn coverage_complete(&self) -> (b: bool)
        ensures
            b == self@.coverage_complete,
    {
        self.coverage_complete
    }

    /// Sequence number of the oldest retained match, or of the next one.
    pub fn first_sequence(&self) -> (n: u64)
        ensures
            n == self@.first,
    {
        self.first_sequence
    }

    /// Whether `n` more matches can be numbered.
    pub fn can_number(&self, n: usize) -> (b: bool)
        ensures
            b == (self@.next + n <= u64::MAX),
    {
        n as u64 <= u64::MAX - self.next_sequence
    }

    /// The retained matches.
    pub fn snapshot(&self) -> (list: Vec<Arc<ProcessWatchMatch>>)
        ensures
            list@ == self@.entries,
    {
        let mut list: Vec<Arc<ProcessWatchMatch>> = Vec::new();
        let mut i: usize = 0;
        while i < self.entries.len()
            invariant
                i <= self.entries@.len(),
                list@ == self.entries@.take(i as int),
            decreases self.entries@.len() - i,
        {
            let item = self.entries[i].clone();
            assert(self.entries@.take(i as int + 1) =~= self.entries@.take(i as int).push(
                self.entries@[i as int],
            ));
            list.push(item);
            i = i + 1;
        }
        assert(self.entries@.take(self.entries@.len() as int) =~= self.entries@);
        list
    }

    /// Advances a cursor. When nothing is there yet the result is
    /// [`ProcessWatchRead::Timeout`]: the time that was allowed is the caller's.
    pub fn read_at(&self, position: &mut u64) -> (r: ProcessWatchRead)
        requires
            self.wf(),
        ensures
            self@.reads(*old(position), r, *final(position)),
    {
        if *position < self.first_sequence {
            let gap = ProcessWatchGap {
                first_missing: *position,
                last_missing: self.first_sequence - 1,
            };
            *position = self.first_sequence;
            return ProcessWatchRead::Gap(gap);
        }
        if *position < self.next_sequence {
            let index: usize = (*position - self.first_sequence) as usize;
            let item = self.entries[index].clone();
            *position = *position + 1;
            return ProcessWatchRead::Match(item);
        }
        if self.closed {
            ProcessWatchRead::Eof
        } else {
            ProcessWatchRead::Timeout
        }
    }
}

/// Every retained match is the one that its number says, and a cursor that
/// lags reads a gap that ends just before the retained window.
pub proof fn law_cursor_reads_number_or_gap(
    log: WatchLogModel,
    position: u64,
    r: ProcessWatchRead,
    after: u64,
)
    requires
        log.wf(),
        position < log.next,
        log.reads(position, r, after),
    ensures
        match r {
            ProcessWatchRead::Match(item) => item.sequence == position && after == position + 1,
            ProcessWatchRead::Gap(gap) => gap.first_missing == position && gap.last_missing + 1
                == after && after == log.first,
            _ => false,
        },
{
    if position >= log.first {
        assert(log.entries[position - log.first].sequence == position);
    }
}

/// After any number of matches an empty log has numbered all of them, retains
/// the newest ones up to its limit, and has lost the older ones from its front.
pub proof fn law_log_retains_the_newest(items: Seq<Arc<ProcessWatchMatch>>)
    requires
        items.len() < u64::MAX,
        forall|k: int| 0 <= k < items.len() ==> (#[trigger] items[k]).sequence == k + 1,
    ensures
        empty_log().pushed_all(items).wf(),
        empty_log().pushed_all(items).next == items.len() + 1,
        empty_log().pushed_all(items).first == if items.len() > DEFAULT_RETAINED_MATCHES {
            items.len() - DEFAULT_RETAINED_MATCHES + 1
        } else {
            1
        },
        empty_log().pushed_all(items).entries == items.skip(
            empty_log().pushed_all(items).first - 1,
        ),
        !empty_log().pushed_all(items).closed,
        empty_log().pushed_all(items).coverage_complete,
    decreases items.len(),
{
    let log = empty_log().pushed_all(items);
    if items.len() == 0 {
        assert(log.entries =~= items.skip(0));
    } else {
        let front = items.drop_last();
        assert forall|k: int| 0 <= k < front.len() implies (#[trigger] front[k]).sequence == k
            + 1 by {
            assert(front[k] == items[k]);
        }
        law_log_retains_the_newest(front);
        let before = empty_log().pushed_all(front);
        assert(log == before.pushed(items.last()));
        assert(log.entries =~= items.skip(log.first - 1));
        assert forall|i: int| 0 <= i < log.entries.len() implies (
        #[trigger] log.entries[i]).sequence == log.first + i by {
            assert(log.entries[i] == items[log.first - 1 + i]);
        }
    }
}

/// A cursor from the start of a log that has dropped matches reads, in one
/// step, the gap from the first match to the last one dropped, and stands at
/// the oldest retained match. One more read gives that match.
pub proof fn law_lagging_cursor_reads_the_gap(
    items: Seq<Arc<ProcessWatchMatch>>,
    r: ProcessWatchRead,
    after: u64,
    following: ProcessWatchRead,
    end: u64,
)
    requires
        DEFAULT_RETAINED_MATCHES < items.len() < u64::MAX,
        forall|k: int| 0 <= k < items.len() ==> (#[trigger] items[k]).sequence == k + 1,
        empty_log().pushed_all(items).reads(1, r, after),
        empty_log().pushed_all(items).reads(after, following, end),
    ensures
        r == ProcessWatchRead::Gap(
            ProcessWatchGap {
                first_missing: 1,
                last_missing: (items.len() - DEFAULT_RETAINED_MATCHES) as u64,
            },
        ),
        following == ProcessWatchRead::Match(items[items.len() - DEFAULT_RETAINED_MATCHES]),
        end == items.len() - DEFAULT_RETAINED_MATCHES + 2,
{
    law_log_retains_the_newest(items);
}

/// What a cursor reads, and where it stands afterwards, depends on the log and
/// on its own position alone: no other cursor has a part in it.
pub proof fn law_cursors_are_independent(
    log: WatchLogModel,
    position: u64,
    r: ProcessWatchRead,
    after: u64,
    other: ProcessWatchRead,
    other_after: u64,
)
    requires
        log.reads(position, r, after),
        log.reads(position, other, other_after),
    ensures
        r == other,
        after == other_after,
{
}

/// A closed log answers every cursor that has read it whole with the end.
pub proof fn law_closed_log_ends(log: WatchLogModel, r: ProcessWatchRead, after: u64)
    requires
        log.wf(),
        log.closed,
        log.reads(log.next, r, after),
    ensures
        r == ProcessWatchRead::Eof,
{
}

/// Finds the watches that match `event` and counts the match on each.
pub fn select_watches(runtimes: &mut Vec<WatchRuntime>, event: &ProcessEvent, now: u128) -> (hits: Vec<
    usize,
>)
    ensures
        hits@ == firing(old(runtimes)@, *event, now),
        final(runtimes)@ == advanced(old(runtimes)@, *event, now),
{
    let ghost before = runtimes@;
    let mut hits: Vec<usize> = Vec::new();
    let mut i: usize = 0;
    assert(before.take(0) =~= Seq::<WatchRuntime>::empty());
    while i < runtimes.len()
        invariant
            i <= runtimes@.len(),
            before == old(runtimes)@,
            runtimes@.len() == before.len(),
            hits@ == firing(before.take(i as int), *event, now),
            forall|j: int|
                0 <= j < i ==> #[trigger] runtimes@[j] == advanced(before, *event, now)[j],
            forall|j: int| i <= j < before.len() ==> #[trigger] runtimes@[j] == before[j],
        decreases runtimes@.len() - i,
    {
        proof {
            assert(before.take(i as int + 1).drop_last() =~= before.take(i as int));
            assert(before.take(i as int + 1).last() == before[i as int]);
        }
        if runtimes[i].is_firing(event, now) {
            let matched: usize = if runtimes[i].matched < usize::MAX {
                runtimes[i].matched + 1
            } else {
                runtimes[i].matched
            };
            let next = WatchRuntime {
                watch: runtimes[i].watch.clone(),
                matched,
                last_match: Some(now),
            };
            assert(next == before[i as int].after_match(now));
            runtimes.set(i, next);
            hits.push(i);
        }
        i = i + 1;
    }
    assert(before.take(before.len() as int) =~= before);
    assert(runtimes@ =~= advanced(before, *event, now));
    hits
}

/// A watch never counts more matches than its limit.
pub proof fn law_limit_bounds_matches(runtime: WatchRuntime, event: ProcessEvent, now: u128)
    requires
        runtime.watch.limit is Some,
        runtime.matched <= runtime.watch.limit->0,
    ensures
        ({
            let after = if runtime.fires(event, now) {
                runtime.after_match(now)
            } else {
                runtime
            };
            after.matched <= after.watch.limit->0
        }),
{
}

/// Two matches of one watch are at least its cooldown apart.
pub proof fn law_cooldown_separates_matches(
    runtime: WatchRuntime,
    first: ProcessEvent,
    then_event: ProcessEvent,
    now: u128,
    later: u128,
)
    requires
        now <= later,
        runtime.fires(first, now),
        runtime.after_match(now).fires(then_event, later),
    ensures
        later - now >= runtime.watch.cooldown,
{
}

/// What an inferred match reports of a capture that was asked for.
pub open spec fn inferred_capture(request: Option<StackDump>, dump: Option<DumpResult>) -> bool {
    match request {
        None => dump is None,
        Some(r) => dump matches Some(d) && {
            &&& d.capture_source == CaptureSource::NoCapture
            &&& d.artifacts@.len() == 0
            &&& !d.symbolized
            &&& d.error is Some
            &&& d.error->0@ == if r.capture == StackCapture::OwnerAllThreads {
                "owner all-thread capture is unavailable from this backend"@
            } else {
                "origin capture requires an exact trace backend"@
            }
        },
    }
}

fn nothing_captured(error: &str) -> (d: DumpResult)
    ensures
        d.capture_source == CaptureSource::NoCapture,
        d.artifacts@.len() == 0,
        !d.symbolized,
        d.error is Some,
        d.error->0@ == error@,
{
    DumpResult {
        capture_source: CaptureSource::NoCapture,
        artifacts: Vec::new(),
        symbolized: false,
        error: Some(error.to_owned()),
    }
}

/// What an inferred match reports of a capture that was asked for.
pub fn inferred_dump(request: &Option<StackDump>) -> (dump: Option<DumpResult>)
    ensures
        inferred_capture(*request, dump),
{
    match request {
        None => None,
        Some(r) => if r.capture == StackCapture::OwnerAllThreads {
            Some(nothing_captured("owner all-thread capture is unavailable from this backend"))
        } else {
            Some(nothing_captured("origin capture requires an exact trace backend"))
        },
    }
}

/// Whether `event` is what a snapshot difference reports: the image is the
/// first word of the command line.
pub open spec fn is_inferred_event(
    event: ProcessEvent,
    observation: ProcessObservation,
    pid: u32,
    started: bool,
    command_line: Option<String>,
    now: u128,
) -> bool {
    &&& event.kind == (if started {
        ProcessEventKind::Spawn
    } else {
        ProcessEventKind::Exit
    })
    &&& event.process == (ProcessIdentity { pid, start_key: None })
    &&& event.parent is None
    &&& event.timestamp == now
    &&& match command_line {
        None => event.executable is None && event.argv is None,
        Some(line) => {
            let tokens = words(Blanks::Ascii, line@);
            &&& if tokens.len() == 0 {
                event.executable is None
            } else {
                event.executable is Some && event.executable->0@ == encode_utf8(tokens[0])
            }
            &&& event.argv is Some
            &&& event.argv->0@ == seq![line]
        },
    }
    &&& event.exit_code is None
    &&& event.signal is None
    &&& event.raw_exit_status is None
    &&& event.backend == observation.backend
    &&& event.observation_grade == observation.grade
    &&& !event.coverage_complete
    &&& !event.loss_detected
}

/// The event that a snapshot difference reports.
pub fn inferred_event(
    observation: &ProcessObservation,
    pid: u32,
    started: bool,
    command_line: Option<String>,
    now: u128,
) -> (event: ProcessEvent)
    ensures
        is_inferred_event(event, *observation, pid, started, command_line, now),
{
    let mut executable: Option<Vec<u8>> = None;
    let mut argv: Option<Vec<String>> = None;
    if let Some(line) = command_line {
        let chars = chars_of(line.as_str());
        let ranges = word_ranges(&chars, Blanks::Ascii);
        if ranges.len() > 0 {
            let (from, to) = ranges[0];
            let word = string_of(&chars[from..to]);
            assert(word@ == words(Blanks::Ascii, line@)[0]);
            executable = Some(word.as_str().as_bytes_vec());
        }
        let mut list: Vec<String> = Vec::new();
        list.push(line);
        assert(list@ =~= seq![line]);
        argv = Some(list);
    }
    ProcessEvent {
        kind: if started {
            ProcessEventKind::Spawn
        } else {
            ProcessEventKind::Exit
        },
        process: ProcessIdentity { pid, start_key: None },
        parent: None,
        timestamp: now,
        executable,
        argv,
        exit_code: None,
        signal: None,
        raw_exit_status: None,
        backend: observation.backend,
        observation_grade: observation.grade,
        coverage_complete: false,
        loss_detected: false,
    }
}

impl WatchLogModel {
    /// The log after several matches.
    pub open spec fn pushed_all(self, items: Seq<Arc<ProcessWatchMatch>>) -> WatchLogModel
        decreases items.len(),
    {
        if items.len() == 0 {
            self
        } else {
            self.pushed_all(items.drop_last()).pushed(items.last())
        }
    }
}

/// Whether `items` are the inferred matches of the watches at `hits`.
pub open spec fn are_inferred_matches(
    items: Seq<Arc<ProcessWatchMatch>>,
    runtimes: Seq<WatchRuntime>,
    hits: Seq<usize>,
    event: Arc<ProcessEvent>,
    first_number: u64,
) -> bool {
    &&& items.len() == hits.len()
    &&& forall|k: int|
        0 <= k < items.len() ==> {
            let item = #[trigger] items[k];
            let watch = runtimes[hits[k] as int].watch;
            &&& item.sequence == first_number + k
            &&& item.watch == watch
            &&& item.event == event
            &&& inferred_capture(watch.dump, item.dump)
        }
}

proof fn lemma_firing_positions(runtimes: Seq<WatchRuntime>, event: Arc<ProcessEvent>, now: u128)
    ensures
        firing(runtimes, *event, now).len() <= runtimes.len(),
        forall|k: int|
            0 <= k < firing(runtimes, *event, now).len() ==> (#[trigger] firing(
                runtimes,
                *event,
                now,
            )[k]) < runtimes.len() || runtimes.len() > usize::MAX,
    decreases runtimes.len(),
{
    if runtimes.len() > 0 {
        lemma_firing_positions(runtimes.drop_last(), event, now);
    }
}

/// Matches an inferred event against all watches and appends one entry per
/// match, in the order of the watches.
pub fn record_inferred(
    runtimes: &mut Vec<WatchRuntime>,
    log: &mut WatchLog,
    event: Arc<ProcessEvent>,
    now: u128,
)
    requires
        old(log).wf(),
        old(log)@.next + old(runtimes)@.len() <= u64::MAX,
    ensures
        final(runtimes)@ == advanced(old(runtimes)@, *event, now),
        final(log).wf(),
        exists|items: Seq<Arc<ProcessWatchMatch>>|
            are_inferred_matches(
                items,
                old(runtimes)@,
                firing(old(runtimes)@, *event, now),
                event,
                old(log)@.next,
            ) && final(log)@ == #[trigger] old(log)@.pushed_all(items),
{
    let ghost before = runtimes@;
    let hits = select_watches(runtimes, &event, now);
    proof {
        lemma_firing_positions(before, event, now);
    }
    let ghost mut items: Seq<Arc<ProcessWatchMatch>> = Seq::empty();
    let mut k: usize = 0;
    while k < hits.len()
        invariant
            k <= hits@.len(),
            hits@.len() <= before.len(),
            before == old(runtimes)@,
            runtimes@ == advanced(before, *event, now),
            runtimes@.len() == before.len(),
            forall|j: int| 0 <= j < hits@.len() ==> (#[trigger] hits@[j]) < runtimes@.len(),
            log.wf(),
            old(log)@.next + before.len() <= u64::MAX,
            log@.next == old(log)@.next + k,
            log@ == old(log)@.pushed_all(items),
            are_inferred_matches(items, before, hits@.take(k as int), event, old(log)@.next),
        decreases hits@.len() - k,
    {
        let position: usize = hits[k];
        let watch = runtimes[position].watch.clone();
        let dump = inferred_dump(&watch.dump);
        proof {
            assert(watch == before[position as int].watch);
        }
        let ghost item = Arc::new(
            ProcessWatchMatch { sequence: log@.next, watch, event, dump },
        );
        log.push(watch, event.clone(), dump);
        proof {
            let longer = items.push(item);
            assert(longer.drop_last() =~= items);
            assert forall|j: int| 0 <= j < longer.len() implies {
                let e = #[trigger] longer[j];
                let w = before[hits@.take(k as int + 1)[j] as int].watch;
                &&& e.sequence == old(log)@.next + j
                &&& e.watch == w
                &&& e.event == event
                &&& inferred_capture(w.dump, e.dump)
            } by {
                if j < k {
                    assert(longer[j] == items[j]);
                    assert(hits@.take(k as int + 1)[j] == hits@.take(k as int)[j]);
                }
            }
            items = longer;
        }
        k = k + 1;
    }
    assert(hits@.take(hits@.len() as int) =~= hits@);
}

/// The side of a watch that matches events, and keeps the log of the matches.
///
/// Several threads that match and read share one emitter behind a lock of
/// their own.
pub struct ProcessWatchEmitter {
    watches: Vec<WatchRuntime>,
    log: WatchLog,
    observation: ProcessObservation,
    exact_delivery_active: bool,
}

/// The side of a watch that reads matches from the emitter's log.
pub struct ProcessWatchSubscriber {
    observation: ProcessObservation,
}

/// An independent position in the matches of a watch.
pub struct ProcessWatchCursor {
    next_sequence: u64,
}

/// Backend and grade of observation without tracing.
pub open spec fn untraced(os: HostOs) -> (Seq<char>, ObservationGrade) {
    match os {
        HostOs::Windows => ("job-object-iocp"@, ObservationGrade::KernelNotification),
        HostOs::MacOs => ("kqueue-proc-snapshot"@, ObservationGrade::KernelHintReconciled),
        _ => ("proc-descendant-snapshot"@, ObservationGrade::SnapshotInferred),
    }
}

/// Whether `observation` is how a child is observed under a policy.
pub open spec fn is_observation(
    observation: ProcessObservation,
    policy: ObservationPolicy,
    capabilities: ProcessObservationCapabilities,
    os: HostOs,
) -> bool {
    if policy != ObservationPolicy::NonInvasive && capabilities.exact_available {
        &&& observation.backend == capabilities.exact_backend
        &&& observation.grade == ObservationGrade::ExactTrace
        &&& observation.fallback_reason is None
    } else {
        &&& observation.backend@ == untraced(os).0
        &&& observation.grade == untraced(os).1
        &&& if policy == ObservationPolicy::AllowTracing {
            observation.fallback_reason is Some && observation.fallback_reason->0@
                == capabilities.reason@
        } else {
            observation.fallback_reason is None
        }
    }
}

/// How a child is observed under a policy, or why it cannot be.
pub fn choose_observation(
    policy: ObservationPolicy,
    capabilities: &ProcessObservationCapabilities,
    os: HostOs,
) -> (r: Result<ProcessObservation, ProcessObservationError>)
    ensures
        match r {
            Ok(o) => !(policy == ObservationPolicy::RequireExact && !capabilities.exact_available)
                && is_observation(o, policy, *capabilities, os),
            Err(e) => policy == ObservationPolicy::RequireExact && !capabilities.exact_available
                && e.0@ == "exact process observation is unavailable: "@ + capabilities.reason@,
        },
{
    if policy == ObservationPolicy::RequireExact && !capabilities.exact_available {
        let mut text: String = "exact process observation is unavailable: ".to_owned();
        text.append(capabilities.reason);
        return Err(ProcessObservationError(text));
    }
    if policy != ObservationPolicy::NonInvasive && capabilities.exact_available {
        return Ok(
            ProcessObservation {
                backend: capabilities.exact_backend,
                grade: ObservationGrade::ExactTrace,
                fallback_reason: None,
            },
        );
    }
    let (backend, grade): (&'static str, ObservationGrade) = match os {
        HostOs::Windows => ("job-object-iocp", ObservationGrade::KernelNotification),
        HostOs::MacOs => ("kqueue-proc-snapshot", ObservationGrade::KernelHintReconciled),
        _ => ("proc-descendant-snapshot", ObservationGrade::SnapshotInferred),
    };
    let fallback_reason: Option<String> = if policy == ObservationPolicy::AllowTracing {
        Some(capabilities.reason.to_owned())
    } else {
        None
    };
    Ok(ProcessObservation { backend, grade, fallback_reason })
}

fn copy_observation(o: &ProcessObservation) -> (copy: ProcessObservation)
    ensures
        copy == *o,
{
    ProcessObservation {
        backend: o.backend,
        grade: o.grade,
        fallback_reason: match &o.fallback_reason {
            Some(text) => Some(text.clone()),
            None => None,
        },
    }
}

/// Fresh watches.
pub open spec fn fresh(watches: Seq<ProcessWatch>) -> Seq<WatchRuntime> {
    watches.map_values(
        |w: ProcessWatch| WatchRuntime { watch: Arc::new(w), matched: 0, last_match: None },
    )
}

/// A log that holds no match yet.
pub open spec fn empty_log() -> WatchLogModel {
    WatchLogModel {
        entries: Seq::empty(),
        first: 1,
        next: 1,
        closed: false,
        coverage_complete: true,
    }
}

/// Whether `after` is the log once `event` was matched without tracing: one
/// more entry for each watch that matched, in the order of the watches. A log
/// that could not number a match of every watch keeps its entries and is no
/// longer complete.
pub open spec fn inferred_log(
    before: WatchLogModel,
    after: WatchLogModel,
    runtimes: Seq<WatchRuntime>,
    event: ProcessEvent,
    now: u128,
) -> bool {
    if before.next + runtimes.len() <= u64::MAX {
        exists|items: Seq<Arc<ProcessWatchMatch>>|
            are_inferred_matches(
                items,
                runtimes,
                firing(runtimes, event, now),
                Arc::new(event),
                before.next,
            ) && after == #[trigger] before.pushed_all(items)
    } else {
        after == (WatchLogModel { coverage_complete: false, ..before })
    }
}

impl ProcessWatchEmitter {
    /// The watches.
    pub closed spec fn runtimes(&self) -> Seq<WatchRuntime> {
        self.watches@
    }

    /// How the child is observed.
    pub closed spec fn spec_observation(&self) -> ProcessObservation {
        self.observation
    }

    /// Whether an exact event is being delivered.
    pub closed spec fn delivering(&self) -> bool {
        self.exact_delivery_active
    }

    /// The log of the matches.
    pub closed spec fn log(&self) -> WatchLogModel {
        self.log@
    }

    /// Whether the emitter keeps its invariant.
    pub open spec fn wf(&self) -> bool {
        self.log().wf()
    }

    /// An emitter for some watches and the subscriber that it feeds.
    pub fn new(
        watches: Vec<ProcessWatch>,
        policy: ObservationPolicy,
        capabilities: &ProcessObservationCapabilities,
        os: HostOs,
    ) -> (r: Result<(ProcessWatchEmitter, ProcessWatchSubscriber), ProcessObservationError>)
        ensures
            match r {
                Ok((emitter, subscriber)) => {
                    &&& !(policy == ObservationPolicy::RequireExact && !capabilities.exact_available)
                    &&& is_observation(emitter.spec_observation(), policy, *capabilities, os)
                    &&& subscriber.spec_observation() == emitter.spec_observation()
                    &&& emitter.runtimes() == fresh(watches@)
                    &&& !emitter.delivering()
                    &&& emitter.wf()
                    &&& emitter.log() == empty_log()
                },
                Err(e) => policy == ObservationPolicy::RequireExact && !capabilities.exact_available
                    && e.0@ == "exact process observation is unavailable: "@ + capabilities.reason@,
            },
    {
        let observation = choose_observation(policy, capabilities, os)?;
        let ghost all = watches@;
        let mut left = watches;
        let mut runtimes: Vec<WatchRuntime> = Vec::new();
        let mut rest: VecDeque<ProcessWatch> = VecDeque::new();
        while left.len() > 0
            invariant
                left@ + rest@ == all,
            decreases left@.len(),
        {
            let ghost before = left@;
            if let Some(w) = left.pop() {
                rest.push_front(w);
                assert(left@ + rest@ =~= all);
            }
        }
        assert(rest@ =~= all);
        assert(fresh(all).take(0) =~= Seq::<WatchRuntime>::empty());
        assert(all.skip(0) =~= all);
        let ghost mut done: int = 0;
        while rest.len() > 0
            invariant
                0 <= done <= all.len(),
                rest@ == all.skip(done),
                runtimes@ == fresh(all).take(done),
            decreases rest@.len(),
        {
            if let Some(w) = rest.pop_front() {
                proof {
                    assert(w == all[done]);
                    assert(rest@ =~= all.skip(done + 1));
                }
                runtimes.push(WatchRuntime { watch: Arc::new(w), matched: 0, last_match: None });
                proof {
                    assert(runtimes@ =~= fresh(all).take(done + 1));
                    done = done + 1;
                }
            }
        }
        assert(fresh(all).take(all.len() as int) =~= fresh(all));
        let subscriber = ProcessWatchSubscriber { observation: copy_observation(&observation) };
        let emitter = ProcessWatchEmitter {
            watches: runtimes,
            log: WatchLog::new(),
            observation,
            exact_delivery_active: false,
        };
        Ok((emitter, subscriber))
    }

    /// Whether the child is traced.
    pub fn uses_exact_trace(&self) -> (b: bool)
        ensures
            b == (self.spec_observation().grade == ObservationGrade::ExactTrace),
    {
        self.observation.grade == ObservationGrade::ExactTrace
    }

    /// Reports a process that appeared in, or vanished from, a snapshot.
    pub fn emit_inferred(
        &mut self,
        pid: u32,
        started: bool,
        command_line: Option<String>,
        now: u128,
    )
        requires
            old(self).wf(),
        ensures
            final(self).wf(),
            final(self).spec_observation() == old(self).spec_observation(),
            final(self).delivering() == old(self).delivering(),
            exists|event: ProcessEvent|
                {
                    &&& is_inferred_event(
                        event,
                        old(self).spec_observation(),
                        pid,
                        started,
                        command_line,
                        now,
                    )
                    &&& final(self).runtimes() == #[trigger] advanced(
                        old(self).runtimes(),
                        event,
                        now,
                    )
                    &&& inferred_log(
                        old(self).log(),
                        final(self).log(),
                        old(self).runtimes(),
                        event,
                        now,
                    )
                },
    {
        let event = Arc::new(inferred_event(&self.observation, pid, started, command_line, now));
        if self.log.can_number(self.watches.len()) {
            record_inferred(&mut self.watches, &mut self.log, event.clone(), now);
        } else {
            let _hits = select_watches(&mut self.watches, &event, now);
            self.log.mark_incomplete();
        }
        assert(self.runtimes() == advanced(old(self).runtimes(), *event, now));
        assert(inferred_log(old(self).log(), self.log(), old(self).runtimes(), *event, now));
    }

    /// Records that no match will come any more.
    pub fn close(&mut self)
        requires
            old(self).wf(),
        ensures
            final(self).wf(),
            final(self).spec_observation() == old(self).spec_observation(),
            final(self).delivering() == old(self).delivering(),
            final(self).runtimes() == old(self).runtimes(),
            final(self).log() == (WatchLogModel { closed: true, ..old(self).log() }),
    {
        self.log.close();
    }
}

impl ProcessWatchSubscriber {
    /// How the child is observed.
    pub closed spec fn spec_observation(&self) -> ProcessObservation {
        self.observation
    }

    /// How the child is observed.
    pub fn observation(&self) -> (o: &ProcessObservation)
        ensures
            *o == self.spec_observation(),
    {
        &self.observation
    }

    /// The matches that `emitter` retains.
    pub fn snapshot(&self, emitter: &ProcessWatchEmitter) -> (list: Vec<Arc<ProcessWatchMatch>>)
        ensures
            list@ == emitter.log().entries,
    {
        emitter.log.snapshot()
    }

    /// A cursor at the oldest match that `emitter` retains.
    pub fn cursor(&self, emitter: &ProcessWatchEmitter) -> (c: ProcessWatchCursor)
        ensures
            c@ == emitter.log().first,
    {
        ProcessWatchCursor { next_sequence: emitter.log.first_sequence() }
    }
}

impl View for ProcessWatchCursor {
    type V = u64;

    closed spec fn view(&self) -> u64 {
        self.next_sequence
    }
}

impl ProcessWatchCursor {
    /// Reads the next match, gap or end from the emitter's log;
    /// [`ProcessWatchRead::Timeout`] when there is none yet.
    pub fn read_next(&mut self, emitter: &ProcessWatchEmitter) -> (r: ProcessWatchRead)
        requires
            emitter.wf(),
        ensures
            emitter.log().reads(old(self)@, r, final(self)@),
    {
        emitter.log.read_at(&mut self.next_sequence)
    }
}

/// What a tracer reported.
#[derive(Clone, Copy, Debug, PartialEq, Eq, Structural)]
pub enum ExactTraceEventKind {
    /// A process was created.
    Spawn,
    /// A process changed its image.
    Exec,
    /// A process exited.
    Exit {
        /// Exit code, if it exited by itself.
        exit_code: Option<i32>,
        /// Terminating signal, if there was one.
        signal: Option<i32>,
        /// Raw status.
        raw_status: i64,
    },
    /// Events were lost.
    Loss,
}

/// The stack of a spawning thread, as it was read.
#[derive(Clone, Debug, PartialEq, Eq)]
pub struct TraceOriginArtifact {
    /// Thread that spawned.
    pub thread_id: u32,
    /// Its stack pointer.
    pub stack_pointer: Option<u64>,
    /// Its instruction pointer.
    pub instruction_pointer: Option<u64>,
    /// Its registers.
    pub registers: Vec<u8>,
    /// Its stack.
    pub stack: Vec<u8>,
    /// Whether the stack was cut.
    pub truncated: bool,
}

/// One event of a tracer.
#[derive(Clone, Debug, PartialEq, Eq)]
pub struct ExactTraceEvent {
    /// What happened.
    pub kind: ExactTraceEventKind,
    /// Number of the event.
    pub sequence: u64,
    /// To which process.
    pub pid: u32,
    /// Its start key.
    pub start_key: Option<u64>,
    /// Its parent.
    pub parent_pid: Option<u32>,
    /// Start key of its parent.
    pub parent_start_key: Option<u64>,
    /// Nanoseconds since the Unix epoch.
    pub timestamp: u128,
    /// Path of its image.
    pub executable: Option<Vec<u8>>,
    /// Its arguments, as text.
    pub argv: Option<Vec<String>>,
    /// Stack of the spawning thread.
    pub origin: Option<TraceOriginArtifact>,
}

/// Whether `event` is what a tracer's event reports.
pub open spec fn is_exact_event(
    event: ProcessEvent,
    native: ExactTraceEvent,
    observation: ProcessObservation,
    coverage_complete: bool,
) -> bool {
    &&& event.kind == (match native.kind {
        ExactTraceEventKind::Spawn => ProcessEventKind::Spawn,
        ExactTraceEventKind::Exec => ProcessEventKind::Exec,
        ExactTraceEventKind::Exit { .. } => ProcessEventKind::Exit,
        ExactTraceEventKind::Loss => ProcessEventKind::Loss,
    })
    &&& match native.kind {
        ExactTraceEventKind::Exit { exit_code, signal, raw_status } => event.exit_code == exit_code
            && event.signal == signal && event.raw_exit_status == Some(raw_status),
        _ => event.exit_code is None && event.signal is None && event.raw_exit_status is None,
    }
    &&& event.process == (ProcessIdentity { pid: native.pid, start_key: native.start_key })
    &&& event.parent == (match native.parent_pid {
        Some(pid) => Some(ProcessIdentity { pid, start_key: native.parent_start_key }),
        None => None,
    })
    &&& event.timestamp == native.timestamp
    &&& event.executable is Some == native.executable is Some
    &&& event.executable is Some ==> event.executable->0@ == native.executable->0@
    &&& event.argv is Some == native.argv is Some
    &&& event.argv is Some ==> event.argv->0@ == native.argv->0@
    &&& event.backend == observation.backend
    &&& event.observation_grade == observation.grade
    &&& event.coverage_complete == coverage_complete
    &&& event.loss_detected == (native.kind == ExactTraceEventKind::Loss)
}

fn copy_strings(list: &Vec<String>) -> (out: Vec<String>)
    ensures
        out@ == list@,
{
    let mut out: Vec<String> = Vec::new();
    let mut i: usize = 0;
    while i < list.len()
        invariant
            i <= list@.len(),
            out@ == list@.take(i as int),
        decreases list@.len() - i,
    {
        out.push(list[i].clone());
        assert(out@ =~= list@.take(i as int + 1));
        i = i + 1;
    }
    assert(list@.take(list@.len() as int) =~= list@);
    out
}

/// The event that a tracer's event reports.
pub fn event_from_exact(
    native: &ExactTraceEvent,
    observation: &ProcessObservation,
    coverage_complete: bool,
) -> (event: ProcessEvent)
    ensures
        is_exact_event(event, *native, *observation, coverage_complete),
{
    let (kind, exit_code, signal, raw_exit_status, loss_detected): (
        ProcessEventKind,
        Option<i32>,
        Option<i32>,
        Option<i64>,
        bool,
    ) = match native.kind {
        ExactTraceEventKind::Spawn => (ProcessEventKind::Spawn, None, None, None, false),
        ExactTraceEventKind::Exec => (ProcessEventKind::Exec, None, None, None, false),
        ExactTraceEventKind::Exit { exit_code, signal, raw_status } => (
            ProcessEventKind::Exit,
            exit_code,
            signal,
            Some(raw_status),
            false,
        ),
        ExactTraceEventKind::Loss => (ProcessEventKind::Loss, None, None, None, true),
    };
    ProcessEvent {
        kind,
        process: ProcessIdentity { pid: native.pid, start_key: native.start_key },
        parent: match native.parent_pid {
            Some(pid) => Some(ProcessIdentity { pid, start_key: native.parent_start_key }),
            None => None,
        },
        timestamp: native.timestamp,
        executable: match &native.executable {
            Some(path) => Some(crate::wire::copy_bytes(path)),
            None => None,
        },
        argv: match &native.argv {
            Some(args) => Some(copy_strings(args)),
            None => None,
        },
        exit_code,
        signal,
        raw_exit_status,
        backend: observation.backend,
        observation_grade: observation.grade,
        coverage_complete,
        loss_detected,
    }
}

/// What the caller does for one exact event.
#[derive(Clone, Debug, PartialEq, Eq)]
pub enum ExactDelivery {
    /// Another event is being delivered: this one is lost, and coverage is no
    /// longer complete.
    Reentrant,
    /// The event, and the positions of the watches that matched it. The caller
    /// captures what they ask for, records each match, and finishes.
    Matched {
        /// The event.
        event: Arc<ProcessEvent>,
        /// Positions of the watches.
        hits: Vec<usize>,
    },
}

impl ProcessWatchEmitter {
    /// Starts the delivery of an exact event. The event is marked complete only
    /// if nothing was missed before it and it reports no loss itself.
    pub fn begin_exact(&mut self, native: &ExactTraceEvent, now: u128) -> (d: ExactDelivery)
        requires
            old(self).wf(),
        ensures
            final(self).wf(),
            final(self).spec_observation() == old(self).spec_observation(),
            final(self).delivering(),
            final(self).log() == (WatchLogModel {
                coverage_complete: old(self).log().coverage_complete && !old(self).delivering()
                    && native.kind != ExactTraceEventKind::Loss,
                ..old(self).log()
            }),
            match d {
                ExactDelivery::Reentrant => old(self).delivering() && final(self).runtimes() == old(
                    self,
                ).runtimes(),
                ExactDelivery::Matched { event, hits } => {
                    &&& !old(self).delivering()
                    &&& is_exact_event(
                        *event,
                        *native,
                        old(self).spec_observation(),
                        final(self).log().coverage_complete,
                    )
                    &&& hits@ == firing(old(self).runtimes(), *event, now)
                    &&& final(self).runtimes() == advanced(old(self).runtimes(), *event, now)
                },
            },
    {
        if self.exact_delivery_active {
            self.log.mark_incomplete();
            return ExactDelivery::Reentrant;
        }
        if native.kind == ExactTraceEventKind::Loss {
            self.log.mark_incomplete();
        }
        self.exact_delivery_active = true;
        let complete: bool = self.log.coverage_complete();
        let event = Arc::new(event_from_exact(native, &self.observation, complete));
        let hits = select_watches(&mut self.watches, &event, now);
        ExactDelivery::Matched { event, hits }
    }

    /// The watch at a position.
    pub fn watch_at(&self, position: usize) -> (w: Arc<ProcessWatch>)
        requires
            position < self.runtimes().len(),
        ensures
            w == self.runtimes()[position as int].watch,
    {
        self.watches[position].watch.clone()
    }

    /// Appends the match of one watch. A log that has no number left for it
    /// keeps its entries and is no longer complete.
    pub fn record_exact(
        &mut self,
        position: usize,
        event: &Arc<ProcessEvent>,
        dump: Option<DumpResult>,
    )
        requires
            old(self).wf(),
            position < old(self).runtimes().len(),
        ensures
            final(self).wf(),
            final(self).runtimes() == old(self).runtimes(),
            final(self).spec_observation() == old(self).spec_observation(),
            final(self).delivering() == old(self).delivering(),
            final(self).log() == if old(self).log().next < u64::MAX {
                old(self).log().pushed(
                    Arc::new(
                        ProcessWatchMatch {
                            sequence: old(self).log().next,
                            watch: old(self).runtimes()[position as int].watch,
                            event: *event,
                            dump,
                        },
                    ),
                )
            } else {
                WatchLogModel { coverage_complete: false, ..old(self).log() }
            },
    {
        if self.log.can_number(1) {
            let watch = self.watches[position].watch.clone();
            self.log.push(watch, event.clone(), dump);
        } else {
            self.log.mark_incomplete();
        }
    }

    /// Ends the delivery of an exact event.
    pub fn finish_exact(&mut self)
        requires
            old(self).wf(),
        ensures
            final(self).wf(),
            !final(self).delivering(),
            final(self).runtimes() == old(self).runtimes(),
            final(self).spec_observation() == old(self).spec_observation(),
            final(self).log() == old(self).log(),
    {
        self.exact_delivery_active = false;
    }
}

/// What to do about a capture that a watch asked for.
#[derive(Clone, Debug, PartialEq, Eq)]
pub enum DumpPlan {
    /// There is nothing to write.
    Finished(DumpResult),
    /// Write an artifact of this name and content.
    Write {
        /// Name of the file.
        file_name: String,
        /// Its content.
        content: String,
    },
}

/// A label with every character that is not a letter, digit, dash or
/// underscore of ASCII replaced by an underscore.
pub open spec fn safe_label(label: Seq<char>) -> Seq<char> {
    label.map_values(
        |c: char|
            if safe_char(c) {
                c
            } else {
                '_'
            },
    )
}

/// Whether a character may stand in a file name.
pub open spec fn safe_char(c: char) -> bool {
    let n = c as int;
    ||| 48 <= n <= 57
    ||| 65 <= n <= 90
    ||| 97 <= n <= 122
    ||| n == 45
    ||| n == 95
}

/// Renders [`safe_label`].
pub fn make_safe_label(label: &str) -> (out: String)
    ensures
        out@ == safe_label(label@),
{
    let chars = chars_of(label);
    let mut out: String = String::new();
    let mut i: usize = 0;
    while i < chars.len()
        invariant
            i <= chars@.len(),
            chars@ == label@,
            out@ == safe_label(label@).take(i as int),
        decreases chars@.len() - i,
    {
        let n: u32 = code_point(chars[i]);
        let keep: bool = (48 <= n && n <= 57) || (65 <= n && n <= 90) || (97 <= n && n <= 122) || n
            == 45 || n == 95;
        let ghost before = out@;
        if keep {
            out.push(chars[i]);
        } else {
            out.push('_');
        }
        assert(out@ =~= safe_label(label@).take(i as int + 1));
        i = i + 1;
    }
    assert(safe_label(label@).take(label@.len() as int) =~= safe_label(label@));
    out
}

/// Name of the artifact of one match.
pub open spec fn artifact_name(label: Seq<char>, pid: nat, sequence: nat) -> Seq<char> {
    safe_label(label) + "-"@ + decimal(pid) + "-"@ + decimal(sequence) + ".rpstack"@
}

/// An optional number, as artifacts spell it.
pub open spec fn optional_number(n: Option<u64>) -> Seq<char> {
    match n {
        Some(v) => "Some("@ + decimal(v as nat) + ")"@,
        None => "None"@,
    }
}

fn append_optional_number(out: &mut String, n: Option<u64>)
    ensures
        final(out)@ == old(out)@ + optional_number(n),
{
    match n {
        Some(v) => {
            out.append("Some(");
            append_decimal(out, v as u128);
            out.append(")");
        },
        None => {
            out.append("None");
        },
    }
    assert(out@ =~= old(out)@ + optional_number(n));
}

/// First part of an artifact: what was captured.
pub open spec fn origin_header(origin: TraceOriginArtifact) -> Seq<char> {
    "format=running-process-origin-v1\nthread_id="@ + decimal(origin.thread_id as nat)
        + "\nstack_pointer="@ + optional_number(origin.stack_pointer) + "\ninstruction_pointer="@
        + optional_number(origin.instruction_pointer) + "\nregister_bytes="@ + decimal(
        origin.registers@.len(),
    ) + "\nstack_bytes="@ + decimal(origin.stack@.len()) + "\ntruncated="@ + (if origin.truncated {
        "true"@
    } else {
        "false"@
    })
}

/// Content of an artifact.
pub open spec fn origin_text(origin: TraceOriginArtifact) -> Seq<char> {
    origin_header(origin) + "\nregisters="@ + hex(origin.registers@) + "\nstack="@ + hex(
        origin.stack@,
    ) + "\n"@
}

/// Renders [`origin_text`].
pub fn render_origin(origin: &TraceOriginArtifact) -> (text: String)
    ensures
        text@ == origin_text(*origin),
{
    let mut text: String = "format=running-process-origin-v1\nthread_id=".to_owned();
    append_decimal(&mut text, origin.thread_id as u128);
    text.append("\nstack_pointer=");
    append_optional_number(&mut text, origin.stack_pointer);
    text.append("\ninstruction_pointer=");
    append_optional_number(&mut text, origin.instruction_pointer);
    text.append("\nregister_bytes=");
    append_decimal(&mut text, origin.registers.len() as u128);
    text.append("\nstack_bytes=");
    append_decimal(&mut text, origin.stack.len() as u128);
    text.append("\ntruncated=");
    if origin.truncated {
        text.append("true");
    } else {
        text.append("false");
    }
    assert(text@ == origin_header(*origin));
    text.append("\nregisters=");
    append_hex(&mut text, &origin.registers);
    text.append("\nstack=");
    append_hex(&mut text, &origin.stack);
    text.append("\n");
    text
}

/// Decides what to do about a capture that a watch asked for on an exact event.
pub fn plan_dump(request: &StackDump, label: &str, event: &ExactTraceEvent) -> (plan: DumpPlan)
    ensures
        match plan {
            DumpPlan::Finished(d) => {
                &&& request.capture == StackCapture::OwnerAllThreads || event.origin is None
                &&& d.capture_source == CaptureSource::NoCapture
                &&& d.artifacts@.len() == 0
                &&& !d.symbolized
                &&& d.error is Some
                &&& d.error->0@ == if request.capture == StackCapture::OwnerAllThreads {
                    "owner all-thread capture is unavailable for this event"@
                } else {
                    "spawning-thread origin capture is unavailable for this event"@
                }
            },
            DumpPlan::Write { file_name, content } => {
                &&& request.capture != StackCapture::OwnerAllThreads
                &&& event.origin is Some
                &&& file_name@ == artifact_name(label@, event.pid as nat, event.sequence as nat)
                &&& content@ == origin_text(event.origin->0)
            },
        },
{
    if request.capture == StackCapture::OwnerAllThreads {
        return DumpPlan::Finished(
            nothing_captured("owner all-thread capture is unavailable for this event"),
        );
    }
    match &event.origin {
        None => DumpPlan::Finished(
            nothing_captured("spawning-thread origin capture is unavailable for this event"),
        ),
        Some(origin) => {
            let mut file_name: String = make_safe_label(label);
            file_name.append("-");
            append_decimal(&mut file_name, event.pid as u128);
            file_name.append("-");
            append_decimal(&mut file_name, event.sequence as u128);
            file_name.append(".rpstack");
            DumpPlan::Write { file_name, content: render_origin(origin) }
        },
    }
}

/// What a capture reports after its artifact was written to `path`.
pub fn dump_written(request: &StackDump, path: Vec<u8>) -> (d: DumpResult)
    ensures
        d.capture_source == CaptureSource::RemoteSpawningThread,
        d.artifacts@ == seq![path],
        !d.symbolized,
        request.symbolize_immediately == d.error is Some,
        d.error is Some ==> d.error->0@
            == "immediate remote symbolization is unavailable; retained a deferred raw artifact"@,
{
    let mut artifacts: Vec<Vec<u8>> = Vec::new();
    artifacts.push(path);
    assert(artifacts@ =~= seq![path]);
    DumpResult {
        capture_source: CaptureSource::RemoteSpawningThread,
        artifacts,
        symbolized: false,
        error: if request.symbolize_immediately {
            Some(
                "immediate remote symbolization is unavailable; retained a deferred raw artifact".to_owned(),
            )
        } else {
            None
        },
    }
}

/// What a capture reports when its artifact could not be written.
pub fn dump_error(error: &str) -> (d: DumpResult)
    ensures
        d.capture_source == CaptureSource::NoCapture,
        d.artifacts@.len() == 0,
        !d.symbolized,
        d.error is Some,
        d.error->0@ == error@,
{
    nothing_captured(error)
}

/// The selector of a failure watch.
pub open spec fn failure_selector(basename: Option<String>) -> WatchSelector {
    WatchSelector::Exit { code: None, signal: None, basename, failure_only: true }
}

/// The selector of an exit watch.
pub open spec fn exit_selector(
    code: Option<i32>,
    signal: Option<i32>,
    basename: Option<String>,
) -> WatchSelector {
    WatchSelector::Exit { code, signal, basename, failure_only: false }
}

/// Whether the image of an event has the final name that was asked for, if one was.
pub open spec fn has_name(event: ProcessEvent, basename: Option<String>) -> bool {
    basename matches Some(name) ==> event.executable is Some && file_name(event.executable->0@)
        == Some(encode_utf8(name@))
}

/// A watch fires exactly when its limit is not used up, its selector matches, and
/// its cooldown has passed since its last match. A clock that went back counts as
/// no time.
pub proof fn law_watches_fire(runtime: WatchRuntime, event: ProcessEvent, now: u128)
    ensures
        runtime.fires(event, now) <==> {
            &&& runtime.watch.limit matches Some(limit) ==> runtime.matched < limit
            &&& selects(runtime.watch.selector, event)
            &&& runtime.last_match matches Some(last) ==> runtime.watch.cooldown == 0 || now - last
                >= runtime.watch.cooldown
        },
{
}

/// For every exit of an image with the name that was asked for, a failure watch that
/// is unspent and cooled fires exactly if the process was ended by a signal or gave
/// an exit code other than 0. It fires on nothing but exits.
pub proof fn law_failure_watches_fire_on_failures(
    r: Result<ProcessWatch, ProcessWatchConfigurationError>,
    basename: Option<String>,
    dump: Option<StackDump>,
    limit: Option<usize>,
    cooldown: u128,
    label: String,
    matched: usize,
    last_match: Option<u128>,
    event: ProcessEvent,
    now: u128,
)
    requires
        r is Ok,
        built(
            r,
            common_fault(limit, label@),
            failure_selector(basename),
            dump,
            limit,
            cooldown,
            label,
        ),
        limit matches Some(most) ==> matched < most,
        last_match matches Some(last) ==> now - last >= cooldown,
    ensures
        (WatchRuntime { watch: Arc::new(r->Ok_0), matched, last_match }).fires(event, now) <==> {
            &&& event.kind == ProcessEventKind::Exit
            &&& has_name(event, basename)
            &&& event.signal is Some || (event.exit_code is Some && event.exit_code->0 != 0)
        },
        event.signal is None && event.exit_code == Some(0i32) ==> !(WatchRuntime {
            watch: Arc::new(r->Ok_0),
            matched,
            last_match,
        }).fires(event, now),
{
}

/// An exit watch fires on the exits with the code, the signal and the name that were
/// asked for, and on all exits where none was. A code of -1 is also seen as 255.
pub proof fn law_exit_watches_fire_on_what_was_asked(
    r: Result<ProcessWatch, ProcessWatchConfigurationError>,
    code: Option<i32>,
    signal: Option<i32>,
    basename: Option<String>,
    dump: Option<StackDump>,
    limit: Option<usize>,
    cooldown: u128,
    label: String,
    matched: usize,
    last_match: Option<u128>,
    event: ProcessEvent,
    now: u128,
)
    requires
        r is Ok,
        built(
            r,
            common_fault(limit, label@),
            exit_selector(code, signal, basename),
            dump,
            limit,
            cooldown,
            label,
        ),
        limit matches Some(most) ==> matched < most,
        last_match matches Some(last) ==> now - last >= cooldown,
    ensures
        (WatchRuntime { watch: Arc::new(r->Ok_0), matched, last_match }).fires(event, now) <==> {
            &&& event.kind == ProcessEventKind::Exit
            &&& has_name(event, basename)
            &&& code matches Some(wanted) ==> event.exit_code == Some(wanted) || (wanted == -1
                && event.exit_code == Some(255i32))
            &&& signal matches Some(wanted) ==> event.signal == Some(wanted)
        },
{
}

/// A spawn watch fires on every spawn, and an image watch on the image changes to the
/// path or the name that was asked for; a path decides alone. No watch fires on a
/// report of lost events.
pub proof fn law_spawn_and_exec_watches(
    basename: Option<String>,
    path: Option<Vec<u8>>,
    selector: WatchSelector,
    event: ProcessEvent,
)
    ensures
        selects(WatchSelector::Spawn, event) <==> event.kind == ProcessEventKind::Spawn,
        selects(WatchSelector::Exec { basename, path }, event) <==> {
            &&& event.kind == ProcessEventKind::Exec
            &&& match path {
                Some(wanted) => event.executable is Some && same_path(
                    event.executable->0@,
                    wanted@,
                ),
                None => has_name(event, basename),
            }
        },
        event.kind == ProcessEventKind::Loss ==> !selects(selector, event),
{
}

/// A watch is built exactly from a label that is not blank and a limit other than 0,
/// and has the parts that it was given.
pub proof fn law_watches_have_a_label_and_a_use(
    r: Result<ProcessWatch, ProcessWatchConfigurationError>,
    selector: WatchSelector,
    dump: Option<StackDump>,
    limit: Option<usize>,
    cooldown: u128,
    label: String,
)
    requires
        built(r, common_fault(limit, label@), selector, dump, limit, cooldown, label),
    ensures
        r is Ok <==> !crate::text::blank(label@) && limit != Some(0usize),
        r matches Ok(w) ==> {
            &&& w.selector == selector
            &&& w.dump == dump
            &&& w.limit == limit
            &&& w.cooldown == cooldown
            &&& w.label == label
        },
{
}

/// The positions that are found are those of the watches that fire, each once and in
/// order.
pub proof fn law_exactly_the_firing_watches_are_found(
    runtimes: Seq<WatchRuntime>,
    event: ProcessEvent,
    now: u128,
)
    requires
        runtimes.len() <= usize::MAX,
    ensures
        ({
            let hits = firing(runtimes, event, now);
            &&& forall|i: int|
                0 <= i < runtimes.len() ==> (#[trigger] runtimes[i].fires(event, now)
                    <==> hits.contains(i as usize))
            &&& forall|k: int|
                0 <= k < hits.len() ==> (#[trigger] hits[k]) < runtimes.len()
                    && runtimes[hits[k] as int].fires(event, now)
            &&& forall|j: int, k: int| 0 <= j < k < hits.len() ==> hits[j] < hits[k]
        }),
    decreases runtimes.len(),
{
    if runtimes.len() > 0 {
        let front = runtimes.drop_last();
        law_exactly_the_firing_watches_are_found(front, event, now);
        let before = firing(front, event, now);
        let hits = firing(runtimes, event, now);
        let n = runtimes.len() - 1;
        assert forall|i: int| 0 <= i < runtimes.len() implies (#[trigger] runtimes[i].fires(
            event,
            now,
        ) <==> hits.contains(i as usize)) by {
            if i < n {
                assert(front[i].fires(event, now) == runtimes[i].fires(event, now));
                if before.contains(i as usize) {
                    let k = choose|k: int| 0 <= k < before.len() && before[k] == i as usize;
                    assert(hits[k] == i as usize);
                }
                if hits.contains(i as usize) {
                    let k = choose|k: int| 0 <= k < hits.len() && hits[k] == i as usize;
                    if k == before.len() {
                        assert(hits[k] == n as usize);
                    }
                    assert(before[k] == i as usize);
                }
            } else {
                if runtimes.last().fires(event, now) {
                    assert(hits[before.len() as int] == n as usize);
                } else if hits.contains(n as usize) {
                    let k = choose|k: int| 0 <= k < before.len() && before[k] == n as usize;
                    assert(before[k] < front.len());
                }
            }
        }
        assert forall|k: int| 0 <= k < hits.len() implies (#[trigger] hits[k]) < runtimes.len()
            && runtimes[hits[k] as int].fires(event, now) by {
            if k < before.len() {
                assert(hits[k] == before[k]);
                assert(front[hits[k] as int] == runtimes[hits[k] as int]);
            }
        }
    }
}

/// A match is counted on the watches that fired, with its time, and on no other; the
/// watches themselves stay what they are.
pub proof fn law_matches_are_counted(
    runtimes: Seq<WatchRuntime>,
    event: ProcessEvent,
    now: u128,
    i: int,
)
    requires
        0 <= i < runtimes.len(),
    ensures
        advanced(runtimes, event, now).len() == runtimes.len(),
        ({
            let before = runtimes[i];
            let after = advanced(runtimes, event, now)[i];
            &&& after.watch == before.watch
            &&& before.fires(event, now) ==> after.last_match == Some(now) && (before.matched
                < usize::MAX ==> after.matched == before.matched + 1)
            &&& before.matched == usize::MAX ==> after.matched == usize::MAX
            &&& !before.fires(event, now) ==> after == before
        }),
{
}

/// Watches begin with no match, and a watch with a limit of `n` is spent by its `n`-th
/// match and not before.
pub proof fn law_new_watches_are_unspent(watches: Seq<ProcessWatch>, i: int, now: u128)
    requires
        0 <= i < watches.len(),
    ensures
        fresh(watches).len() == watches.len(),
        *fresh(watches)[i].watch == watches[i],
        fresh(watches)[i].matched == 0,
        fresh(watches)[i].last_match is None,
        fresh(watches)[i].cooled(now),
        watches[i].limit != Some(0usize) ==> fresh(watches)[i].unspent(),
        watches[i].limit == Some(1usize) ==> !fresh(watches)[i].after_match(now).unspent(),
{
}

/// The log after one more match ends with it and with the next number. It drops the
/// oldest match exactly where it held as many as it retains, and keeps the others.
pub proof fn law_log_appends(log: WatchLogModel, item: Arc<ProcessWatchMatch>)
    requires
        log.wf(),
        log.next < u64::MAX,
    ensures
        ({
            let after = log.pushed(item);
            &&& after.entries.len() > 0
            &&& after.entries.last() == item
            &&& after.next == log.next + 1
            &&& log.entries.len() < 256 ==> after.entries.drop_last() == log.entries && after.first
                == log.first
            &&& log.entries.len() == 256 ==> after.entries.drop_last() == log.entries.skip(1)
                && after.first == log.first + 1
            &&& after.closed == log.closed
            &&& after.coverage_complete == log.coverage_complete
        }),
{
    let after = log.pushed(item);
    if log.entries.len() < 256 {
        assert(log.entries.push(item).skip(0) =~= log.entries.push(item));
        assert(after.entries.drop_last() =~= log.entries);
    } else {
        assert(after.entries.drop_last() =~= log.entries.skip(1));
    }
}

/// A cursor that stands at a retained match reads that match, one that stands at the
/// end of a log that goes on waits, and one at the end of a closed log is told so.
pub proof fn law_cursors_read_what_is_there(
    log: WatchLogModel,
    position: u64,
    r: ProcessWatchRead,
    after: u64,
)
    requires
        log.wf(),
        log.reads(position, r, after),
    ensures
        log.first <= position < log.next ==> r == ProcessWatchRead::Match(
            log.entries[position - log.first],
        ),
        position >= log.next ==> after == position,
        position >= log.next && !log.closed ==> r is Timeout,
        position >= log.next && log.closed ==> r is Eof,
        position < log.first ==> r is Gap,
{
}

/// Without tracing, a process that appeared is reported as a spawn and one that
/// vanished as an exit of which neither code nor signal is known; so no failure watch
/// and no watch for a code or a signal ever fires on it. Coverage is never complete.
pub proof fn law_inferred_events_know_no_status(
    event: ProcessEvent,
    observation: ProcessObservation,
    pid: u32,
    started: bool,
    command_line: Option<String>,
    now: u128,
    basename: Option<String>,
    wanted: i32,
)
    requires
        is_inferred_event(event, observation, pid, started, command_line, now),
    ensures
        event.process.pid == pid,
        event.timestamp == now,
        started ==> event.kind == ProcessEventKind::Spawn,
        !started ==> event.kind == ProcessEventKind::Exit,
        event.exit_code is None && event.signal is None,
        !selects(failure_selector(basename), event),
        !selects(exit_selector(Some(wanted), None, basename), event),
        !selects(exit_selector(None, Some(wanted), basename), event),
        !started ==> selects(exit_selector(None, None, None), event),
        !event.coverage_complete,
        event.backend == observation.backend,
        event.observation_grade == observation.grade,
        command_line is None ==> event.executable is None,
{
}

/// A traced event reports what the tracer saw: the process and its parent, its image,
/// and for an exit the very code and signal, by which exit watches find it.
pub proof fn law_traced_events_keep_their_status(
    event: ProcessEvent,
    native: ExactTraceEvent,
    observation: ProcessObservation,
    coverage_complete: bool,
    code: i32,
)
    requires
        is_exact_event(event, native, observation, coverage_complete),
    ensures
        event.process.pid == native.pid,
        event.process.start_key == native.start_key,
        event.parent is Some <==> native.parent_pid is Some,
        event.parent matches Some(parent) ==> Some(parent.pid) == native.parent_pid
            && parent.start_key == native.parent_start_key,
        event.timestamp == native.timestamp,
        native.executable is None <==> event.executable is None,
        native.executable matches Some(image) ==> event.executable->0@ == image@,
        native.argv matches Some(list) ==> event.argv is Some && event.argv->0@ == list@,
        selects(WatchSelector::Spawn, event) <==> native.kind is Spawn,
        event.kind == ProcessEventKind::Exec <==> native.kind is Exec,
        selects(exit_selector(None, None, None), event) <==> native.kind is Exit,
        native.kind matches ExactTraceEventKind::Exit { exit_code, signal, raw_status } ==> {
            &&& event.exit_code == exit_code
            &&& event.signal == signal
            &&& event.raw_exit_status == Some(raw_status)
            &&& selects(exit_selector(Some(code), None, None), event) <==> exit_code == Some(code)
                || (code == -1 && exit_code == Some(255i32))
        },
        event.loss_detected <==> native.kind is Loss,
        event.coverage_complete == coverage_complete,
{
}

/// A child is traced exactly where tracing is allowed and available. Where it was only
/// allowed, the reason for going without it is given.
pub proof fn law_tracing_needs_permission(
    observation: ProcessObservation,
    policy: ObservationPolicy,
    capabilities: ProcessObservationCapabilities,
    os: HostOs,
)
    requires
        is_observation(observation, policy, capabilities, os),
    ensures
        observation.grade == ObservationGrade::ExactTrace <==> policy
            != ObservationPolicy::NonInvasive && capabilities.exact_available,
        observation.grade == ObservationGrade::ExactTrace ==> observation.backend
            == capabilities.exact_backend,
        observation.fallback_reason is Some <==> policy == ObservationPolicy::AllowTracing
            && !capabilities.exact_available,
        observation.fallback_reason matches Some(reason) ==> reason@ == capabilities.reason@,
{
}

/// A safe label is as long as the label, holds nothing but letters, digits, dashes and
/// underscores of ASCII, and keeps those where they stand; making it safe twice
/// changes nothing more.
pub proof fn law_safe_labels(label: Seq<char>)
    ensures
        safe_label(label).len() == label.len(),
        forall|i: int|
            #![trigger safe_label(label)[i]]
            0 <= i < label.len() ==> {
                let c = safe_label(label)[i];
                &&& ('a' <= c <= 'z') || ('A' <= c <= 'Z') || ('0' <= c <= '9') || c == '-' || c
                    == '_'
                &&& (('a' <= label[i] <= 'z') || ('A' <= label[i] <= 'Z') || ('0' <= label[i] <= '9')
                    || label[i] == '-' ==> c == label[i])
                &&& c == label[i] || c == '_'
            },
        safe_label(safe_label(label)) == safe_label(label),
{
    assert(safe_label(safe_label(label)) =~= safe_label(label));
}

/// A match that was only inferred comes without a capture: a watch that asked for none
/// gets none, and one that asked is told why there is none.
pub proof fn law_inferred_matches_capture_nothing(
    request: Option<StackDump>,
    dump: Option<DumpResult>,
)
    requires
        inferred_capture(request, dump),
    ensures
        request is None <==> dump is None,
        dump matches Some(d) ==> d.capture_source == CaptureSource::NoCapture && d.artifacts@.len()
            == 0 && !d.symbolized && d.error is Some,
        request is Some && (request->0).capture == StackCapture::OwnerAllThreads ==> ((
        dump->0).error->0)@ == "owner all-thread capture is unavailable from this backend"@,
        request is Some && (request->0).capture != StackCapture::OwnerAllThreads ==> ((
        dump->0).error->0)@ == "origin capture requires an exact trace backend"@,
{
}

/// A log that cannot number a match of every watch keeps what it has and says that it
/// is no longer complete.
pub proof fn law_logs_out_of_numbers_are_incomplete(
    before: WatchLogModel,
    after: WatchLogModel,
    runtimes: Seq<WatchRuntime>,
    event: ProcessEvent,
    now: u128,
)
    requires
        inferred_log(before, after, runtimes, event, now),
        before.next + runtimes.len() > u64::MAX,
    ensures
        !after.coverage_complete,
        after == (WatchLogModel { coverage_complete: false, ..before }),
{
}

} // verus!
