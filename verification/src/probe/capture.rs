//! What a capture of this process reports: modules and relative offsets, bounded in
//! depth and restricted to the threads that were asked for.

use crate::errors::{ErrorKind, IoFailure};
use crate::probe::{fill_random, zeros};
use crate::text::{append_decimal, append_hex, decimal, hex};
use vstd::prelude::*;
use vstd::string::*;

verus! {

/// Depth of a capture that asked for none.
pub const DEFAULT_MAX_DEPTH: usize = 256;

/// Format of a capture.
pub const CAPTURE_FORMAT: &'static str = "cooperative_frames";

/// The number of an internal error on the wire.
pub const PROBE_ERROR_INTERNAL: i32 = 5;

/// Number of random bytes in the name of an artifact.
pub const TOKEN_BYTES: usize = 8;

/// A loaded module.
#[derive(Clone, Debug, PartialEq, Eq)]
pub struct AttributedModule {
    /// Its name.
    pub name: String,
    /// Its path.
    pub path: Option<String>,
    /// Where it is loaded.
    pub base: u64,
}

/// A frame that was attributed to a module.
#[derive(Clone, Copy, Debug, PartialEq, Eq, Structural)]
pub struct AttributedFrame {
    /// Position of the module, if it is known.
    pub module_index: Option<u32>,
    /// Offset in the module.
    pub relative_address: u64,
}

/// A captured thread.
#[derive(Clone, Debug, PartialEq, Eq)]
pub struct AttributedThread {
    /// Its number.
    pub os_tid: u64,
    /// Its frames, innermost first.
    pub frames: Vec<AttributedFrame>,
}

/// A capture whose frames were attributed to modules.
#[derive(Clone, Debug, PartialEq, Eq)]
pub struct AttributedCapture {
    /// The modules.
    pub modules: Vec<AttributedModule>,
    /// The threads.
    pub threads: Vec<AttributedThread>,
}

/// A module in an artifact.
#[derive(Clone, Debug, PartialEq, Eq)]
pub struct RawModule {
    /// Its name.
    pub name: String,
    /// Where it is loaded.
    pub base_avma: u64,
    /// Where it may be found.
    pub path_hint: Option<String>,
}

/// A frame in an artifact.
#[derive(Clone, Copy, Debug, PartialEq, Eq, Structural)]
pub struct RawFrame {
    /// Position of the module; a position without a module where it is not known.
    pub module_index: u32,
    /// Offset in the module.
    pub relative_address: u64,
}

/// A frame of an interpreter in an artifact.
#[derive(Clone, Debug, PartialEq, Eq)]
pub struct RawPyFrame {
    /// File.
    pub file: String,
    /// Line.
    pub line: u32,
    /// Function.
    pub func: String,
}

/// A thread in an artifact.
#[derive(Clone, Debug, PartialEq, Eq)]
pub struct RawThread {
    /// Its number.
    pub os_tid: u64,
    /// Its frames, innermost first.
    pub frames: Vec<RawFrame>,
    /// Frames of its interpreter.
    pub py_frames: Vec<RawPyFrame>,
}

/// What an artifact holds.
#[derive(Clone, Debug, PartialEq, Eq)]
pub struct RawCapture {
    /// Its format.
    pub format: String,
    /// The modules.
    pub modules: Vec<RawModule>,
    /// The threads.
    pub threads: Vec<RawThread>,
}

/// The depth that a request means.
pub open spec fn depth_of(max_depth: u32) -> nat {
    if max_depth == 0 {
        DEFAULT_MAX_DEPTH as nat
    } else {
        max_depth as nat
    }
}

/// Whether a request asks for a thread.
pub open spec fn wanted(thread_filter: u32, index: int) -> bool {
    thread_filter == 0 || (0 <= index < 32 && thread_filter & (1u32 << (index as u32)) != 0)
}

/// Whether a request asks for a thread: no filter asks for all, and a filter has a
/// bit for each of the first thirty-two.
pub fn is_wanted(thread_filter: u32, index: usize) -> (b: bool)
    ensures
        b == wanted(thread_filter, index as int),
{
    if thread_filter == 0 {
        true
    } else if index < 32 {
        thread_filter & (1u32 << (index as u32)) != 0
    } else {
        false
    }
}

/// Whether an artifact's frame shows a frame: one without a module keeps its offset
/// and gets a position that no module has.
pub open spec fn shows_frame(frame: AttributedFrame, raw: RawFrame) -> bool {
    &&& raw.module_index == (match frame.module_index {
        Some(index) => index,
        None => u32::MAX,
    })
    &&& raw.relative_address == frame.relative_address
}

/// Whether an artifact's thread shows a thread, cut at a depth.
pub open spec fn shows_thread(thread: AttributedThread, raw: RawThread, depth: nat) -> bool {
    &&& raw.os_tid == thread.os_tid
    &&& raw.frames@.len() == (if thread.frames@.len() < depth {
        thread.frames@.len()
    } else {
        depth
    })
    &&& forall|i: int|
        0 <= i < raw.frames@.len() ==> shows_frame(thread.frames@[i], #[trigger] raw.frames@[i])
    &&& raw.py_frames@.len() == 0
}

/// Whether an artifact's module shows a module.
pub open spec fn shows_module(module: AttributedModule, raw: RawModule) -> bool {
    &&& raw.name == module.name
    &&& raw.base_avma == module.base
    &&& raw.path_hint == module.path
}

/// The positions of the threads that a request asks for, in order.
pub open spec fn wanted_threads(thread_filter: u32, n: int) -> Seq<int>
    decreases n,
{
    if n <= 0 {
        Seq::empty()
    } else if wanted(thread_filter, n - 1) {
        wanted_threads(thread_filter, n - 1).push(n - 1)
    } else {
        wanted_threads(thread_filter, n - 1)
    }
}

/// Whether an artifact shows a capture.
pub open spec fn shows_capture(
    capture: AttributedCapture,
    max_depth: u32,
    thread_filter: u32,
    raw: RawCapture,
) -> bool {
    let shown = wanted_threads(thread_filter, capture.threads@.len() as int);
    &&& raw.format@ == CAPTURE_FORMAT@
    &&& raw.modules@.len() == capture.modules@.len()
    &&& forall|i: int|
        0 <= i < raw.modules@.len() ==> shows_module(
            capture.modules@[i],
            #[trigger] raw.modules@[i],
        )
    &&& raw.threads@.len() == shown.len()
    &&& forall|i: int|
        0 <= i < raw.threads@.len() ==> shows_thread(
            capture.threads@[shown[i]],
            #[trigger] raw.threads@[i],
            depth_of(max_depth),
        )
}

fn raw_thread(thread: &AttributedThread, depth: usize) -> (raw: RawThread)
    ensures
        shows_thread(*thread, raw, depth as nat),
{
    let mut frames: Vec<RawFrame> = Vec::new();
    while frames.len() < thread.frames.len() && frames.len() < depth
        invariant
            frames@.len() <= thread.frames@.len(),
            frames@.len() <= depth,
            forall|i: int|
                0 <= i < frames@.len() ==> shows_frame(thread.frames@[i], #[trigger] frames@[i]),
        decreases thread.frames@.len() - frames@.len(),
    {
        let frame: AttributedFrame = thread.frames[frames.len()];
        let module_index: u32 = match frame.module_index {
            Some(index) => index,
            None => u32::MAX,
        };
        frames.push(RawFrame { module_index, relative_address: frame.relative_address });
    }
    RawThread { os_tid: thread.os_tid, frames, py_frames: Vec::new() }
}

fn raw_modules(modules: Vec<AttributedModule>) -> (raw: Vec<RawModule>)
    ensures
        raw@.len() == modules@.len(),
        forall|i: int|
            0 <= i < raw@.len() ==> shows_module(modules@[i], #[trigger] raw@[i]),
{
    let ghost all = modules@;
    let mut rest = modules;
    let mut backwards: Vec<RawModule> = Vec::new();
    while rest.len() > 0
        invariant
            rest@.len() + backwards@.len() == all.len(),
            rest@ == all.take(rest@.len() as int),
            forall|i: int|
                0 <= i < backwards@.len() ==> shows_module(
                    all[all.len() - 1 - i],
                    #[trigger] backwards@[i],
                ),
        decreases rest@.len(),
    {
        let last = rest.pop();
        if let Some(module) = last {
            assert(module == all[rest@.len() as int]);
            backwards.push(
                RawModule { name: module.name, base_avma: module.base, path_hint: module.path },
            );
            assert(rest@ =~= all.take(rest@.len() as int));
        }
    }
    let mut raw: Vec<RawModule> = Vec::new();
    while backwards.len() > 0
        invariant
            backwards@.len() + raw@.len() == all.len(),
            forall|i: int|
                0 <= i < backwards@.len() ==> shows_module(
                    all[all.len() - 1 - i],
                    #[trigger] backwards@[i],
                ),
            forall|i: int|
                0 <= i < raw@.len() ==> shows_module(all[i], #[trigger] raw@[i]),
        decreases backwards@.len(),
    {
        let last = backwards.pop();
        if let Some(module) = last {
            raw.push(module);
        }
    }
    raw
}

/// What the artifact of a capture holds.
pub fn worker_payload(capture: AttributedCapture, max_depth: u32, thread_filter: u32) -> (raw:
    RawCapture)
    ensures
        shows_capture(capture, max_depth, thread_filter, raw),
{
    let depth: usize = if max_depth == 0 {
        DEFAULT_MAX_DEPTH
    } else {
        max_depth as usize
    };
    let mut threads: Vec<RawThread> = Vec::new();
    let mut i: usize = 0;
    while i < capture.threads.len()
        invariant
            i <= capture.threads@.len(),
            depth == depth_of(max_depth),
            threads@.len() == wanted_threads(thread_filter, i as int).len(),
            forall|k: int|
                0 <= k < threads@.len() ==> shows_thread(
                    capture.threads@[wanted_threads(thread_filter, i as int)[k]],
                    #[trigger] threads@[k],
                    depth_of(max_depth),
                ),
        decreases capture.threads@.len() - i,
    {
        if is_wanted(thread_filter, i) {
            threads.push(raw_thread(&capture.threads[i], depth));
        }
        i = i + 1;
    }
    RawCapture {
        format: CAPTURE_FORMAT.to_owned(),
        modules: raw_modules(capture.modules),
        threads,
    }
}

/// No thread of an artifact is deeper than what was asked for, and none is shown
/// that was not asked for.
pub proof fn law_artifacts_are_bounded(
    capture: AttributedCapture,
    max_depth: u32,
    thread_filter: u32,
    raw: RawCapture,
)
    requires
        shows_capture(capture, max_depth, thread_filter, raw),
    ensures
        raw.threads@.len() <= capture.threads@.len(),
        forall|i: int|
            0 <= i < raw.threads@.len() ==> (#[trigger] raw.threads@[i]).frames@.len() <= depth_of(
                max_depth,
            ),
        forall|i: int|
            0 <= i < raw.threads@.len() ==> wanted(
                thread_filter,
                #[trigger] wanted_threads(thread_filter, capture.threads@.len() as int)[i],
            ),
{
    lemma_wanted_threads(thread_filter, capture.threads@.len() as int);
}

proof fn lemma_wanted_threads(thread_filter: u32, n: int)
    requires
        0 <= n,
    ensures
        wanted_threads(thread_filter, n).len() <= n,
        forall|i: int|
            0 <= i < wanted_threads(thread_filter, n).len() ==> wanted(
                thread_filter,
                #[trigger] wanted_threads(thread_filter, n)[i],
            ),
    decreases n,
{
    if n > 0 {
        lemma_wanted_threads(thread_filter, n - 1);
        let front = wanted_threads(thread_filter, n - 1);
        let all = wanted_threads(thread_filter, n);
        assert forall|i: int| 0 <= i < all.len() implies wanted(
            thread_filter,
            #[trigger] all[i],
        ) by {
            if i < front.len() {
                assert(all[i] == front[i]);
            }
        }
    }
}

/// The name of an artifact.
pub open spec fn artifact_text(pid: u32, token: Seq<u8>) -> Seq<char> {
    "rp-probe-capture-"@ + decimal(pid as nat) + "-"@ + hex(token) + ".json"@
}

/// The name of an artifact of a process, with a token.
pub fn artifact_name(pid: u32, token: &[u8]) -> (s: String)
    ensures
        s@ == artifact_text(pid, token@),
{
    let mut s: String = "rp-probe-capture-".to_owned();
    append_decimal(&mut s, pid as u128);
    s.append("-");
    append_hex(&mut s, token);
    s.append(".json");
    s
}

/// A name for a new artifact of a process. It fails where the host has no random
/// bytes; which bytes it gives is left open.
pub fn create_artifact_name(pid: u32) -> (r: Result<String, IoFailure>)
    ensures
        match r {
            Ok(name) => exists|token: Seq<u8>| #[trigger]
                token.len() == TOKEN_BYTES && name@ == artifact_text(pid, token),
            Err(failure) => failure.kind == ErrorKind::Other && failure.raw_os_error is None,
        },
{
    let mut token = zeros(TOKEN_BYTES);
    match fill_random(&mut token) {
        Ok(()) => Ok(artifact_name(pid, token.as_slice())),
        Err(text) => Err(IoFailure { kind: ErrorKind::Other, raw_os_error: None, text }),
    }
}

/// Where a capture failed.
#[derive(Debug, PartialEq, Eq)]
pub enum CaptureFailure {
    /// The threads could not be captured.
    Snapshot(String),
    /// The modules could not be listed.
    Modules(String),
    /// The artifact could not be made.
    Artifact(String),
    /// The artifact could not be encoded.
    Encoding(String),
}

impl CaptureFailure {
    /// Text of this failure.
    pub open spec fn text(self) -> Seq<char> {
        match self {
            CaptureFailure::Snapshot(detail) => "cooperative capture failed: "@ + detail@,
            CaptureFailure::Modules(detail) => "module inventory failed: "@ + detail@,
            CaptureFailure::Artifact(detail) => detail@,
            CaptureFailure::Encoding(detail) => "encode capture: "@ + detail@,
        }
    }

    /// Text of this failure.
    pub fn message(self) -> (s: String)
        ensures
            s@ == self.text(),
    {
        match self {
            CaptureFailure::Snapshot(detail) => {
                let mut s: String = "cooperative capture failed: ".to_owned();
                s.append(detail.as_str());
                s
            },
            CaptureFailure::Modules(detail) => {
                let mut s: String = "module inventory failed: ".to_owned();
                s.append(detail.as_str());
                s
            },
            CaptureFailure::Artifact(detail) => detail,
            CaptureFailure::Encoding(detail) => {
                let mut s: String = "encode capture: ".to_owned();
                s.append(detail.as_str());
                s
            },
        }
    }
}

/// A capture that was written.
#[derive(Debug, PartialEq, Eq)]
pub struct WrittenCapture {
    /// Path of its artifact.
    pub path: String,
    /// Number of threads.
    pub threads_captured: u32,
    /// Number of threads that were left out.
    pub threads_dropped: u32,
    /// How long the threads stood still, in nanoseconds.
    pub pause_ns: u64,
}

/// The answer to a capture.
#[derive(Debug, PartialEq, Eq)]
pub struct CaptureReply {
    /// When it began, in milliseconds since the Unix epoch.
    pub started_unix_ms: u64,
    /// Path of its artifact.
    pub artifact_path: String,
    /// Number of threads.
    pub threads_captured: u32,
    /// Number of threads that were left out.
    pub threads_dropped: u32,
    /// How long the threads stood still, in nanoseconds.
    pub pause_ns: u64,
    /// Number of the error; zero for none.
    pub error: i32,
    /// In words.
    pub detail: String,
}

/// Answers a capture. A failure is reported; this process goes on.
pub fn capture(started_unix_ms: u64, outcome: Result<WrittenCapture, CaptureFailure>) -> (r:
    CaptureReply)
    ensures
        r.started_unix_ms == started_unix_ms,
        match outcome {
            Ok(written) => {
                &&& r.artifact_path == written.path
                &&& r.threads_captured == written.threads_captured
                &&& r.threads_dropped == written.threads_dropped
                &&& r.pause_ns == written.pause_ns
                &&& r.error == 0
                &&& r.detail@.len() == 0
            },
            Err(failure) => {
                &&& r.artifact_path@.len() == 0
                &&& r.threads_captured == 0
                &&& r.threads_dropped == 0
                &&& r.pause_ns == 0
                &&& r.error == PROBE_ERROR_INTERNAL
                &&& r.detail@ == failure.text()
            },
        },
{
    match outcome {
        Ok(written) => CaptureReply {
            started_unix_ms,
            artifact_path: written.path,
            threads_captured: written.threads_captured,
            threads_dropped: written.threads_dropped,
            pause_ns: written.pause_ns,
            error: 0,
            detail: String::new(),
        },
        Err(failure) => CaptureReply {
            started_unix_ms,
            artifact_path: String::new(),
            threads_captured: 0,
            threads_dropped: 0,
            pause_ns: 0,
            error: PROBE_ERROR_INTERNAL,
            detail: failure.message(),
        },
    }
}

/// Without a filter every thread is asked for. A filter asks for a thread among the
/// first thirty-two by the bit with the thread's position, counted from the lowest,
/// and for no other thread.
pub proof fn law_filters_have_a_bit_for_each_thread(thread_filter: u32, index: int)
    requires
        0 <= index,
    ensures
        wanted(0, index),
        thread_filter != 0 && index >= 32 ==> !wanted(thread_filter, index),
        index < 32 ==> wanted(1u32 << (index as u32), index),
        forall|other: int|
            0 <= other < 32 && index < 32 && other != index ==> !#[trigger] wanted(
                1u32 << (index as u32),
                other,
            ),
        index < 32 && thread_filter != 0 ==> (wanted(thread_filter, index) <==> (thread_filter >> (
        index as u32)) & 1 == 1),
{
    let at = index as u32;
    if index < 32 {
        assert((1u32 << at) & (1u32 << at) != 0) by (bit_vector)
            requires
                at < 32,
        ;
        assert(((thread_filter >> at) & 1 == 1) == (thread_filter & (1u32 << at) != 0))
            by (bit_vector)
            requires
                at < 32,
        ;
        assert forall|other: int| 0 <= other < 32 && other != index implies !#[trigger] wanted(
            1u32 << at,
            other,
        ) by {
            let o = other as u32;
            assert((1u32 << at) != 0 && (1u32 << at) & (1u32 << o) == 0) by (bit_vector)
                requires
                    at < 32,
                    o < 32,
                    at != o,
            ;
        }
    }
}

/// The threads of an artifact are those that were asked for, each of them once and
/// in order: none is left out and none is added.
pub proof fn law_every_wanted_thread_is_shown(thread_filter: u32, n: int)
    requires
        0 <= n,
    ensures
        forall|k: int|
            0 <= k < n && wanted(thread_filter, k) ==> #[trigger] wanted_threads(
                thread_filter,
                n,
            ).contains(k),
        forall|i: int|
            0 <= i < wanted_threads(thread_filter, n).len() ==> 0 <= #[trigger] wanted_threads(
                thread_filter,
                n,
            )[i] < n,
        forall|i: int, j: int|
            0 <= i < j < wanted_threads(thread_filter, n).len() ==> #[trigger] wanted_threads(
                thread_filter,
                n,
            )[i] < #[trigger] wanted_threads(thread_filter, n)[j],
    decreases n,
{
    if n > 0 {
        law_every_wanted_thread_is_shown(thread_filter, n - 1);
        let front = wanted_threads(thread_filter, n - 1);
        let all = wanted_threads(thread_filter, n);
        assert forall|k: int| 0 <= k < n && wanted(thread_filter, k) implies #[trigger] all.contains(
            k,
        ) by {
            if k == n - 1 {
                assert(all[front.len() as int] == k);
            } else {
                assert(front.contains(k));
                let i = choose|i: int| 0 <= i < front.len() && front[i] == k;
                assert(all[i] == k);
            }
        }
    }
}

/// An artifact shows the threads with their numbers and their innermost frames: all
/// of them where a thread is not deeper than the request says, and otherwise as
/// many as it says, which is 256 where it says nothing.
pub proof fn law_threads_show_their_innermost_frames(
    thread: AttributedThread,
    raw: RawThread,
    max_depth: u32,
    i: int,
)
    requires
        shows_thread(thread, raw, depth_of(max_depth)),
    ensures
        raw.os_tid == thread.os_tid,
        max_depth == 0 && thread.frames@.len() <= 256 ==> raw.frames@.len()
            == thread.frames@.len(),
        max_depth == 0 && thread.frames@.len() > 256 ==> raw.frames@.len() == 256,
        max_depth > 0 && thread.frames@.len() <= max_depth ==> raw.frames@.len()
            == thread.frames@.len(),
        max_depth > 0 && thread.frames@.len() > max_depth ==> raw.frames@.len() == max_depth,
        0 <= i < raw.frames@.len() ==> raw.frames@[i].relative_address
            == thread.frames@[i].relative_address,
        0 <= i < raw.frames@.len() ==> (thread.frames@[i].module_index matches Some(index)
            ==> raw.frames@[i].module_index == index),
        0 <= i < raw.frames@.len() && thread.frames@[i].module_index is None
            ==> raw.frames@[i].module_index == 0xffff_ffff,
{
    if 0 <= i < raw.frames@.len() {
        assert(shows_frame(thread.frames@[i], raw.frames@[i]));
    }
}

/// An artifact shows every module under its name, at its address and with its path,
/// and one thread for each that was asked for, whose number it has.
pub proof fn law_artifacts_show_what_was_captured(
    capture: AttributedCapture,
    max_depth: u32,
    thread_filter: u32,
    raw: RawCapture,
    i: int,
)
    requires
        shows_capture(capture, max_depth, thread_filter, raw),
    ensures
        raw.modules@.len() == capture.modules@.len(),
        0 <= i < raw.modules@.len() ==> raw.modules@[i].name@ == capture.modules@[i].name@
            && raw.modules@[i].base_avma == capture.modules@[i].base && raw.modules@[i].path_hint
            == capture.modules@[i].path,
        thread_filter == 0 ==> raw.threads@.len() == capture.threads@.len(),
        thread_filter == 0 && 0 <= i < raw.threads@.len() ==> raw.threads@[i].os_tid
            == capture.threads@[i].os_tid,
        raw.format@ == "cooperative_frames"@,
{
    if 0 <= i < raw.modules@.len() {
        assert(shows_module(capture.modules@[i], raw.modules@[i]));
    }
    if thread_filter == 0 {
        lemma_all_threads(capture.threads@.len() as int);
        if 0 <= i < raw.threads@.len() {
            assert(shows_thread(
                capture.threads@[wanted_threads(thread_filter, capture.threads@.len() as int)[i]],
                raw.threads@[i],
                depth_of(max_depth),
            ));
        }
    }
}

proof fn lemma_all_threads(n: int)
    requires
        0 <= n,
    ensures
        wanted_threads(0, n) == Seq::new(n as nat, |i: int| i),
    decreases n,
{
    if n > 0 {
        lemma_all_threads(n - 1);
    }
    assert(wanted_threads(0, n) =~= Seq::new(n as nat, |i: int| i));
}

/// A failure is reported with what was being done, and ends with its cause.
pub proof fn law_failures_end_with_their_cause(failure: CaptureFailure)
    ensures
        match failure {
            CaptureFailure::Snapshot(detail) => detail@.is_suffix_of(failure.text())
                && "cooperative capture failed: "@.is_prefix_of(failure.text()),
            CaptureFailure::Modules(detail) => detail@.is_suffix_of(failure.text())
                && "module inventory failed: "@.is_prefix_of(failure.text()),
            CaptureFailure::Artifact(detail) => detail@ == failure.text(),
            CaptureFailure::Encoding(detail) => detail@.is_suffix_of(failure.text())
                && "encode capture: "@.is_prefix_of(failure.text()),
        },
{
}

} // verus!
