//! Values that describe a child process: its command, its streams, and what an
//! operation on it can report.

use crate::errors::IoFailure;
use vstd::prelude::*;

verus! {

/// One of the two output streams of a child.
#[derive(Clone, Copy, Debug, PartialEq, Eq, Structural)]
pub enum StreamKind {
    /// Standard output.
    Stdout,
    /// Standard error.
    Stderr,
}

/// Where the standard error of a child goes.
#[derive(Clone, Copy, Debug, PartialEq, Eq, Structural)]
pub enum StderrMode {
    /// Into the standard-output stream.
    Stdout,
    /// Into a stream of its own.
    Pipe,
}

/// Where the standard input of a child comes from.
#[derive(Clone, Copy, Debug, PartialEq, Eq, Structural)]
pub enum StdinMode {
    /// From the caller.
    Inherit,
    /// From a pipe that the caller writes.
    Piped,
    /// From nowhere.
    Null,
}

/// What to run.
#[derive(Clone, Debug, PartialEq, Eq)]
pub enum CommandSpec {
    /// A command line for the platform shell.
    Shell(String),
    /// A program and its arguments.
    Argv(Vec<String>),
}

/// How to run a child.
#[derive(Clone, Debug, PartialEq, Eq)]
pub struct ProcessConfig {
    /// What to run.
    pub command: CommandSpec,
    /// Working directory; the caller's if not set.
    pub cwd: Option<String>,
    /// Complete environment; the caller's if not set.
    pub env: Option<Vec<(String, String)>>,
    /// Whether output is captured.
    pub capture: bool,
    /// Where standard error goes.
    pub stderr_mode: StderrMode,
    /// Raw creation flags of the host.
    pub creationflags: Option<u32>,
    /// Whether the child gets a process group of its own.
    pub create_process_group: bool,
    /// Where standard input comes from.
    pub stdin_mode: StdinMode,
    /// Scheduling niceness.
    pub nice: Option<i32>,
    /// Address-space limit in bytes.
    pub address_space_limit_bytes: Option<u64>,
}

/// A captured line and the stream that it came from.
#[derive(Clone, Debug, PartialEq, Eq)]
pub struct StreamEvent {
    /// Stream that the line came from.
    pub stream: StreamKind,
    /// Bytes of the line.
    pub line: Vec<u8>,
}

/// What reading captured output gave.
#[derive(Clone, Debug, PartialEq, Eq)]
pub enum ReadStatus<T> {
    /// The next item.
    Line(T),
    /// The deadline elapsed first.
    Timeout,
    /// No more items will come.
    Eof,
}

/// Why an operation on a child failed.
#[derive(Clone, Debug, PartialEq, Eq)]
pub enum ProcessError {
    /// The wrapper already owns a child.
    AlreadyStarted,
    /// The wrapper owns no child.
    NotRunning,
    /// The child has no writable standard input.
    StdinUnavailable,
    /// The child could not be spawned; the failure as the host reported it.
    Spawn(IoFailure),
    /// Communication with the child failed; the failure as the host reported it.
    Io(IoFailure),
    /// The deadline elapsed first.
    Timeout,
}

} // verus!
