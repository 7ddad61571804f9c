//! Error classes shared by the modules that stand in for operating-system
//! failures with plain values.

use vstd::prelude::*;

verus! {

/// The class of a failure, as callers branch on it.
#[derive(Clone, Copy, Debug, PartialEq, Eq, Structural)]
pub enum ErrorKind {
    /// An argument was malformed before any work was done.
    InvalidInput,
    /// Received data did not have the expected form.
    InvalidData,
    /// Data ended before it was complete.
    UnexpectedEof,
    /// The caller may not perform the operation.
    PermissionDenied,
    /// A named object does not exist.
    NotFound,
    /// A deadline elapsed.
    TimedOut,
    /// The operation was cancelled.
    Interrupted,
    /// The host does not offer the operation.
    Unsupported,
    /// The other side went away.
    BrokenPipe,
    /// A connection was refused because no listener was there.
    ConnectionRefused,
    /// A connection was given up by this side.
    ConnectionAborted,
    /// A named object exists already.
    AlreadyExists,
    /// A nonblocking operation would have had to wait.
    WouldBlock,
    /// A remote host cannot be reached.
    HostUnreachable,
    /// The network of a remote host cannot be reached.
    NetworkUnreachable,
    /// A connection was reset by the other side.
    ConnectionReset,
    /// An operation needs a connection that is not there.
    NotConnected,
    /// An address is in use.
    AddrInUse,
    /// An address is not on this machine.
    AddrNotAvailable,
    /// The network is down.
    NetworkDown,
    /// A directory was expected.
    NotADirectory,
    /// Something other than a directory was expected.
    IsADirectory,
    /// A directory is not empty.
    DirectoryNotEmpty,
    /// A filesystem cannot be written to.
    ReadOnlyFilesystem,
    /// A handle on a remote file is no longer valid.
    StaleNetworkFileHandle,
    /// A write took no bytes.
    WriteZero,
    /// There is no room left.
    StorageFull,
    /// A stream cannot be repositioned.
    NotSeekable,
    /// A quota is used up.
    QuotaExceeded,
    /// A file would become too large.
    FileTooLarge,
    /// A resource is busy.
    ResourceBusy,
    /// An executable is being run.
    ExecutableFileBusy,
    /// An operation would deadlock.
    Deadlock,
    /// A link or a rename would cross devices.
    CrossesDevices,
    /// A file has too many links.
    TooManyLinks,
    /// A name is not one for a file.
    InvalidFilename,
    /// An argument list is too long.
    ArgumentListTooLong,
    /// There is no memory left.
    OutOfMemory,
    /// Any other failure.
    Other,
}

/// A failure that the operating system reported.
#[derive(Clone, Debug, PartialEq, Eq)]
pub struct IoFailure {
    /// Class of the failure.
    pub kind: ErrorKind,
    /// Error number of the host, if it gave one.
    pub raw_os_error: Option<i32>,
    /// Human-readable text.
    pub text: String,
}

impl IoFailure {
    /// The same failure once more.
    pub fn copied(&self) -> (f: IoFailure)
        ensures
            f == *self,
    {
        IoFailure { kind: self.kind, raw_os_error: self.raw_os_error, text: self.text.clone() }
    }
}

} // verus!
