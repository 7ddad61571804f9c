//! The host that a decision is made for. Decisions that differ between operating
//! systems take the host, or the numbers that its C library gives, as an argument.

use vstd::prelude::*;

verus! {

/// An operating system.
#[derive(Clone, Copy, Debug, PartialEq, Eq, Structural)]
pub enum HostOs {
    /// Linux.
    Linux,
    /// Windows.
    Windows,
    /// macOS.
    MacOs,
    /// Any other system.
    Other,
}

/// Numbers that the C library of a host gives.
#[derive(Clone, Copy, Debug, PartialEq, Eq, Structural)]
pub struct HostNumbers {
    /// Error number of a system call that is not there (`ENOSYS`).
    pub not_implemented: i32,
    /// Error number of a connection in progress (`EINPROGRESS`).
    pub in_progress: i32,
    /// Error number of a call that a signal interrupted (`EINTR`).
    pub interrupted: i32,
    /// Room for a socket path and its terminator, in bytes.
    pub socket_path_room: usize,
}

} // verus!
