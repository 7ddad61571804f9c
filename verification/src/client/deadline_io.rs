//! Bounds on connecting to the daemon and on the frames that it sends, so that a
//! stalled or hostile peer can neither wedge nor exhaust the client.

use crate::errors::ErrorKind;
use crate::frame_v1::MAX_FRAME_BYTES;
use crate::text::{
    append_decimal, append_duration, chars_of, decimal, duration_text, number_within, parse_number,
    trim, trimmed,
};
use vstd::prelude::*;
use vstd::string::*;

verus! {

/// Longest wait for a connection, in milliseconds, unless it is configured.
pub const DEFAULT_CONNECT_TIMEOUT_MS: u64 = 10_000;

/// Longest wait for a connection that a configured text asks for, in
/// milliseconds.
pub open spec fn configured_timeout(raw: Option<Seq<char>>) -> nat {
    match raw {
        Some(text) => match number_within(trimmed(text), u64::MAX as nat) {
            Some(ms) => ms,
            None => DEFAULT_CONNECT_TIMEOUT_MS as nat,
        },
        None => DEFAULT_CONNECT_TIMEOUT_MS as nat,
    }
}

/// Longest wait for a connection in milliseconds, given the configured text. A
/// text that is no number is passed over.
pub fn connect_timeout(raw: Option<&str>) -> (ms: u64)
    ensures
        ms == configured_timeout(
            match raw {
                Some(text) => Some(text@),
                None => None,
            },
        ),
{
    match raw {
        Some(text) => {
            let chars = chars_of(trim(text).as_str());
            match parse_number(&chars, u64::MAX) {
                Some(ms) => ms,
                None => DEFAULT_CONNECT_TIMEOUT_MS,
            }
        },
        None => DEFAULT_CONNECT_TIMEOUT_MS,
    }
}

/// The text for a connection that was not accepted in time.
pub open spec fn connect_timeout_text(ms: nat, path: Seq<char>) -> Seq<char> {
    "daemon socket connect timed out after "@ + duration_text(ms * 1_000_000)
        + ": the socket exists but the server never accepted the connection (path "@ + path + ")"@
}

/// The text for a connection that was not accepted in time.
pub fn connect_timeout_message(ms: u64, path: &str) -> (s: String)
    ensures
        s@ == connect_timeout_text(ms as nat, path@),
{
    let mut s: String = "daemon socket connect timed out after ".to_owned();
    append_duration(&mut s, ms as u128 * 1_000_000);
    s.append(": the socket exists but the server never accepted the connection (path ");
    s.append(path);
    s.append(")");
    s
}

/// A frame that is longer than any frame may be.
#[derive(Clone, Copy, Debug, PartialEq, Eq, Structural)]
pub struct FrameTooLong {
    /// Announced length in bytes.
    pub len: usize,
}

impl FrameTooLong {
    /// Class of this error.
    pub fn kind(&self) -> (k: ErrorKind)
        ensures
            k == ErrorKind::InvalidData,
    {
        ErrorKind::InvalidData
    }

    /// Text of this error.
    pub fn message(&self) -> (s: String)
        ensures
            s@ == "daemon frame length "@ + decimal(self.len as nat) + " exceeds cap "@ + decimal(
                MAX_FRAME_BYTES as nat,
            ),
    {
        let mut s: String = "daemon frame length ".to_owned();
        append_decimal(&mut s, self.len as u128);
        s.append(" exceeds cap ");
        append_decimal(&mut s, MAX_FRAME_BYTES as u128);
        s
    }
}

/// Checks the announced length of a frame before memory is taken for it.
pub fn check_frame_len(len: usize) -> (r: Result<(), FrameTooLong>)
    ensures
        r == (if len > MAX_FRAME_BYTES {
            Err(FrameTooLong { len })
        } else {
            Ok(())
        }),
{
    if len > MAX_FRAME_BYTES {
        Err(FrameTooLong { len })
    } else {
        Ok(())
    }
}

/// A configured number of milliseconds is the wait, with blanks around it or
/// without. Without a configured text, and with one that holds only blanks, the wait
/// is ten seconds.
pub proof fn law_configured_waits(ms: nat, text: Seq<char>)
    ensures
        configured_timeout(None) == 10_000,
        ms <= u64::MAX && trimmed(text) == decimal(ms) ==> configured_timeout(Some(text)) == ms,
        trimmed(text).len() == 0 ==> configured_timeout(Some(text)) == 10_000,
        trimmed(text) == decimal(ms) && ms > u64::MAX ==> configured_timeout(Some(text)) == 10_000,
{
    crate::text::lemma_number_bound(ms, u64::MAX as nat);
}

/// The text for a connection that was not accepted names the wait and the path.
pub proof fn law_timeouts_name_wait_and_path(ms: nat, path: Seq<char>)
    ensures
        connect_timeout_text(ms, path) == "daemon socket connect timed out after "@
            + duration_text(1_000_000 * ms) + (
        ": the socket exists but the server never accepted the connection (path "@ + path + ")"@),
{
    assert(connect_timeout_text(ms, path) =~= "daemon socket connect timed out after "@
        + duration_text(1_000_000 * ms) + (
    ": the socket exists but the server never accepted the connection (path "@ + path + ")"@));
}

} // verus!
