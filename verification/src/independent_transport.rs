//! Byte-preserving launch requests for independent launchers.
//!
//! A request travels through an owner-private file, never through an argument
//! list. Native strings keep their Unix bytes, or their Windows UTF-16 code
//! units as little-endian pairs (isolated surrogates too).

use crate::errors::ErrorKind;
use crate::text::{append_decimal, decimal};
use crate::wire::{
    lemma_le_u32_len, lemma_u32_at_bytes, lemma_u32_at_prefix, lemma_u32_at_shift, append_bytes, append_u32_le, contains_byte, copy_bytes, le_u32, len32, low_u32, read_u32_le,
    starts_with, u32_at,
};
use vstd::prelude::*;
use vstd::string::*;

verus! {

broadcast use lemma_le_u32_len;

/// Largest encoded request (16 MiB).
pub const MAX_REQUEST_BYTES: usize = 16777216;

/// First bytes of a request whose strings are Unix bytes.
pub const MAGIC: [u8; 9] = [82, 80, 73, 78, 68, 69, 80, 49, 0];

/// First bytes of a request whose strings are Windows code units.
pub const WINDOWS_MAGIC: [u8; 9] = [82, 80, 73, 78, 68, 69, 87, 49, 0];

/// Which native strings a request carries.
#[derive(Clone, Copy, Debug, PartialEq, Eq, Structural)]
pub enum Platform {
    /// Byte strings without NUL.
    Unix,
    /// Little-endian UTF-16 code units without a zero unit.
    Windows,
}

/// Why a launch request was refused.
#[derive(Clone, Copy, Debug, PartialEq, Eq, Structural)]
pub enum LaunchRequestError {
    /// The encoded request would exceed [`MAX_REQUEST_BYTES`].
    Oversized,
    /// The program name is empty.
    EmptyProgram,
    /// A Unix string holds NUL.
    NulInString,
    /// A Windows string is not a sequence of nonzero code units.
    InvalidWindowsString,
    /// An environment key is empty.
    EmptyEnvironmentKey,
    /// A Unix environment key holds an equals sign.
    InvalidEnvironmentKey,
    /// The received request exceeds [`MAX_REQUEST_BYTES`].
    RequestTooLarge,
    /// The received request has foreign first bytes.
    BadMagic,
    /// The request ends inside a flag or a length.
    Truncated,
    /// A byte run is longer than what is left, or than the limit.
    TruncatedOrOversized,
    /// More arguments are announced than can follow.
    ImpossibleArgumentCount,
    /// The working-directory flag is neither 0 nor 1.
    InvalidCwdFlag,
    /// More environment entries are announced than can follow.
    ImpossibleEnvironmentCount,
    /// An environment value flag is neither 0 nor 1.
    InvalidEnvFlag,
    /// Bytes follow the last environment entry.
    TrailingBytes,
    /// The request decoded, but its strings are not launchable.
    InvalidRequest,
}

impl LaunchRequestError {
    /// The class of this error.
    pub open spec fn spec_kind(self) -> ErrorKind {
        match self {
            LaunchRequestError::Oversized
            | LaunchRequestError::EmptyProgram
            | LaunchRequestError::NulInString
            | LaunchRequestError::InvalidWindowsString
            | LaunchRequestError::EmptyEnvironmentKey
            | LaunchRequestError::InvalidEnvironmentKey => ErrorKind::InvalidInput,
            LaunchRequestError::Truncated
            | LaunchRequestError::TruncatedOrOversized => ErrorKind::UnexpectedEof,
            _ => ErrorKind::InvalidData,
        }
    }

    /// The class of this error.
    pub fn kind(&self) -> (k: ErrorKind)
        ensures
            k == self.spec_kind(),
    {
        match self {
            LaunchRequestError::Oversized
            | LaunchRequestError::EmptyProgram
            | LaunchRequestError::NulInString
            | LaunchRequestError::InvalidWindowsString
            | LaunchRequestError::EmptyEnvironmentKey
            | LaunchRequestError::InvalidEnvironmentKey => ErrorKind::InvalidInput,
            LaunchRequestError::Truncated
            | LaunchRequestError::TruncatedOrOversized => ErrorKind::UnexpectedEof,
            _ => ErrorKind::InvalidData,
        }
    }

    /// The text of this error. It never holds a value of the request.
    pub open spec fn spec_message(self) -> Seq<char> {
        match self {
            LaunchRequestError::Oversized => "independent request exceeds 16 MiB"@,
            LaunchRequestError::EmptyProgram => "empty independent program"@,
            LaunchRequestError::NulInString => "NUL in independent launch string"@,
            LaunchRequestError::InvalidWindowsString => "invalid independent Windows launch string"@,
            LaunchRequestError::EmptyEnvironmentKey => "empty independent environment key"@,
            LaunchRequestError::InvalidEnvironmentKey => "invalid independent environment key"@,
            LaunchRequestError::RequestTooLarge => "independent request exceeds 16 MiB"@,
            LaunchRequestError::BadMagic => "invalid independent request magic"@,
            LaunchRequestError::Truncated => "truncated independent request"@,
            LaunchRequestError::TruncatedOrOversized => "truncated or oversized independent request"@,
            LaunchRequestError::ImpossibleArgumentCount => "impossible argument count"@,
            LaunchRequestError::InvalidCwdFlag => "invalid cwd flag"@,
            LaunchRequestError::ImpossibleEnvironmentCount => "impossible environment count"@,
            LaunchRequestError::InvalidEnvFlag => "invalid env flag"@,
            LaunchRequestError::TrailingBytes => "trailing independent request bytes"@,
            LaunchRequestError::InvalidRequest => "invalid independent launch request"@,
        }
    }

    /// The text of this error.
    pub fn message(&self) -> (m: &'static str)
        ensures
            m@ == self.spec_message(),
    {
        match self {
            LaunchRequestError::Oversized => "independent request exceeds 16 MiB",
            LaunchRequestError::EmptyProgram => "empty independent program",
            LaunchRequestError::NulInString => "NUL in independent launch string",
            LaunchRequestError::InvalidWindowsString => "invalid independent Windows launch string",
            LaunchRequestError::EmptyEnvironmentKey => "empty independent environment key",
            LaunchRequestError::InvalidEnvironmentKey => "invalid independent environment key",
            LaunchRequestError::RequestTooLarge => "independent request exceeds 16 MiB",
            LaunchRequestError::BadMagic => "invalid independent request magic",
            LaunchRequestError::Truncated => "truncated independent request",
            LaunchRequestError::TruncatedOrOversized => "truncated or oversized independent request",
            LaunchRequestError::ImpossibleArgumentCount => "impossible argument count",
            LaunchRequestError::InvalidCwdFlag => "invalid cwd flag",
            LaunchRequestError::ImpossibleEnvironmentCount => "impossible environment count",
            LaunchRequestError::InvalidEnvFlag => "invalid env flag",
            LaunchRequestError::TrailingBytes => "trailing independent request bytes",
            LaunchRequestError::InvalidRequest => "invalid independent launch request",
        }
    }
}

/// A launch request: program, arguments, working directory, and environment
/// edits in order (`None` removes the key).
#[derive(Clone, PartialEq, Eq)]
pub struct LaunchRequest {
    /// Program to run.
    pub program: Vec<u8>,
    /// Arguments, without the program name.
    pub args: Vec<Vec<u8>>,
    /// Working directory, if one is set.
    pub cwd: Option<Vec<u8>>,
    /// Environment edits, applied in order to an empty environment.
    pub environment: Vec<(Vec<u8>, Option<Vec<u8>>)>,
}

/// What a [`LaunchRequest`] holds.
#[verifier::ext_equal]
pub struct RequestModel {
    /// Program to run.
    pub program: Seq<u8>,
    /// Arguments.
    pub args: Seq<Seq<u8>>,
    /// Working directory.
    pub cwd: Option<Seq<u8>>,
    /// Environment edits.
    pub environment: Seq<(Seq<u8>, Option<Seq<u8>>)>,
}

/// The bytes of an optional byte string.
pub open spec fn optional_view(value: Option<Vec<u8>>) -> Option<Seq<u8>> {
    match value {
        Some(v) => Some(v@),
        None => None,
    }
}

/// The bytes of a list of byte strings.
pub open spec fn list_view(list: Seq<Vec<u8>>) -> Seq<Seq<u8>> {
    list.map_values(|v: Vec<u8>| v@)
}

/// The bytes of a list of environment edits.
pub open spec fn edits_view(list: Seq<(Vec<u8>, Option<Vec<u8>>)>) -> Seq<
    (Seq<u8>, Option<Seq<u8>>),
> {
    list.map_values(|e: (Vec<u8>, Option<Vec<u8>>)| (e.0@, optional_view(e.1)))
}

impl View for LaunchRequest {
    type V = RequestModel;

    open spec fn view(&self) -> RequestModel {
        RequestModel {
            program: self.program@,
            args: list_view(self.args@),
            cwd: optional_view(self.cwd),
            environment: edits_view(self.environment@),
        }
    }
}

/// First bytes of a request.
pub open spec fn magic(platform: Platform) -> Seq<u8> {
    match platform {
        Platform::Unix => MAGIC@,
        Platform::Windows => WINDOWS_MAGIC@,
    }
}

/// A byte run with its length in front.
pub open spec fn field(s: Seq<u8>) -> Seq<u8> {
    le_u32(len32(s.len())) + s
}

/// Byte runs, one after the other.
pub open spec fn fields(list: Seq<Seq<u8>>) -> Seq<u8>
    decreases list.len(),
{
    if list.len() == 0 {
        Seq::empty()
    } else {
        field(list[0]) + fields(list.skip(1))
    }
}

/// A flag, and the byte run that it announces.
pub open spec fn optional(value: Option<Seq<u8>>) -> Seq<u8> {
    match value {
        Some(v) => seq![1u8] + field(v),
        None => seq![0u8],
    }
}

/// One environment edit.
pub open spec fn entry(e: (Seq<u8>, Option<Seq<u8>>)) -> Seq<u8> {
    field(e.0) + optional(e.1)
}

/// Environment edits, one after the other.
pub open spec fn entries(list: Seq<(Seq<u8>, Option<Seq<u8>>)>) -> Seq<u8>
    decreases list.len(),
{
    if list.len() == 0 {
        Seq::empty()
    } else {
        entry(list[0]) + entries(list.skip(1))
    }
}

/// A list with its length in front.
pub open spec fn counted(n: nat, body: Seq<u8>) -> Seq<u8> {
    le_u32(len32(n)) + body
}

/// The complete encoding of a request.
pub open spec fn encoding(platform: Platform, r: RequestModel) -> Seq<u8> {
    magic(platform) + (field(r.program) + (counted(r.args.len(), fields(r.args)) + (optional(r.cwd)
        + counted(r.environment.len(), entries(r.environment)))))
}

/// Whether a native string can be handed to the operating system.
pub open spec fn launchable(platform: Platform, s: Seq<u8>) -> bool {
    match platform {
        Platform::Unix => !s.contains(0u8),
        Platform::Windows => s.len() % 2 == 0 && forall|i: int|
            0 <= i < s.len() / 2 ==> #[trigger] code_unit(s, i) != 0,
    }
}

/// Code unit number `i` of a Windows string.
pub open spec fn code_unit(s: Seq<u8>, i: int) -> u16 {
    (s[2 * i] + 256 * s[2 * i + 1]) as u16
}

/// The error for a string that is not [`launchable`].
pub open spec fn string_error(platform: Platform) -> LaunchRequestError {
    match platform {
        Platform::Unix => LaunchRequestError::NulInString,
        Platform::Windows => LaunchRequestError::InvalidWindowsString,
    }
}

/// What is wrong with one environment edit.
pub open spec fn entry_error(platform: Platform, e: (Seq<u8>, Option<Seq<u8>>)) -> Option<
    LaunchRequestError,
> {
    if !launchable(platform, e.0) {
        Some(string_error(platform))
    } else if e.0.len() == 0 {
        Some(LaunchRequestError::EmptyEnvironmentKey)
    } else if platform == Platform::Unix && e.0.contains(61u8) {
        Some(LaunchRequestError::InvalidEnvironmentKey)
    } else if e.1 is Some && !launchable(platform, e.1->0) {
        Some(string_error(platform))
    } else {
        None
    }
}

/// What is wrong with the first faulty environment edit.
pub open spec fn entries_error(platform: Platform, list: Seq<(Seq<u8>, Option<Seq<u8>>)>) -> Option<
    LaunchRequestError,
>
    decreases list.len(),
{
    if list.len() == 0 {
        None
    } else {
        match entry_error(platform, list[0]) {
            Some(e) => Some(e),
            None => entries_error(platform, list.skip(1)),
        }
    }
}

/// What is wrong with a request; `None` when it can be launched.
pub open spec fn request_error(platform: Platform, r: RequestModel) -> Option<LaunchRequestError> {
    if encoding(platform, r).len() > MAX_REQUEST_BYTES {
        Some(LaunchRequestError::Oversized)
    } else if r.program.len() == 0 {
        Some(LaunchRequestError::EmptyProgram)
    } else if !launchable(platform, r.program) {
        Some(string_error(platform))
    } else if exists|i: int| 0 <= i < r.args.len() && !launchable(platform, #[trigger] r.args[i]) {
        Some(string_error(platform))
    } else if r.cwd is Some && !launchable(platform, r.cwd->0) {
        Some(string_error(platform))
    } else {
        entries_error(platform, r.environment)
    }
}

/// Appending one byte run appends its encoding.
pub proof fn lemma_fields_push(list: Seq<Seq<u8>>, last: Seq<u8>)
    ensures
        fields(list.push(last)) == fields(list) + field(last),
    decreases list.len(),
{
    let longer = list.push(last);
    if list.len() == 0 {
        assert(longer.skip(1) =~= list);
        assert(fields(longer) =~= field(last) + fields(list));
        assert(fields(list) =~= Seq::<u8>::empty());
        assert(fields(list) + field(last) =~= field(last) + fields(list));
    } else {
        assert(longer.skip(1) =~= list.skip(1).push(last));
        lemma_fields_push(list.skip(1), last);
        assert(fields(longer) =~= fields(list) + field(last));
    }
}

/// Appending one edit appends its encoding.
pub proof fn lemma_entries_push(
    list: Seq<(Seq<u8>, Option<Seq<u8>>)>,
    last: (Seq<u8>, Option<Seq<u8>>),
)
    ensures
        entries(list.push(last)) == entries(list) + entry(last),
    decreases list.len(),
{
    let longer = list.push(last);
    if list.len() == 0 {
        assert(longer.skip(1) =~= list);
        assert(entries(list) =~= Seq::<u8>::empty());
        assert(entries(longer) =~= entries(list) + entry(last));
    } else {
        assert(longer.skip(1) =~= list.skip(1).push(last));
        lemma_entries_push(list.skip(1), last);
        assert(entries(longer) =~= entries(list) + entry(last));
    }
}

/// A prefix of a list has no longer encoding than the list.
proof fn lemma_fields_prefix(list: Seq<Seq<u8>>, n: int)
    requires
        0 <= n <= list.len(),
    ensures
        fields(list.take(n)).len() <= fields(list).len(),
    decreases list.len() - n,
{
    if n < list.len() {
        assert(list.take(n + 1) =~= list.take(n).push(list[n]));
        lemma_fields_push(list.take(n), list[n]);
        lemma_fields_prefix(list, n + 1);
    } else {
        assert(list.take(n) =~= list);
    }
}

/// A prefix of a list of edits has no longer encoding than the list.
proof fn lemma_entries_prefix(list: Seq<(Seq<u8>, Option<Seq<u8>>)>, n: int)
    requires
        0 <= n <= list.len(),
    ensures
        entries(list.take(n)).len() <= entries(list).len(),
    decreases list.len() - n,
{
    if n < list.len() {
        assert(list.take(n + 1) =~= list.take(n).push(list[n]));
        lemma_entries_push(list.take(n), list[n]);
        lemma_entries_prefix(list, n + 1);
    } else {
        assert(list.take(n) =~= list);
    }
}

/// Decides [`launchable`] and names the fault.
pub fn validate_launch_string(platform: Platform, value: &[u8]) -> (r: Result<
    (),
    LaunchRequestError,
>)
    ensures
        r == (if launchable(platform, value@) {
            Ok::<(), LaunchRequestError>(())
        } else {
            Err(string_error(platform))
        }),
{
    match platform {
        Platform::Unix => if contains_byte(value, 0) {
            Err(LaunchRequestError::NulInString)
        } else {
            Ok(())
        },
        Platform::Windows => {
            if value.len() % 2 != 0 {
                return Err(LaunchRequestError::InvalidWindowsString);
            }
            let units: usize = value.len() / 2;
            let mut i: usize = 0;
            while i < units
                invariant
                    i <= units,
                    units == value@.len() / 2,
                    value@.len() % 2 == 0,
                    platform == Platform::Windows,
                    forall|j: int| 0 <= j < i ==> #[trigger] code_unit(value@, j) != 0,
                decreases units - i,
            {
                let _len: usize = value.len();
                if value[2 * i] == 0 && value[2 * i + 1] == 0 {
                    assert(code_unit(value@, i as int) == 0);
                    return Err(LaunchRequestError::InvalidWindowsString);
                }
                assert(code_unit(value@, i as int) != 0);
                i = i + 1;
            }
            Ok(())
        },
    }
}

/// Adds `bytes` to a running length, refusing to pass [`MAX_REQUEST_BYTES`].
fn add_within_budget(length: usize, bytes: usize) -> (r: Result<usize, LaunchRequestError>)
    requires
        length <= MAX_REQUEST_BYTES,
    ensures
        r == (if length + bytes <= MAX_REQUEST_BYTES {
            Ok::<usize, LaunchRequestError>((length + bytes) as usize)
        } else {
            Err(LaunchRequestError::Oversized)
        }),
{
    if bytes > MAX_REQUEST_BYTES - length {
        Err(LaunchRequestError::Oversized)
    } else {
        Ok(length + bytes)
    }
}

/// Appends a byte run with its length in front.
pub fn write_bytes(out: &mut Vec<u8>, value: &[u8])
    ensures
        final(out)@ == old(out)@ + field(value@),
{
    append_u32_le(out, low_u32(value.len()));
    append_bytes(out, value);
    assert(out@ =~= old(out)@ + field(value@));
}

/// Appends a list of byte runs with its length in front.
pub fn write_many(out: &mut Vec<u8>, values: &[Vec<u8>])
    ensures
        final(out)@ == old(out)@ + counted(values@.len(), fields(list_view(values@))),
{
    append_u32_le(out, low_u32(values.len()));
    let ghost start = out@;
    let ghost all = list_view(values@);
    let mut i: usize = 0;
    assert(fields(all.take(0)) =~= Seq::<u8>::empty());
    assert(start =~= start + fields(all.take(0)));
    while i < values.len()
        invariant
            i <= values.len(),
            all == list_view(values@),
            out@ == start + fields(all.take(i as int)),
        decreases values.len() - i,
    {
        write_bytes(out, &values[i]);
        proof {
            assert(all.take(i as int + 1) =~= all.take(i as int).push(all[i as int]));
            lemma_fields_push(all.take(i as int), all[i as int]);
            assert(out@ =~= start + fields(all.take(i as int + 1)));
        }
        i = i + 1;
    }
    assert(all.take(all.len() as int) =~= all);
    assert(out@ =~= old(out)@ + counted(values@.len(), fields(all)));
}

/// Appends a flag, and the byte run that it announces.
fn write_optional(out: &mut Vec<u8>, value: &Option<Vec<u8>>)
    ensures
        final(out)@ == old(out)@ + optional(optional_view(*value)),
{
    match value {
        Some(v) => {
            out.push(1);
            write_bytes(out, v);
            assert(out@ =~= old(out)@ + optional(Some(v@)));
        },
        None => {
            out.push(0);
            assert(out@ =~= old(out)@ + optional(None));
        },
    }
}

impl LaunchRequest {
    /// Length of the encoding, or the error when it exceeds the limit.
    pub fn encoded_len(&self, platform: Platform) -> (r: Result<usize, LaunchRequestError>)
        ensures
            r == (if encoding(platform, self@).len() <= MAX_REQUEST_BYTES {
                Ok::<usize, LaunchRequestError>(encoding(platform, self@).len() as usize)
            } else {
                Err(LaunchRequestError::Oversized)
            }),
    {
        let ghost m = self@;
        let ghost total = encoding(platform, m).len();
        proof {
            assert(magic(platform).len() == 9);
            assert(total == 9 + 4 + m.program.len() + 4 + fields(m.args).len() + optional(m.cwd).len()
                + 4 + entries(m.environment).len());
        }
        // Magic, program length, argument count, working-directory flag, entry count.
        let base: usize = 22;
        let mut length: usize = add_within_budget(base, self.program.len())?;
        let ghost start = length as int;
        let ghost rest = optional(m.cwd).len() - 1 + entries(m.environment).len();
        let mut i: usize = 0;
        assert(fields(m.args.take(0)) =~= Seq::<u8>::empty());
        while i < self.args.len()
            invariant
                i <= self.args.len(),
                m == self@,
                length <= MAX_REQUEST_BYTES,
                length == start + fields(m.args.take(i as int)).len(),
                total == encoding(platform, m).len(),
                rest >= 0,
                total == start + fields(m.args).len() + rest,
            decreases self.args.len() - i,
        {
            proof {
                let next = m.args.take(i as int + 1);
                assert(next =~= m.args.take(i as int).push(m.args[i as int]));
                lemma_fields_push(m.args.take(i as int), m.args[i as int]);
                lemma_fields_prefix(m.args, i as int + 1);
                assert(m.args[i as int] == self.args@[i as int]@);
                assert(field(m.args[i as int]).len() == 4 + self.args@[i as int]@.len());
            }
            length = add_within_budget(length, 4)?;
            length = add_within_budget(length, self.args[i].len())?;
            i = i + 1;
        }
        assert(m.args.take(m.args.len() as int) =~= m.args);
        if let Some(cwd) = &self.cwd {
            assert(optional(m.cwd).len() == 5 + cwd@.len());
            length = add_within_budget(length, 4)?;
            length = add_within_budget(length, cwd.len())?;
        }
        let ghost start = length as int;
        let mut j: usize = 0;
        assert(entries(m.environment.take(0)) =~= Seq::<u8>::empty());
        while j < self.environment.len()
            invariant
                j <= self.environment.len(),
                m == self@,
                length <= MAX_REQUEST_BYTES,
                length == start + entries(m.environment.take(j as int)).len(),
                total == encoding(platform, m).len(),
                total == start + entries(m.environment).len(),
            decreases self.environment.len() - j,
        {
            let (key, value) = &self.environment[j];
            proof {
                let item = m.environment[j as int];
                assert(item == (key@, optional_view(*value)));
                assert(m.environment.take(j as int + 1) =~= m.environment.take(j as int).push(item));
                lemma_entries_push(m.environment.take(j as int), item);
                lemma_entries_prefix(m.environment, j as int + 1);
                assert(entry(item).len() == 4 + key@.len() + optional(item.1).len());
            }
            length = add_within_budget(length, 5)?;
            length = add_within_budget(length, key.len())?;
            if let Some(value) = value {
                assert(optional(Some(value@)).len() == 5 + value@.len());
                length = add_within_budget(length, 4)?;
                length = add_within_budget(length, value.len())?;
            }
            j = j + 1;
        }
        assert(m.environment.take(m.environment.len() as int) =~= m.environment);
        Ok(length)
    }

    /// Refuses a request that cannot be launched, before anything is created
    /// on its behalf.
    pub fn validate(&self, platform: Platform) -> (r: Result<(), LaunchRequestError>)
        ensures
            r == (match request_error(platform, self@) {
                Some(e) => Err::<(), LaunchRequestError>(e),
                None => Ok(()),
            }),
    {
        let ghost m = self@;
        let _length: usize = self.encoded_len(platform)?;
        if self.program.len() == 0 {
            return Err(LaunchRequestError::EmptyProgram);
        }
        validate_launch_string(platform, &self.program)?;
        let mut i: usize = 0;
        while i < self.args.len()
            invariant
                i <= self.args.len(),
                m == self@,
                m.program.len() > 0,
                encoding(platform, m).len() <= MAX_REQUEST_BYTES,
                launchable(platform, m.program),
                forall|j: int| 0 <= j < i ==> launchable(platform, #[trigger] m.args[j]),
            decreases self.args.len() - i,
        {
            assert(m.args[i as int] == self.args@[i as int]@);
            validate_launch_string(platform, &self.args[i])?;
            i = i + 1;
        }
        if let Some(cwd) = &self.cwd {
            validate_launch_string(platform, cwd)?;
        }
        let mut j: usize = 0;
        assert(m.environment.skip(0) =~= m.environment);
        while j < self.environment.len()
            invariant
                j <= self.environment.len(),
                m == self@,
                request_error(platform, m) == entries_error(
                    platform,
                    m.environment.skip(j as int),
                ),
            decreases self.environment.len() - j,
        {
            let (key, value) = &self.environment[j];
            proof {
                let left = m.environment.skip(j as int);
                assert(left[0] == (key@, optional_view(*value)));
                assert(left.skip(1) =~= m.environment.skip(j as int + 1));
            }
            validate_launch_string(platform, key)?;
            if key.len() == 0 {
                return Err(LaunchRequestError::EmptyEnvironmentKey);
            }
            if platform == Platform::Unix && contains_byte(key, 61) {
                return Err(LaunchRequestError::InvalidEnvironmentKey);
            }
            if let Some(value) = value {
                validate_launch_string(platform, value)?;
            }
            j = j + 1;
        }
        Ok(())
    }

    /// Encodes the request.
    pub fn encode(&self, platform: Platform) -> (out: Vec<u8>)
        ensures
            out@ == encoding(platform, self@),
    {
        let ghost m = self@;
        let mut out: Vec<u8> = match platform {
            Platform::Unix => copy_bytes(&MAGIC),
            Platform::Windows => copy_bytes(&WINDOWS_MAGIC),
        };
        write_bytes(&mut out, &self.program);
        write_many(&mut out, &self.args);
        write_optional(&mut out, &self.cwd);
        append_u32_le(&mut out, low_u32(self.environment.len()));
        let ghost start = out@;
        let mut i: usize = 0;
        assert(entries(m.environment.take(0)) =~= Seq::<u8>::empty());
        assert(start =~= start + entries(m.environment.take(0)));
        while i < self.environment.len()
            invariant
                i <= self.environment.len(),
                m == self@,
                out@ == start + entries(m.environment.take(i as int)),
            decreases self.environment.len() - i,
        {
            let (key, value) = &self.environment[i];
            write_bytes(&mut out, key);
            write_optional(&mut out, value);
            proof {
                let item = m.environment[i as int];
                assert(item == (key@, optional_view(*value)));
                assert(m.environment.take(i as int + 1) =~= m.environment.take(i as int).push(item));
                lemma_entries_push(m.environment.take(i as int), item);
                assert(out@ =~= start + entries(m.environment.take(i as int + 1)));
            }
            i = i + 1;
        }
        assert(m.environment.take(m.environment.len() as int) =~= m.environment);
        assert(out@ =~= encoding(platform, m));
        out
    }
}

/// Reads a number from the front.
pub open spec fn parse_u32(s: Seq<u8>) -> Result<(u32, Seq<u8>), LaunchRequestError> {
    if s.len() < 4 {
        Err(LaunchRequestError::Truncated)
    } else {
        Ok((u32_at(s, 0), s.skip(4)))
    }
}

/// Reads a byte run from the front.
pub open spec fn parse_field(s: Seq<u8>) -> Result<(Seq<u8>, Seq<u8>), LaunchRequestError> {
    match parse_u32(s) {
        Err(e) => Err(e),
        Ok((n, rest)) => if n > MAX_REQUEST_BYTES || rest.len() < n {
            Err(LaunchRequestError::TruncatedOrOversized)
        } else {
            Ok((rest.take(n as int), rest.skip(n as int)))
        },
    }
}

/// Reads `count` byte runs from the front.
pub open spec fn parse_fields(s: Seq<u8>, count: nat) -> Result<
    (Seq<Seq<u8>>, Seq<u8>),
    LaunchRequestError,
>
    decreases count,
{
    if count == 0 {
        Ok((Seq::empty(), s))
    } else {
        match parse_field(s) {
            Err(e) => Err(e),
            Ok((first, rest)) => match parse_fields(rest, (count - 1) as nat) {
                Err(e) => Err(e),
                Ok((others, rest)) => Ok((seq![first] + others, rest)),
            },
        }
    }
}

/// Reads a list of byte runs, with its length in front.
pub open spec fn parse_many(s: Seq<u8>) -> Result<(Seq<Seq<u8>>, Seq<u8>), LaunchRequestError> {
    match parse_u32(s) {
        Err(e) => Err(e),
        Ok((n, rest)) => if n > rest.len() / 4 {
            Err(LaunchRequestError::ImpossibleArgumentCount)
        } else {
            parse_fields(rest, n as nat)
        },
    }
}

/// Reads a flag, and the byte run that it announces.
pub open spec fn parse_optional(s: Seq<u8>, bad_flag: LaunchRequestError) -> Result<
    (Option<Seq<u8>>, Seq<u8>),
    LaunchRequestError,
> {
    if s.len() == 0 {
        Err(LaunchRequestError::Truncated)
    } else if s[0] == 0 {
        Ok((None, s.skip(1)))
    } else if s[0] == 1 {
        match parse_field(s.skip(1)) {
            Err(e) => Err(e),
            Ok((v, rest)) => Ok((Some(v), rest)),
        }
    } else {
        Err(bad_flag)
    }
}

/// Reads one environment edit from the front.
pub open spec fn parse_entry(s: Seq<u8>) -> Result<
    ((Seq<u8>, Option<Seq<u8>>), Seq<u8>),
    LaunchRequestError,
> {
    match parse_field(s) {
        Err(e) => Err(e),
        Ok((key, rest)) => match parse_optional(rest, LaunchRequestError::InvalidEnvFlag) {
            Err(e) => Err(e),
            Ok((value, rest)) => Ok(((key, value), rest)),
        },
    }
}

/// Reads `count` environment edits from the front.
pub open spec fn parse_entries(s: Seq<u8>, count: nat) -> Result<
    (Seq<(Seq<u8>, Option<Seq<u8>>)>, Seq<u8>),
    LaunchRequestError,
>
    decreases count,
{
    if count == 0 {
        Ok((Seq::empty(), s))
    } else {
        match parse_entry(s) {
            Err(e) => Err(e),
            Ok((first, rest)) => match parse_entries(rest, (count - 1) as nat) {
                Err(e) => Err(e),
                Ok((others, rest)) => Ok((seq![first] + others, rest)),
            },
        }
    }
}

/// Reads a list of environment edits, with its length in front.
pub open spec fn parse_environment(s: Seq<u8>) -> Result<
    (Seq<(Seq<u8>, Option<Seq<u8>>)>, Seq<u8>),
    LaunchRequestError,
> {
    match parse_u32(s) {
        Err(e) => Err(e),
        Ok((n, rest)) => if n > rest.len() / 5 {
            Err(LaunchRequestError::ImpossibleEnvironmentCount)
        } else {
            parse_entries(rest, n as nat)
        },
    }
}

/// Reads what follows the magic: the request before its strings are checked.
pub open spec fn parse_body(s: Seq<u8>) -> Result<RequestModel, LaunchRequestError> {
    match parse_field(s) {
        Err(e) => Err(e),
        Ok((program, s)) => match parse_many(s) {
            Err(e) => Err(e),
            Ok((args, s)) => match parse_optional(s, LaunchRequestError::InvalidCwdFlag) {
                Err(e) => Err(e),
                Ok((cwd, s)) => match parse_environment(s) {
                    Err(e) => Err(e),
                    Ok((environment, s)) => if s.len() > 0 {
                        Err(LaunchRequestError::TrailingBytes)
                    } else {
                        Ok(RequestModel { program, args, cwd, environment })
                    },
                },
            },
        },
    }
}

/// What decoding gives for every input.
pub open spec fn parse_request(platform: Platform, input: Seq<u8>) -> Result<
    RequestModel,
    LaunchRequestError,
> {
    if input.len() > MAX_REQUEST_BYTES {
        Err(LaunchRequestError::RequestTooLarge)
    } else if !magic(platform).is_prefix_of(input) {
        Err(LaunchRequestError::BadMagic)
    } else {
        match parse_body(input.skip(9)) {
            Err(e) => Err(e),
            Ok(r) => if request_error(platform, r) is Some {
                Err(LaunchRequestError::InvalidRequest)
            } else {
                Ok(r)
            },
        }
    }
}

/// Reads one flag byte at `*at`.
fn take(input: &[u8], at: &mut usize) -> (r: Result<u8, LaunchRequestError>)
    requires
        *old(at) <= input@.len(),
    ensures
        *final(at) <= input@.len(),
        match r {
            Ok(b) => *old(at) < input@.len() && b == input@[*old(at) as int] && *final(at) == *old(at)
                + 1,
            Err(e) => *old(at) == input@.len() && e == LaunchRequestError::Truncated,
        },
{
    if *at == input.len() {
        return Err(LaunchRequestError::Truncated);
    }
    let value: u8 = input[*at];
    *at = *at + 1;
    Ok(value)
}

/// Reads one number at `*at`.
fn read_u32(input: &[u8], at: &mut usize) -> (r: Result<u32, LaunchRequestError>)
    requires
        *old(at) <= input@.len(),
    ensures
        *final(at) <= input@.len(),
        match r {
            Ok(n) => parse_u32(input@.skip(*old(at) as int)) == Ok::<
                (u32, Seq<u8>),
                LaunchRequestError,
            >((n, input@.skip(*final(at) as int))),
            Err(e) => parse_u32(input@.skip(*old(at) as int)) == Err::<
                (u32, Seq<u8>),
                LaunchRequestError,
            >(e),
        },
{
    if input.len() - *at < 4 {
        return Err(LaunchRequestError::Truncated);
    }
    let n: u32 = read_u32_le(input, *at);
    proof {
        let s = input@.skip(*at as int);
        lemma_u32_at_shift(input@, *at as int);
        assert(s.skip(4) =~= input@.skip(*at + 4));
    }
    *at = *at + 4;
    Ok(n)
}

/// Reads one byte run at `*at`.
fn read_bytes(input: &[u8], at: &mut usize) -> (r: Result<Vec<u8>, LaunchRequestError>)
    requires
        *old(at) <= input@.len(),
    ensures
        *final(at) <= input@.len(),
        match r {
            Ok(v) => parse_field(input@.skip(*old(at) as int)) == Ok::<
                (Seq<u8>, Seq<u8>),
                LaunchRequestError,
            >((v@, input@.skip(*final(at) as int))),
            Err(e) => parse_field(input@.skip(*old(at) as int)) == Err::<
                (Seq<u8>, Seq<u8>),
                LaunchRequestError,
            >(e),
        },
{
    let length: usize = read_u32(input, at)? as usize;
    if length > MAX_REQUEST_BYTES || input.len() - *at < length {
        return Err(LaunchRequestError::TruncatedOrOversized);
    }
    let run: &[u8] = &input[*at..*at + length];
    proof {
        let rest = input@.skip(*at as int);
        assert(rest.take(length as int) =~= run@);
        assert(rest.skip(length as int) =~= input@.skip(*at + length));
    }
    *at = *at + length;
    Ok(copy_bytes(run))
}

/// Reads a list of byte runs at `*at`.
fn read_many(input: &[u8], at: &mut usize) -> (r: Result<Vec<Vec<u8>>, LaunchRequestError>)
    requires
        *old(at) <= input@.len(),
    ensures
        *final(at) <= input@.len(),
        match r {
            Ok(v) => parse_many(input@.skip(*old(at) as int)) == Ok::<
                (Seq<Seq<u8>>, Seq<u8>),
                LaunchRequestError,
            >((list_view(v@), input@.skip(*final(at) as int))),
            Err(e) => parse_many(input@.skip(*old(at) as int)) == Err::<
                (Seq<Seq<u8>>, Seq<u8>),
                LaunchRequestError,
            >(e),
        },
{
    let count: usize = read_u32(input, at)? as usize;
    if count > (input.len() - *at) / 4 {
        return Err(LaunchRequestError::ImpossibleArgumentCount);
    }
    let ghost goal = parse_fields(input@.skip(*at as int), count as nat);
    let mut list: Vec<Vec<u8>> = Vec::new();
    let mut i: usize = 0;
    proof {
        assert(list_view(list@) =~= Seq::<Seq<u8>>::empty());
        match goal {
            Ok((others, rest)) => {
                assert(list_view(list@) + others =~= others);
            },
            Err(_) => {},
        }
    }
    while i < count
        invariant
            i <= count,
            *at <= input@.len(),
            goal == parse_many(input@.skip(*old(at) as int)),
            goal == (match parse_fields(input@.skip(*at as int), (count - i) as nat) {
                Ok((others, rest)) => Ok::<(Seq<Seq<u8>>, Seq<u8>), LaunchRequestError>(
                    (list_view(list@) + others, rest),
                ),
                Err(e) => Err(e),
            }),
        decreases count - i,
    {
        let ghost before = list_view(list@);
        let ghost s = input@.skip(*at as int);
        let run = read_bytes(input, at)?;
        proof {
            let rest = input@.skip(*at as int);
            match parse_fields(rest, (count - i - 1) as nat) {
                Ok((others, end)) => {
                    assert(before + (seq![run@] + others) =~= before.push(run@) + others);
                },
                Err(_) => {},
            }
        }
        list.push(run);
        assert(list_view(list@) =~= before.push(run@));
        i = i + 1;
    }
    assert(list_view(list@) + Seq::<Seq<u8>>::empty() =~= list_view(list@));
    Ok(list)
}

/// Reads a flag, and the byte run that it announces.
fn read_optional(input: &[u8], at: &mut usize, bad_flag: LaunchRequestError) -> (r: Result<
    Option<Vec<u8>>,
    LaunchRequestError,
>)
    requires
        *old(at) <= input@.len(),
    ensures
        *final(at) <= input@.len(),
        match r {
            Ok(v) => parse_optional(input@.skip(*old(at) as int), bad_flag) == Ok::<
                (Option<Seq<u8>>, Seq<u8>),
                LaunchRequestError,
            >((optional_view(v), input@.skip(*final(at) as int))),
            Err(e) => parse_optional(input@.skip(*old(at) as int), bad_flag) == Err::<
                (Option<Seq<u8>>, Seq<u8>),
                LaunchRequestError,
            >(e),
        },
{
    let ghost s = input@.skip(*at as int);
    let flag: u8 = take(input, at)?;
    assert(s.skip(1) =~= input@.skip(*at as int));
    if flag == 0 {
        Ok(None)
    } else if flag == 1 {
        let value = read_bytes(input, at)?;
        Ok(Some(value))
    } else {
        Err(bad_flag)
    }
}

/// Reads a list of environment edits at `*at`.
fn read_environment(input: &[u8], at: &mut usize) -> (r: Result<
    Vec<(Vec<u8>, Option<Vec<u8>>)>,
    LaunchRequestError,
>)
    requires
        *old(at) <= input@.len(),
    ensures
        *final(at) <= input@.len(),
        match r {
            Ok(v) => parse_environment(input@.skip(*old(at) as int)) == Ok::<
                (Seq<(Seq<u8>, Option<Seq<u8>>)>, Seq<u8>),
                LaunchRequestError,
            >((edits_view(v@), input@.skip(*final(at) as int))),
            Err(e) => parse_environment(input@.skip(*old(at) as int)) == Err::<
                (Seq<(Seq<u8>, Option<Seq<u8>>)>, Seq<u8>),
                LaunchRequestError,
            >(e),
        },
{
    let count: usize = read_u32(input, at)? as usize;
    if count > (input.len() - *at) / 5 {
        return Err(LaunchRequestError::ImpossibleEnvironmentCount);
    }
    let ghost goal = parse_entries(input@.skip(*at as int), count as nat);
    let mut list: Vec<(Vec<u8>, Option<Vec<u8>>)> = Vec::new();
    let mut i: usize = 0;
    proof {
        assert(edits_view(list@) =~= Seq::<(Seq<u8>, Option<Seq<u8>>)>::empty());
        match goal {
            Ok((others, rest)) => {
                assert(edits_view(list@) + others =~= others);
            },
            Err(_) => {},
        }
    }
    while i < count
        invariant
            i <= count,
            *at <= input@.len(),
            goal == parse_environment(input@.skip(*old(at) as int)),
            goal == (match parse_entries(input@.skip(*at as int), (count - i) as nat) {
                Ok((others, rest)) => Ok::<
                    (Seq<(Seq<u8>, Option<Seq<u8>>)>, Seq<u8>),
                    LaunchRequestError,
                >((edits_view(list@) + others, rest)),
                Err(e) => Err(e),
            }),
        decreases count - i,
    {
        let ghost before = edits_view(list@);
        let key = read_bytes(input, at)?;
        let value = read_optional(input, at, LaunchRequestError::InvalidEnvFlag)?;
        let ghost item = (key@, optional_view(value));
        proof {
            let rest = input@.skip(*at as int);
            match parse_entries(rest, (count - i - 1) as nat) {
                Ok((others, end)) => {
                    assert(before + (seq![item] + others) =~= before.push(item) + others);
                },
                Err(_) => {},
            }
        }
        list.push((key, value));
        assert(edits_view(list@) =~= before.push(item));
        i = i + 1;
    }
    assert(edits_view(list@) + Seq::<(Seq<u8>, Option<Seq<u8>>)>::empty() =~= edits_view(list@));
    Ok(list)
}

impl LaunchRequest {
    /// Decodes a request and checks that it can be launched.
    pub fn decode(platform: Platform, input: &[u8]) -> (r: Result<
        LaunchRequest,
        LaunchRequestError,
    >)
        ensures
            match r {
                Ok(v) => parse_request(platform, input@) == Ok::<RequestModel, LaunchRequestError>(
                    v@,
                ),
                Err(e) => parse_request(platform, input@) == Err::<
                    RequestModel,
                    LaunchRequestError,
                >(e),
            },
    {
        if input.len() > MAX_REQUEST_BYTES {
            return Err(LaunchRequestError::RequestTooLarge);
        }
        let known: bool = match platform {
            Platform::Unix => starts_with(input, &MAGIC),
            Platform::Windows => starts_with(input, &WINDOWS_MAGIC),
        };
        if !known {
            return Err(LaunchRequestError::BadMagic);
        }
        let mut at: usize = 9;
        let program = read_bytes(input, &mut at)?;
        let args = read_many(input, &mut at)?;
        let cwd = read_optional(input, &mut at, LaunchRequestError::InvalidCwdFlag)?;
        let environment = read_environment(input, &mut at)?;
        if at != input.len() {
            return Err(LaunchRequestError::TrailingBytes);
        }
        let request = LaunchRequest { program, args, cwd, environment };
        match request.validate(platform) {
            Ok(()) => Ok(request),
            Err(_) => Err(LaunchRequestError::InvalidRequest),
        }
    }
}

proof fn lemma_append_assoc(a: Seq<u8>, b: Seq<u8>, c: Seq<u8>)
    ensures
        (a + b) + c == a + (b + c),
{
    assert((a + b) + c =~= a + (b + c));
}

proof fn lemma_optional_len(v: Option<Seq<u8>>)
    ensures
        optional(v).len() == (match v {
            Some(w) => 5 + w.len(),
            None => 1,
        }),
{
}

proof fn lemma_parse_field_prefix(v: Seq<u8>, rest: Seq<u8>)
    requires
        v.len() <= MAX_REQUEST_BYTES,
    ensures
        parse_field(field(v) + rest) == Ok::<(Seq<u8>, Seq<u8>), LaunchRequestError>((v, rest)),
{
    let s = field(v) + rest;
    assert(s =~= le_u32(len32(v.len())) + (v + rest));
    lemma_u32_at_prefix(len32(v.len()), v + rest);
    assert((v + rest).take(v.len() as int) =~= v);
    assert((v + rest).skip(v.len() as int) =~= rest);
}

proof fn lemma_parse_optional_prefix(v: Option<Seq<u8>>, rest: Seq<u8>, bad_flag: LaunchRequestError)
    requires
        v is Some ==> v->0.len() <= MAX_REQUEST_BYTES,
    ensures
        parse_optional(optional(v) + rest, bad_flag) == Ok::<
            (Option<Seq<u8>>, Seq<u8>),
            LaunchRequestError,
        >((v, rest)),
{
    let s = optional(v) + rest;
    match v {
        Some(w) => {
            assert(s.skip(1) =~= field(w) + rest);
            lemma_parse_field_prefix(w, rest);
        },
        None => {
            assert(s.skip(1) =~= rest);
        },
    }
}

proof fn lemma_parse_fields_prefix(list: Seq<Seq<u8>>, rest: Seq<u8>)
    requires
        fields(list).len() <= MAX_REQUEST_BYTES,
    ensures
        parse_fields(fields(list) + rest, list.len()) == Ok::<
            (Seq<Seq<u8>>, Seq<u8>),
            LaunchRequestError,
        >((list, rest)),
        fields(list).len() >= 4 * list.len(),
    decreases list.len(),
{
    if list.len() == 0 {
        assert(fields(list) + rest =~= rest);
        assert(list =~= Seq::<Seq<u8>>::empty());
    } else {
        let others = list.skip(1);
        lemma_parse_fields_prefix(others, rest);
        assert(fields(list) + rest =~= field(list[0]) + (fields(others) + rest));
        assert(field(list[0]).len() == 4 + list[0].len());
        lemma_parse_field_prefix(list[0], fields(others) + rest);
        assert(seq![list[0]] + others =~= list);
    }
}

proof fn lemma_parse_entries_prefix(list: Seq<(Seq<u8>, Option<Seq<u8>>)>, rest: Seq<u8>)
    requires
        entries(list).len() <= MAX_REQUEST_BYTES,
    ensures
        parse_entries(entries(list) + rest, list.len()) == Ok::<
            (Seq<(Seq<u8>, Option<Seq<u8>>)>, Seq<u8>),
            LaunchRequestError,
        >((list, rest)),
        entries(list).len() >= 5 * list.len(),
    decreases list.len(),
{
    if list.len() == 0 {
        assert(entries(list) + rest =~= rest);
        assert(list =~= Seq::<(Seq<u8>, Option<Seq<u8>>)>::empty());
    } else {
        let others = list.skip(1);
        let (key, value) = list[0];
        lemma_optional_len(value);
        lemma_parse_entries_prefix(others, rest);
        lemma_parse_entry_prefix(list[0], entries(others) + rest);
        lemma_append_assoc(entry(list[0]), entries(others), rest);
        assert(seq![list[0]] + others =~= list);
    }
}

proof fn lemma_parse_entry_prefix(e: (Seq<u8>, Option<Seq<u8>>), rest: Seq<u8>)
    requires
        entry(e).len() <= MAX_REQUEST_BYTES,
    ensures
        parse_entry(entry(e) + rest) == Ok::<
            ((Seq<u8>, Option<Seq<u8>>), Seq<u8>),
            LaunchRequestError,
        >((e, rest)),
{
    lemma_optional_len(e.1);
    lemma_append_assoc(field(e.0), optional(e.1), rest);
    lemma_parse_field_prefix(e.0, optional(e.1) + rest);
    lemma_parse_optional_prefix(e.1, rest, LaunchRequestError::InvalidEnvFlag);
}

proof fn lemma_parse_many_prefix(list: Seq<Seq<u8>>, rest: Seq<u8>)
    requires
        fields(list).len() <= MAX_REQUEST_BYTES,
    ensures
        parse_many(counted(list.len(), fields(list)) + rest) == Ok::<
            (Seq<Seq<u8>>, Seq<u8>),
            LaunchRequestError,
        >((list, rest)),
{
    lemma_append_assoc(le_u32(len32(list.len())), fields(list), rest);
    lemma_u32_at_prefix(len32(list.len()), fields(list) + rest);
    lemma_parse_fields_prefix(list, rest);
}

proof fn lemma_parse_environment_prefix(list: Seq<(Seq<u8>, Option<Seq<u8>>)>)
    requires
        entries(list).len() <= MAX_REQUEST_BYTES,
    ensures
        parse_environment(counted(list.len(), entries(list))) == Ok::<
            (Seq<(Seq<u8>, Option<Seq<u8>>)>, Seq<u8>),
            LaunchRequestError,
        >((list, Seq::empty())),
{
    let s = counted(list.len(), entries(list));
    lemma_parse_entries_prefix(list, Seq::<u8>::empty());
    assert(entries(list) + Seq::<u8>::empty() =~= entries(list));
    assert(parse_u32(s) == Ok::<(u32, Seq<u8>), LaunchRequestError>(
        (list.len() as u32, entries(list)),
    )) by {
        lemma_u32_at_prefix(len32(list.len()), entries(list));
    }
}

/// Decoding an encoded request gives the request back, for every request that
/// can be launched.
pub proof fn law_decode_inverts_encode(platform: Platform, r: RequestModel)
    requires
        request_error(platform, r) is None,
    ensures
        parse_request(platform, encoding(platform, r)) == Ok::<RequestModel, LaunchRequestError>(r),
{
    let input = encoding(platform, r);
    let environment = counted(r.environment.len(), entries(r.environment));
    let after_args = optional(r.cwd) + environment;
    let after_program = counted(r.args.len(), fields(r.args)) + after_args;
    let body = field(r.program) + after_program;
    assert(magic(platform).len() == 9);
    lemma_split_magic(platform, body);
    lemma_optional_len(r.cwd);
    lemma_parse_field_prefix(r.program, after_program);
    lemma_parse_many_prefix(r.args, after_args);
    lemma_parse_optional_prefix(r.cwd, environment, LaunchRequestError::InvalidCwdFlag);
    lemma_parse_environment_prefix(r.environment);
    assert(parse_body(body) == Ok::<RequestModel, LaunchRequestError>(r));
}

proof fn lemma_split_magic(platform: Platform, body: Seq<u8>)
    ensures
        magic(platform).is_prefix_of(magic(platform) + body),
        (magic(platform) + body).skip(9) == body,
{
    assert(magic(platform).len() == 9);
    assert((magic(platform) + body).subrange(0, 9) =~= magic(platform));
    assert((magic(platform) + body).skip(9) =~= body);
}

proof fn lemma_parse_u32_exact(s: Seq<u8>)
    requires
        parse_u32(s) is Ok,
    ensures
        s == le_u32(parse_u32(s)->Ok_0.0) + parse_u32(s)->Ok_0.1,
{
    lemma_u32_at_bytes(s, 0);
    assert(s =~= s.subrange(0, 4) + s.skip(4));
}

proof fn lemma_parse_field_exact(s: Seq<u8>)
    requires
        parse_field(s) is Ok,
    ensures
        s == field(parse_field(s)->Ok_0.0) + parse_field(s)->Ok_0.1,
{
    lemma_parse_u32_exact(s);
    let (n, rest) = parse_u32(s)->Ok_0;
    let v = rest.take(n as int);
    assert(len32(v.len()) == n);
    assert(s =~= field(v) + rest.skip(n as int));
}

proof fn lemma_parse_optional_exact(s: Seq<u8>, bad_flag: LaunchRequestError)
    requires
        parse_optional(s, bad_flag) is Ok,
    ensures
        s == optional(parse_optional(s, bad_flag)->Ok_0.0) + parse_optional(s, bad_flag)->Ok_0.1,
{
    if s[0] == 1 {
        lemma_parse_field_exact(s.skip(1));
    }
    let (v, rest) = parse_optional(s, bad_flag)->Ok_0;
    assert(s =~= seq![s[0]] + s.skip(1));
    assert(s =~= optional(v) + rest);
}

proof fn lemma_parse_fields_exact(s: Seq<u8>, count: nat)
    requires
        parse_fields(s, count) is Ok,
    ensures
        parse_fields(s, count)->Ok_0.0.len() == count,
        s == fields(parse_fields(s, count)->Ok_0.0) + parse_fields(s, count)->Ok_0.1,
    decreases count,
{
    let (list, rest) = parse_fields(s, count)->Ok_0;
    if count == 0 {
        assert(fields(list) + rest =~= s);
    } else {
        lemma_parse_field_exact(s);
        let (first, next) = parse_field(s)->Ok_0;
        lemma_parse_fields_exact(next, (count - 1) as nat);
        let others = parse_fields(next, (count - 1) as nat)->Ok_0.0;
        assert(list.skip(1) =~= others);
        assert(s =~= fields(list) + rest);
    }
}

proof fn lemma_parse_entries_exact(s: Seq<u8>, count: nat)
    requires
        parse_entries(s, count) is Ok,
    ensures
        parse_entries(s, count)->Ok_0.0.len() == count,
        s == entries(parse_entries(s, count)->Ok_0.0) + parse_entries(s, count)->Ok_0.1,
    decreases count,
{
    let (list, rest) = parse_entries(s, count)->Ok_0;
    if count == 0 {
        assert(entries(list) + rest =~= s);
    } else {
        lemma_parse_field_exact(s);
        let (key, after_key) = parse_field(s)->Ok_0;
        lemma_parse_optional_exact(after_key, LaunchRequestError::InvalidEnvFlag);
        let (first, next) = parse_entry(s)->Ok_0;
        assert(s =~= entry(first) + next);
        lemma_parse_entries_exact(next, (count - 1) as nat);
        let others = parse_entries(next, (count - 1) as nat)->Ok_0.0;
        assert(list.skip(1) =~= others);
        assert(s =~= entries(list) + rest);
    }
}

/// Only the encoding of a request decodes to it: an accepted input is the
/// encoding of what it decodes to, and that request can be launched.
pub proof fn law_encode_inverts_decode(platform: Platform, input: Seq<u8>)
    requires
        parse_request(platform, input) is Ok,
    ensures
        input == encoding(platform, parse_request(platform, input)->Ok_0),
        request_error(platform, parse_request(platform, input)->Ok_0) is None,
{
    let body = input.skip(9);
    assert(magic(platform).len() == 9);
    assert(input =~= magic(platform) + body);
    lemma_parse_body_exact(body);
}

proof fn lemma_counted(n: u32, len: nat, body: Seq<u8>, end: Seq<u8>)
    requires
        len == n as nat,
    ensures
        le_u32(n) + (body + end) == counted(len, body) + end,
{
    assert(len32(len) == n);
    lemma_append_assoc(le_u32(n), body, end);
}

proof fn lemma_parse_many_exact(s: Seq<u8>)
    requires
        parse_many(s) is Ok,
    ensures
        s == counted(parse_many(s)->Ok_0.0.len(), fields(parse_many(s)->Ok_0.0))
            + parse_many(s)->Ok_0.1,
{
    lemma_parse_u32_exact(s);
    let (n, rest) = parse_u32(s)->Ok_0;
    lemma_parse_fields_exact(rest, n as nat);
    let (list, end) = parse_many(s)->Ok_0;
    lemma_counted(n, list.len(), fields(list), end);
}

proof fn lemma_parse_environment_exact(s: Seq<u8>)
    requires
        parse_environment(s) is Ok,
    ensures
        s == counted(parse_environment(s)->Ok_0.0.len(), entries(parse_environment(s)->Ok_0.0))
            + parse_environment(s)->Ok_0.1,
{
    lemma_parse_u32_exact(s);
    let (n, rest) = parse_u32(s)->Ok_0;
    lemma_parse_entries_exact(rest, n as nat);
    let (list, end) = parse_environment(s)->Ok_0;
    lemma_counted(n, list.len(), entries(list), end);
}

proof fn lemma_parse_body_exact(body: Seq<u8>)
    requires
        parse_body(body) is Ok,
    ensures
        ({
            let r = parse_body(body)->Ok_0;
            body == field(r.program) + (counted(r.args.len(), fields(r.args)) + (optional(r.cwd)
                + counted(r.environment.len(), entries(r.environment))))
        }),
{
    lemma_parse_field_exact(body);
    let (program, s1) = parse_field(body)->Ok_0;
    lemma_parse_many_exact(s1);
    let (args, s2) = parse_many(s1)->Ok_0;
    lemma_parse_optional_exact(s2, LaunchRequestError::InvalidCwdFlag);
    let (cwd, s3) = parse_optional(s2, LaunchRequestError::InvalidCwdFlag)->Ok_0;
    lemma_parse_environment_exact(s3);
    let (environment, s4) = parse_environment(s3)->Ok_0;
    let tail = counted(environment.len(), entries(environment));
    assert(tail + s4 =~= tail);
}

impl LaunchRequest {
    /// A rendering for logs: the counts, and none of the values.
    pub fn redacted(&self) -> (out: String)
        ensures
            out@ == redacted_text(self.args@.len(), self.environment@.len()),
    {
        let mut out: String = String::new();
        out.append("LaunchRequest { argument_count: ");
        append_decimal(&mut out, self.args.len() as u128);
        out.append(", environment_count: ");
        append_decimal(&mut out, self.environment.len() as u128);
        out.append(", .. }");
        assert(out@ =~= redacted_text(self.args@.len(), self.environment@.len()));
        out
    }
}

/// What [`LaunchRequest::redacted`] renders.
pub open spec fn redacted_text(args: nat, environment: nat) -> Seq<char> {
    "LaunchRequest { argument_count: "@ + decimal(args) + ", environment_count: "@ + decimal(
        environment,
    ) + ", .. }"@
}

/// A Unix string can be launched unless it holds a zero byte, and a Windows string if
/// its bytes pair up and no pair is zero.
pub proof fn law_launchable_strings(s: Seq<u8>)
    ensures
        launchable(Platform::Unix, s) <==> forall|i: int| 0 <= i < s.len() ==> s[i] != 0,
        launchable(Platform::Windows, s) <==> s.len() % 2 == 0 && forall|i: int|
            0 <= i < s.len() / 2 ==> #[trigger] s[2 * i] != 0 || s[2 * i + 1] != 0,
{
    if launchable(Platform::Windows, s) {
        assert forall|i: int| 0 <= i < s.len() / 2 implies #[trigger] s[2 * i] != 0 || s[2 * i + 1]
            != 0 by {
            assert(code_unit(s, i) != 0);
        }
    }
    if s.len() % 2 == 0 && (forall|i: int|
        0 <= i < s.len() / 2 ==> #[trigger] s[2 * i] != 0 || s[2 * i + 1] != 0) {
        assert forall|i: int| 0 <= i < s.len() / 2 implies #[trigger] code_unit(s, i) != 0 by {
            assert(s[2 * i] != 0 || s[2 * i + 1] != 0);
        }
    }
}

proof fn lemma_entries_error(platform: Platform, list: Seq<(Seq<u8>, Option<Seq<u8>>)>)
    ensures
        entries_error(platform, list) is None <==> forall|i: int|
            0 <= i < list.len() ==> entry_error(platform, #[trigger] list[i]) is None,
    decreases list.len(),
{
    if list.len() > 0 {
        lemma_entries_error(platform, list.skip(1));
        let rest = list.skip(1);
        if entries_error(platform, list) is None {
            assert forall|i: int| 0 <= i < list.len() implies entry_error(
                platform,
                #[trigger] list[i],
            ) is None by {
                if i > 0 {
                    assert(rest[i - 1] == list[i]);
                }
            }
        }
        if forall|i: int| 0 <= i < list.len() ==> entry_error(platform, #[trigger] list[i]) is None {
            assert forall|i: int| 0 <= i < rest.len() implies entry_error(
                platform,
                #[trigger] rest[i],
            ) is None by {
                assert(rest[i] == list[i + 1]);
            }
        }
    }
}

/// A request can be launched exactly if it fits, names a program, and every string in it
/// can be launched: the program, each argument, the directory, each key and each value;
/// no key is empty, and on Unix none holds an equals sign.
pub proof fn law_launchable_requests(platform: Platform, r: RequestModel)
    ensures
        request_error(platform, r) is None <==> {
            &&& encoding(platform, r).len() <= 16 * 1024 * 1024
            &&& r.program.len() > 0
            &&& launchable(platform, r.program)
            &&& forall|i: int| 0 <= i < r.args.len() ==> launchable(platform, #[trigger] r.args[i])
            &&& r.cwd matches Some(cwd) ==> launchable(platform, cwd)
            &&& forall|i: int|
                0 <= i < r.environment.len() ==> {
                    let (key, value) = #[trigger] r.environment[i];
                    &&& key.len() > 0
                    &&& launchable(platform, key)
                    &&& platform == Platform::Unix ==> !key.contains('=' as u8)
                    &&& value matches Some(v) ==> launchable(platform, v)
                }
        },
        encoding(platform, r).len() > 16 * 1024 * 1024 ==> request_error(platform, r) == Some(
            LaunchRequestError::Oversized,
        ),
        encoding(platform, r).len() <= 16 * 1024 * 1024 && r.program.len() == 0 ==> request_error(
            platform,
            r,
        ) == Some(LaunchRequestError::EmptyProgram),
{
    lemma_entries_error(platform, r.environment);
    let fine = |e: (Seq<u8>, Option<Seq<u8>>)|
        {
            &&& e.0.len() > 0
            &&& launchable(platform, e.0)
            &&& platform == Platform::Unix ==> !e.0.contains('=' as u8)
            &&& e.1 matches Some(v) ==> launchable(platform, v)
        };
    assert forall|i: int| 0 <= i < r.environment.len() implies (entry_error(
        platform,
        #[trigger] r.environment[i],
    ) is None <==> fine(r.environment[i])) by {}
}

/// An encoded request begins with the name of its protocol, which tells the platform,
/// and with the program behind its length, lowest byte first.
pub proof fn law_request_layout(platform: Platform, r: RequestModel)
    requires
        request_error(platform, r) is None,
    ensures
        ({
            let bytes = encoding(platform, r);
            let n = r.program.len() as int;
            &&& bytes.len() >= 9 + 4 + n + 4 + 1 + 4
            &&& bytes.subrange(0, 6) == seq![
                'R' as u8,
                'P' as u8,
                'I' as u8,
                'N' as u8,
                'D' as u8,
                'E' as u8,
            ]
            &&& bytes[6] == (if platform == Platform::Unix {
                'P' as u8
            } else {
                'W' as u8
            })
            &&& bytes[7] == '1' as u8
            &&& bytes[8] == 0
            &&& u32_at(bytes, 9) == n
            &&& bytes.subrange(13, 13 + n) == r.program
            &&& u32_at(bytes, 13 + n) == r.args.len()
        }),
{
    let bytes = encoding(platform, r);
    let n = r.program.len() as int;
    let tail = optional(r.cwd) + counted(r.environment.len(), entries(r.environment));
    let middle = counted(r.args.len(), fields(r.args)) + tail;
    lemma_optional_len(r.cwd);
    assert(magic(platform).len() == 9);
    lemma_parse_fields_prefix(r.args, Seq::empty());
    assert(bytes.subrange(0, 6) =~= seq![82u8, 80u8, 73u8, 78u8, 68u8, 69u8]);
    assert(bytes.skip(9) =~= field(r.program) + middle);
    lemma_parse_field_prefix(r.program, middle);
    assert(parse_u32(bytes.skip(9)) is Ok);
    lemma_u32_at_shift(bytes, 9);
    assert(bytes.subrange(13, 13 + n) =~= r.program);
    assert(bytes.skip(13 + n) =~= middle);
    lemma_u32_at_shift(bytes, 13 + n);
    assert(middle.subrange(0, 4) =~= le_u32(len32(r.args.len())));
    lemma_u32_at_prefix(len32(r.args.len()), fields(r.args) + tail);
    assert(middle =~= le_u32(len32(r.args.len())) + (fields(r.args) + tail));
}

} // verus!
