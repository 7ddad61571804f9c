//! Explicit containment placement for detached daemons.
//!
//! Detaching a process changes its terminal and its lifetime, not its resource
//! group. Independent placement therefore needs an external launcher and never
//! degrades to the direct path. This module holds the launch request, the
//! errors, the capability report, and the launch protocol with a systemd user
//! manager or an external broker as a state machine over the events of the
//! outside.

use crate::errors::{ErrorKind, IoFailure};
use crate::host::HostNumbers;
use crate::independent_command::CommandImage;
use crate::independent_transport::Platform;
use crate::keyed::{
    contents, distinct_keys, lemma_contents_at, lemma_contents_domain, lemma_contents_push,
    lemma_contents_remove, lemma_contents_update,
};
use crate::text::{
    append_decimal, append_duration, chars_of, decimal, digits_within, duration_text, is_digit,
    lemma_decimal_len, lemma_decimal_round_trip, lemma_first_word, parse_digits, separates,
    word_ranges, words, Blanks,
};
use crate::wire::{bytes_equal, contains_byte, copy_bytes};
use vstd::prelude::*;
use vstd::slice::slice_subrange;
use vstd::string::*;
use vstd::utf8::*;

verus! {

/// Requested resource-containment placement.
#[derive(Clone, Copy, Debug, PartialEq, Eq, Structural)]
pub enum SpawnMode {
    /// Direct spawn into the caller's resource group.
    Inherited,
    /// Verified placement outside the caller's resource group.
    Independent,
}

impl Default for SpawnMode {
    fn default() -> (m: SpawnMode)
        ensures
            m == SpawnMode::Inherited,
    {
        SpawnMode::Inherited
    }
}

/// Whether a native string cannot be passed to a process.
pub open spec fn bad_native_string(value: Seq<u8>) -> bool {
    value.contains(0)
}

/// Whether a name cannot be an environment key.
pub open spec fn bad_environment_key(platform: Platform, key: Seq<u8>) -> bool {
    key.len() == 0 || bad_native_string(key) || (platform == Platform::Unix && key.contains(61))
}

fn invalid_native_string(value: &[u8]) -> (b: bool)
    ensures
        b == bad_native_string(value@),
{
    contains_byte(value, 0)
}

fn invalid_environment_key(platform: Platform, key: &[u8]) -> (b: bool)
    ensures
        b == bad_environment_key(platform, key@),
{
    key.len() == 0 || invalid_native_string(key) || (platform == Platform::Unix && contains_byte(
        key,
        61,
    ))
}

/// A daemon command that either placement accepts: its streams are null, and it
/// carries no handles and no native hooks. Its strings are the byte strings of a
/// Unix host, and the bytes of an environment key tell it apart.
#[derive(Clone, Debug, PartialEq, Eq)]
pub struct DaemonSpawnRequest {
    command: CommandImage,
    clear_environment: bool,
    invalid_input: bool,
}

/// What a [`DaemonSpawnRequest`] holds.
#[verifier::ext_equal]
pub struct DaemonRequestModel {
    /// Program to run.
    pub program: Seq<u8>,
    /// Arguments, without the program name.
    pub args: Seq<Seq<u8>>,
    /// Working directory that was set, if any.
    pub current_dir: Option<Seq<u8>>,
    /// Environment edits; `None` removes the key.
    pub envs: Map<Seq<u8>, Option<Seq<u8>>>,
    /// Whether the ambient environment is dropped.
    pub clear_environment: bool,
    /// Whether some input cannot be passed to a process.
    pub invalid_input: bool,
}

/// The bytes of an optional value.
pub open spec fn bytes_of(value: Option<Vec<u8>>) -> Option<Seq<u8>> {
    match value {
        Some(v) => Some(v@),
        None => None,
    }
}

/// The environment edits as pairs of plain values.
pub open spec fn edit_entries(envs: Seq<(Vec<u8>, Option<Vec<u8>>)>) -> Seq<
    (Seq<u8>, Option<Seq<u8>>),
> {
    envs.map_values(|e: (Vec<u8>, Option<Vec<u8>>)| (e.0@, bytes_of(e.1)))
}

impl View for DaemonSpawnRequest {
    type V = DaemonRequestModel;

    closed spec fn view(&self) -> DaemonRequestModel {
        DaemonRequestModel {
            program: self.command.program@,
            args: self.command.args@.map_values(|a: Vec<u8>| a@),
            current_dir: bytes_of(self.command.current_dir),
            envs: contents(edit_entries(self.command.envs@)),
            clear_environment: self.clear_environment,
            invalid_input: self.invalid_input,
        }
    }
}

impl DaemonSpawnRequest {
    /// Whether every environment key is edited once.
    pub closed spec fn wf(&self) -> bool {
        distinct_keys(edit_entries(self.command.envs@))
    }

    /// A request for a program.
    pub fn new(program: &[u8]) -> (r: DaemonSpawnRequest)
        ensures
            r.wf(),
            r@ == (DaemonRequestModel {
                program: program@,
                args: Seq::empty(),
                current_dir: None,
                envs: Map::empty(),
                clear_environment: false,
                invalid_input: program@.len() == 0 || bad_native_string(program@),
            }),
    {
        let r = DaemonSpawnRequest {
            command: CommandImage {
                program: copy_bytes(program),
                args: Vec::new(),
                current_dir: None,
                envs: Vec::new(),
            },
            clear_environment: false,
            invalid_input: program.len() == 0 || invalid_native_string(program),
        };
        assert(r@.args =~= Seq::<Seq<u8>>::empty());
        r
    }

    /// Appends one literal argument, without shell parsing.
    pub fn arg(&mut self, argument: &[u8])
        requires
            old(self).wf(),
        ensures
            final(self).wf(),
            final(self)@ == (DaemonRequestModel {
                args: old(self)@.args.push(argument@),
                invalid_input: old(self)@.invalid_input || bad_native_string(argument@),
                ..old(self)@
            }),
    {
        if invalid_native_string(argument) {
            self.invalid_input = true;
        }
        self.command.args.push(copy_bytes(argument));
        assert(self@.args =~= old(self)@.args.push(argument@));
    }

    /// Appends literal arguments, in order.
    pub fn args(&mut self, arguments: &Vec<Vec<u8>>)
        requires
            old(self).wf(),
        ensures
            final(self).wf(),
            final(self)@ == (DaemonRequestModel {
                args: old(self)@.args + arguments@.map_values(|a: Vec<u8>| a@),
                invalid_input: old(self)@.invalid_input || exists|i: int|
                    0 <= i < arguments@.len() && bad_native_string((#[trigger] arguments@[i])@),
                ..old(self)@
            }),
    {
        let ghost all = arguments@.map_values(|a: Vec<u8>| a@);
        let mut i: usize = 0;
        while i < arguments.len()
            invariant
                i <= arguments@.len(),
                self.wf(),
                all == arguments@.map_values(|a: Vec<u8>| a@),
                self@ == (DaemonRequestModel {
                    args: old(self)@.args + all.take(i as int),
                    invalid_input: self@.invalid_input,
                    ..old(self)@
                }),
                self@.invalid_input == (old(self)@.invalid_input || exists|j: int|
                    0 <= j < i && bad_native_string((#[trigger] arguments@[j])@)),
            decreases arguments@.len() - i,
        {
            let ghost before = self@;
            self.arg(&arguments[i]);
            proof {
                assert(self@.args =~= old(self)@.args + all.take(i as int + 1));
                assert forall|j: int|
                    0 <= j < i + 1 && bad_native_string(
                        (#[trigger] arguments@[j])@,
                    ) implies self@.invalid_input by {
                    if j == i {
                        assert(bad_native_string(arguments@[i as int]@));
                    }
                }
                if self@.invalid_input && !old(self)@.invalid_input {
                    if before.invalid_input {
                        let j = choose|j: int|
                            0 <= j < i && bad_native_string((#[trigger] arguments@[j])@);
                        assert(0 <= j < i + 1 && bad_native_string(arguments@[j]@));
                    } else {
                        assert(bad_native_string(arguments@[i as int]@));
                    }
                }
            }
            i = i + 1;
        }
        assert(all.take(arguments@.len() as int) =~= all);
    }

    /// Sets the working directory.
    pub fn current_dir(&mut self, directory: &[u8])
        requires
            old(self).wf(),
        ensures
            final(self).wf(),
            final(self)@ == (DaemonRequestModel {
                current_dir: Some(directory@),
                invalid_input: old(self)@.invalid_input || bad_native_string(directory@),
                ..old(self)@
            }),
    {
        if invalid_native_string(directory) {
            self.invalid_input = true;
        }
        self.command.current_dir = Some(copy_bytes(directory));
    }

    fn find(&self, key: &[u8]) -> (r: Option<usize>)
        requires
            self.wf(),
        ensures
            match r {
                Some(i) => i < self.command.envs@.len() && self.command.envs@[i as int].0@ == key@
                    && self@.envs.dom().contains(key@),
                None => !self@.envs.dom().contains(key@),
            },
    {
        let ghost entries = edit_entries(self.command.envs@);
        let mut i: usize = 0;
        while i < self.command.envs.len()
            invariant
                i <= self.command.envs@.len(),
                entries == edit_entries(self.command.envs@),
                distinct_keys(entries),
                self@.envs == contents(entries),
                forall|j: int| 0 <= j < i ==> (#[trigger] entries[j]).0 != key@,
            decreases self.command.envs@.len() - i,
        {
            assert(entries[i as int].0 == self.command.envs@[i as int].0@);
            if bytes_equal(&self.command.envs[i].0, key) {
                proof {
                    lemma_contents_at(entries, i as int);
                }
                return Some(i);
            }
            i = i + 1;
        }
        proof {
            lemma_contents_domain(entries, key@);
        }
        None
    }

    fn set_edit(&mut self, key: &[u8], value: Option<Vec<u8>>)
        requires
            old(self).wf(),
        ensures
            final(self).wf(),
            final(self)@ == (DaemonRequestModel {
                envs: old(self)@.envs.insert(key@, bytes_of(value)),
                ..old(self)@
            }),
    {
        let ghost before = edit_entries(self.command.envs@);
        match self.find(key) {
            Some(i) => {
                proof {
                    lemma_contents_update(before, i as int, bytes_of(value));
                }
                self.command.envs[i].1 = value;
                assert(edit_entries(self.command.envs@) =~= before.update(
                    i as int,
                    (before[i as int].0, bytes_of(value)),
                ));
            },
            None => {
                proof {
                    lemma_contents_domain(before, key@);
                    lemma_contents_push(before, key@, bytes_of(value));
                }
                self.command.envs.push((copy_bytes(key), value));
                assert(edit_entries(self.command.envs@) =~= before.push((key@, bytes_of(value))));
            },
        }
    }

    /// Adds or replaces an explicit environment variable.
    pub fn env(&mut self, key: &[u8], value: &[u8])
        requires
            old(self).wf(),
        ensures
            final(self).wf(),
            final(self)@ == (DaemonRequestModel {
                envs: old(self)@.envs.insert(key@, Some(value@)),
                invalid_input: old(self)@.invalid_input || bad_environment_key(Platform::Unix, key@)
                    || bad_native_string(value@),
                ..old(self)@
            }),
    {
        if invalid_environment_key(Platform::Unix, key) || invalid_native_string(value) {
            self.invalid_input = true;
        }
        self.set_edit(key, Some(copy_bytes(value)));
    }

    /// Removes a variable from the environment: an ambient one where the ambient
    /// environment is kept, an explicit one where it was dropped.
    pub fn env_remove(&mut self, key: &[u8])
        requires
            old(self).wf(),
        ensures
            final(self).wf(),
            final(self)@ == (DaemonRequestModel {
                envs: if old(self)@.clear_environment {
                    old(self)@.envs.remove(key@)
                } else {
                    old(self)@.envs.insert(key@, None)
                },
                invalid_input: old(self)@.invalid_input || bad_environment_key(
                    Platform::Unix,
                    key@,
                ),
                ..old(self)@
            }),
    {
        if invalid_environment_key(Platform::Unix, key) {
            self.invalid_input = true;
        }
        if self.clear_environment {
            let ghost before = edit_entries(self.command.envs@);
            match self.find(key) {
                Some(i) => {
                    proof {
                        lemma_contents_remove(before, i as int);
                    }
                    let _gone = self.command.envs.remove(i);
                    assert(edit_entries(self.command.envs@) =~= before.remove(i as int));
                },
                None => {
                    assert(self@.envs =~= old(self)@.envs.remove(key@));
                },
            }
        } else {
            self.set_edit(key, None);
        }
    }

    /// Drops earlier edits and the ambient environment. Later edits still apply.
    pub fn env_clear(&mut self)
        ensures
            final(self).wf(),
            final(self)@ == (DaemonRequestModel {
                envs: Map::empty(),
                clear_environment: true,
                ..old(self)@
            }),
    {
        self.command.envs = Vec::new();
        self.clear_environment = true;
    }

    /// The command that the request describes.
    pub fn command(&self) -> (c: &CommandImage)
        ensures
            c.program@ == self@.program,
            c.args@.map_values(|a: Vec<u8>| a@) == self@.args,
            bytes_of(c.current_dir) == self@.current_dir,
            contents(edit_entries(c.envs@)) == self@.envs,
    {
        &self.command
    }

    /// Whether the ambient environment is dropped.
    pub fn clears_environment(&self) -> (b: bool)
        ensures
            b == self@.clear_environment,
    {
        self.clear_environment
    }

    /// Whether some input cannot be passed to a process.
    pub fn has_invalid_input(&self) -> (b: bool)
        ensures
            b == self@.invalid_input,
    {
        self.invalid_input
    }

    /// The request without its program, its arguments and its environment.
    pub fn redacted(&self) -> (s: String)
        ensures
            s@ == (if self@.clear_environment {
                "DaemonSpawnRequest { clear_environment: true, .. }"@
            } else {
                "DaemonSpawnRequest { clear_environment: false, .. }"@
            }),
    {
        if self.clear_environment {
            "DaemonSpawnRequest { clear_environment: true, .. }".to_owned()
        } else {
            "DaemonSpawnRequest { clear_environment: false, .. }".to_owned()
        }
    }
}

/// The cancellation requests of the launches of a process: one flag for each
/// token that was given out.
///
/// Threads that cancel and launch share these flags behind a lock of their own.
#[derive(Clone, Debug, PartialEq, Eq)]
pub struct CancellationFlags {
    flags: Vec<bool>,
}

impl View for CancellationFlags {
    type V = Seq<bool>;

    closed spec fn view(&self) -> Seq<bool> {
        self.flags@
    }
}

/// Whether the flag with a number is there and set.
pub open spec fn flag_set(flags: Seq<bool>, number: nat) -> bool {
    number < flags.len() && flags[number as int]
}

/// The flags after the one with a number was set, if it is there.
pub open spec fn with_flag(flags: Seq<bool>, number: nat) -> Seq<bool> {
    if number < flags.len() {
        flags.update(number as int, true)
    } else {
        flags
    }
}

impl CancellationFlags {
    /// No tokens.
    pub fn new() -> (f: CancellationFlags)
        ensures
            f@ == Seq::<bool>::empty(),
    {
        CancellationFlags { flags: Vec::new() }
    }
}

impl Default for CancellationFlags {
    fn default() -> (f: CancellationFlags)
        ensures
            f@ == Seq::<bool>::empty(),
    {
        CancellationFlags::new()
    }
}

/// Cooperative cancellation of a bounded launch. Clones of a token share one flag.
#[derive(Clone, Copy, Debug, PartialEq, Eq, Structural)]
pub struct IndependentSpawnCancellation {
    number: usize,
}

impl View for IndependentSpawnCancellation {
    type V = nat;

    closed spec fn view(&self) -> nat {
        self.number as nat
    }
}

impl IndependentSpawnCancellation {
    /// A token that is not cancelled, and that no other token shares.
    pub fn new(flags: &mut CancellationFlags) -> (t: IndependentSpawnCancellation)
        ensures
            t@ == old(flags)@.len(),
            final(flags)@ == old(flags)@.push(false),
    {
        let number: usize = flags.flags.len();
        flags.flags.push(false);
        IndependentSpawnCancellation { number }
    }

    /// Requests cancellation; the request stays.
    pub fn cancel(&self, flags: &mut CancellationFlags)
        ensures
            final(flags)@ == with_flag(old(flags)@, self@),
    {
        if self.number < flags.flags.len() {
            flags.flags.set(self.number, true);
        }
    }

    /// Whether cancellation was requested.
    pub fn is_cancelled(&self, flags: &CancellationFlags) -> (b: bool)
        ensures
            b == flag_set(flags@, self@),
    {
        self.number < flags.flags.len() && flags.flags[self.number]
    }
}

/// A new token is not cancelled and is another one than every token before it,
/// and giving it out cancels none of them.
pub proof fn law_new_tokens_are_not_cancelled(flags: Seq<bool>, earlier: nat)
    requires
        earlier < flags.len(),
    ensures
        !flag_set(flags.push(false), flags.len()),
        earlier != flags.len(),
        flag_set(flags.push(false), earlier) == flag_set(flags, earlier),
{
}

/// Cancelling a token cancels it for every holder of a clone and no other token,
/// and nothing takes the request back.
pub proof fn law_cancellation_is_shared_and_stays(flags: Seq<bool>, token: nat, other: nat)
    requires
        token < flags.len(),
    ensures
        flag_set(with_flag(flags, token), token),
        other != token ==> flag_set(with_flag(flags, token), other) == flag_set(flags, other),
        flag_set(flags, other) ==> flag_set(with_flag(flags, token), other) && flag_set(
            flags.push(false),
            other,
        ),
{
}

/// Policy of a launch.
#[derive(Clone)]
pub struct IndependentSpawnOptions {
    /// Requested placement.
    pub mode: SpawnMode,
    /// Whether an independent launch starts from a snapshot of the caller's
    /// environment. A request that cleared its environment overrules it.
    pub inherit_environment: bool,
    /// Longest wait for the launch, in nanoseconds.
    pub readiness_timeout: u128,
    /// Token that cancels the launch.
    pub cancellation: Option<IndependentSpawnCancellation>,
}

/// Ten seconds, in nanoseconds.
pub const DEFAULT_READINESS_TIMEOUT: u128 = 10_000_000_000;

impl Default for IndependentSpawnOptions {
    fn default() -> (o: IndependentSpawnOptions)
        ensures
            o.mode == SpawnMode::Inherited,
            o.inherit_environment,
            o.readiness_timeout == DEFAULT_READINESS_TIMEOUT,
            o.cancellation is None,
    {
        IndependentSpawnOptions {
            mode: SpawnMode::Inherited,
            inherit_environment: true,
            readiness_timeout: DEFAULT_READINESS_TIMEOUT,
            cancellation: None,
        }
    }
}

/// Whether the launch was cancelled; never without a token.
pub fn cancelled(options: &IndependentSpawnOptions, flags: &CancellationFlags) -> (b: bool)
    ensures
        b == match options.cancellation {
            Some(token) => flag_set(flags@, token@),
            None => false,
        },
{
    match &options.cancellation {
        Some(token) => token.is_cancelled(flags),
        None => false,
    }
}

/// A native external launcher.
#[derive(Clone, Copy, Debug, PartialEq, Eq, Structural)]
pub enum IndependentSpawnBackend {
    /// A transient service of the systemd user manager.
    SystemdTransientService,
    /// A task of the Windows scheduler.
    WindowsTaskScheduler,
    /// A broker that runs outside the caller's resource group.
    ExternalBroker,
}

/// Whether independent placement can be had right now.
#[derive(Clone, Debug, PartialEq, Eq)]
pub struct IndependentSpawnCapability {
    /// Whether an independent launch can succeed.
    pub available: bool,
    /// The launcher that it would use.
    pub backend: Option<IndependentSpawnBackend>,
    /// Diagnostic text without values of any request.
    pub reason: String,
}

/// A failure of a strict launch; none of them implies a direct spawn.
#[derive(Debug)]
pub enum IndependentSpawnError {
    /// The host cannot place a process outside the caller's resource group.
    Unsupported {
        /// Why.
        reason: String,
    },
    /// The caller may not do so.
    PermissionDenied {
        /// Why.
        reason: String,
    },
    /// The launch failed.
    Launch {
        /// Why.
        reason: String,
    },
    /// The launch took too long.
    Readiness {
        /// Longest wait, in nanoseconds.
        timeout: u128,
        /// What was waited for.
        reason: String,
    },
    /// The launch was cancelled.
    Cancelled,
    /// The launch failed, and so did its cleanup.
    CleanupUnconfirmed {
        /// Why the launch failed.
        cause: Box<IndependentSpawnError>,
        /// What may need reconciliation.
        resource: String,
        /// Why the cleanup failed.
        reason: String,
    },
}

/// What an [`IndependentSpawnError`] says.
pub enum SpawnErrorModel {
    /// The host cannot place a process outside the caller's resource group.
    Unsupported(Seq<char>),
    /// The caller may not do so.
    PermissionDenied(Seq<char>),
    /// The launch failed.
    Launch(Seq<char>),
    /// The launch took too long.
    Readiness(u128, Seq<char>),
    /// The launch was cancelled.
    Cancelled,
    /// The launch failed, and so did its cleanup.
    CleanupUnconfirmed(Box<SpawnErrorModel>, Seq<char>, Seq<char>),
}

/// What an error says.
pub open spec fn spawn_error_model(e: IndependentSpawnError) -> SpawnErrorModel
    decreases e,
{
    match e {
        IndependentSpawnError::Unsupported { reason } => SpawnErrorModel::Unsupported(reason@),
        IndependentSpawnError::PermissionDenied { reason } => SpawnErrorModel::PermissionDenied(
            reason@,
        ),
        IndependentSpawnError::Launch { reason } => SpawnErrorModel::Launch(reason@),
        IndependentSpawnError::Readiness { timeout, reason } => SpawnErrorModel::Readiness(
            timeout,
            reason@,
        ),
        IndependentSpawnError::Cancelled => SpawnErrorModel::Cancelled,
        IndependentSpawnError::CleanupUnconfirmed { cause, resource, reason } => {
            SpawnErrorModel::CleanupUnconfirmed(
                Box::new(spawn_error_model(*cause)),
                resource@,
                reason@,
            )
        },
    }
}

/// The text of an error.
pub open spec fn spawn_error_text(e: SpawnErrorModel) -> Seq<char>
    decreases e,
{
    match e {
        SpawnErrorModel::Unsupported(reason) => "independent spawning is unsupported: "@ + reason,
        SpawnErrorModel::PermissionDenied(reason) => "independent spawning was denied: "@ + reason,
        SpawnErrorModel::Launch(reason) => "independent spawn launch failed: "@ + reason,
        SpawnErrorModel::Readiness(timeout, reason) => "independent spawn readiness timed out after "@
            + duration_text(timeout as nat) + ": "@ + reason,
        SpawnErrorModel::Cancelled => "independent spawn was cancelled"@,
        SpawnErrorModel::CleanupUnconfirmed(cause, resource, reason) => spawn_error_text(*cause)
            + "; cleanup of "@ + resource + " could not be confirmed: "@ + reason,
    }
}

impl View for IndependentSpawnError {
    type V = SpawnErrorModel;

    open spec fn view(&self) -> SpawnErrorModel {
        spawn_error_model(*self)
    }
}

impl IndependentSpawnError {
    /// The text of this error.
    pub fn message(&self) -> (s: String)
        ensures
            s@ == spawn_error_text(self@),
        decreases self,
    {
        match self {
            IndependentSpawnError::Unsupported { reason } => {
                let mut s: String = "independent spawning is unsupported: ".to_owned();
                s.append(reason.as_str());
                s
            },
            IndependentSpawnError::PermissionDenied { reason } => {
                let mut s: String = "independent spawning was denied: ".to_owned();
                s.append(reason.as_str());
                s
            },
            IndependentSpawnError::Launch { reason } => {
                let mut s: String = "independent spawn launch failed: ".to_owned();
                s.append(reason.as_str());
                s
            },
            IndependentSpawnError::Readiness { timeout, reason } => {
                let mut s: String = "independent spawn readiness timed out after ".to_owned();
                append_duration(&mut s, *timeout);
                s.append(": ");
                s.append(reason.as_str());
                s
            },
            IndependentSpawnError::Cancelled => "independent spawn was cancelled".to_owned(),
            IndependentSpawnError::CleanupUnconfirmed { cause, resource, reason } => {
                let mut s: String = cause.message();
                s.append("; cleanup of ");
                s.append(resource.as_str());
                s.append(" could not be confirmed: ");
                s.append(reason.as_str());
                s
            },
        }
    }

    /// The failure whose cleanup could not be confirmed.
    pub fn source(&self) -> (e: Option<&IndependentSpawnError>)
        ensures
            match self@ {
                SpawnErrorModel::CleanupUnconfirmed(cause, _, _) => e is Some && e->0@ == *cause,
                _ => e is None,
            },
    {
        match self {
            IndependentSpawnError::CleanupUnconfirmed { cause, .. } => Some(&**cause),
            _ => None,
        }
    }
}

/// The launch error for an operating-system failure on Linux.
pub open spec fn classified(failure: IoFailure, numbers: HostNumbers) -> SpawnErrorModel {
    if failure.kind == ErrorKind::PermissionDenied {
        SpawnErrorModel::PermissionDenied(failure.text@)
    } else if failure.kind == ErrorKind::Unsupported || failure.raw_os_error == Some(
        numbers.not_implemented,
    ) {
        SpawnErrorModel::Unsupported(failure.text@)
    } else {
        SpawnErrorModel::Launch(failure.text@)
    }
}

/// The launch error for an operating-system failure on Linux.
pub fn classify_io(failure: IoFailure, numbers: HostNumbers) -> (e: IndependentSpawnError)
    ensures
        e@ == classified(failure, numbers),
{
    let missing: bool = match failure.raw_os_error {
        Some(n) => n == numbers.not_implemented,
        None => false,
    };
    if failure.kind == ErrorKind::PermissionDenied {
        IndependentSpawnError::PermissionDenied { reason: failure.text }
    } else if failure.kind == ErrorKind::Unsupported || missing {
        IndependentSpawnError::Unsupported { reason: failure.text }
    } else {
        IndependentSpawnError::Launch { reason: failure.text }
    }
}

/// Whether an opaque command may be spawned: only directly, as its streams and
/// its hooks cannot be inspected.
pub fn admit_command(mode: SpawnMode, cancelled: bool) -> (r: Result<(), IndependentSpawnError>)
    ensures
        match r {
            Ok(()) => !cancelled && mode == SpawnMode::Inherited,
            Err(e) => if cancelled {
                e@ == SpawnErrorModel::Cancelled
            } else {
                mode == SpawnMode::Independent && e@ == SpawnErrorModel::Unsupported(
                    "opaque Command stdio and native hooks cannot cross a scheduler boundary; use DaemonSpawnRequest with spawn_daemon_request"@,
                )
            },
        },
{
    if cancelled {
        return Err(IndependentSpawnError::Cancelled);
    }
    match mode {
        SpawnMode::Inherited => Ok(()),
        SpawnMode::Independent => Err(
            IndependentSpawnError::Unsupported {
                reason:
                    "opaque Command stdio and native hooks cannot cross a scheduler boundary; use DaemonSpawnRequest with spawn_daemon_request".to_owned(),
            },
        ),
    }
}

/// How a structured request is launched.
#[derive(Clone, Copy, Debug, PartialEq, Eq, Structural)]
pub enum SpawnRoute {
    /// Directly.
    Inherited {
        /// Whether the ambient environment is dropped.
        clear_environment: bool,
    },
    /// By an external launcher.
    Independent {
        /// Whether the caller's environment is the base.
        inherit_environment: bool,
    },
}

/// Decides how a structured request is launched.
pub fn admit_request(
    request: &DaemonSpawnRequest,
    mode: SpawnMode,
    inherit_environment: bool,
    cancelled: bool,
) -> (r: Result<SpawnRoute, IndependentSpawnError>)
    ensures
        match r {
            Ok(route) => {
                &&& !cancelled
                &&& !request@.invalid_input
                &&& route == match mode {
                    SpawnMode::Inherited => SpawnRoute::Inherited {
                        clear_environment: request@.clear_environment,
                    },
                    SpawnMode::Independent => SpawnRoute::Independent {
                        inherit_environment: inherit_environment && !request@.clear_environment,
                    },
                }
            },
            Err(e) => if cancelled {
                e@ == SpawnErrorModel::Cancelled
            } else {
                request@.invalid_input && e@ == SpawnErrorModel::Launch(
                    "invalid native string in daemon request"@,
                )
            },
        },
{
    if cancelled {
        return Err(IndependentSpawnError::Cancelled);
    }
    if request.invalid_input {
        return Err(
            IndependentSpawnError::Launch {
                reason: "invalid native string in daemon request".to_owned(),
            },
        );
    }
    match mode {
        SpawnMode::Inherited => Ok(
            SpawnRoute::Inherited { clear_environment: request.clear_environment },
        ),
        SpawnMode::Independent => Ok(
            SpawnRoute::Independent {
                inherit_environment: inherit_environment && !request.clear_environment,
            },
        ),
    }
}

/// Why a control file of the launch protocol is no evidence.
#[derive(Clone, Copy, Debug, PartialEq, Eq, Structural)]
pub enum ControlError {
    /// The acknowledgement has another form.
    InvalidAcknowledgement,
    /// The cleanup marker is not empty.
    InvalidCleanup,
    /// The file is not private to this user.
    UnsafeControlFile,
    /// The file is too long.
    OversizedControlFile,
    /// The exit status is no number.
    InvalidExitStatus,
    /// The supervisor left no exit status.
    StatusMissing,
    /// The broker did not confirm a cancellation in time.
    CleanupNotAcknowledged,
}

impl ControlError {
    /// Class of this error.
    pub open spec fn spec_kind(self) -> ErrorKind {
        match self {
            ControlError::InvalidAcknowledgement => ErrorKind::InvalidData,
            ControlError::InvalidCleanup => ErrorKind::InvalidData,
            ControlError::UnsafeControlFile => ErrorKind::PermissionDenied,
            ControlError::OversizedControlFile => ErrorKind::InvalidData,
            ControlError::InvalidExitStatus => ErrorKind::InvalidData,
            ControlError::StatusMissing => ErrorKind::BrokenPipe,
            ControlError::CleanupNotAcknowledged => ErrorKind::TimedOut,
        }
    }

    /// Text of this error.
    pub open spec fn text(self) -> Seq<char> {
        match self {
            ControlError::InvalidAcknowledgement => "invalid helper acknowledgement"@,
            ControlError::InvalidCleanup => "invalid cleanup acknowledgement"@,
            ControlError::UnsafeControlFile => "unsafe helper control file"@,
            ControlError::OversizedControlFile => "oversized helper control file"@,
            ControlError::InvalidExitStatus => "invalid helper exit status"@,
            ControlError::StatusMissing => "independent supervisor exited without recording target status"@,
            ControlError::CleanupNotAcknowledged => "broker helper cleanup was not acknowledged"@,
        }
    }

    /// Class of this error.
    pub fn kind(&self) -> (k: ErrorKind)
        ensures
            k == self.spec_kind(),
    {
        match self {
            ControlError::InvalidAcknowledgement => ErrorKind::InvalidData,
            ControlError::InvalidCleanup => ErrorKind::InvalidData,
            ControlError::UnsafeControlFile => ErrorKind::PermissionDenied,
            ControlError::OversizedControlFile => ErrorKind::InvalidData,
            ControlError::InvalidExitStatus => ErrorKind::InvalidData,
            ControlError::StatusMissing => ErrorKind::BrokenPipe,
            ControlError::CleanupNotAcknowledged => ErrorKind::TimedOut,
        }
    }

    /// Text of this error.
    pub fn message(&self) -> (s: &'static str)
        ensures
            s@ == self.text(),
    {
        match self {
            ControlError::InvalidAcknowledgement => "invalid helper acknowledgement",
            ControlError::InvalidCleanup => "invalid cleanup acknowledgement",
            ControlError::UnsafeControlFile => "unsafe helper control file",
            ControlError::OversizedControlFile => "oversized helper control file",
            ControlError::InvalidExitStatus => "invalid helper exit status",
            ControlError::StatusMissing => "independent supervisor exited without recording target status",
            ControlError::CleanupNotAcknowledged => "broker helper cleanup was not acknowledged",
        }
    }
}

/// Longest control file, in bytes.
pub const MAX_CONTROL_BYTES: usize = 128;

/// Identity of a launched target and of its supervisor: process numbers with
/// the start keys of the host.
#[derive(Clone, Copy, Debug, PartialEq, Eq, Structural)]
pub struct LaunchAcknowledgement {
    /// Process number of the target.
    pub pid: u32,
    /// Start key of the target.
    pub start_key: u64,
    /// Process number of the supervisor.
    pub supervisor_pid: u32,
    /// Start key of the supervisor.
    pub supervisor_key: u64,
}

impl LaunchAcknowledgement {
    /// Whether the two processes exist and differ.
    pub open spec fn complete(self) -> bool {
        self.pid != 0 && self.supervisor_pid != 0 && self.pid != self.supervisor_pid
    }

    /// The wire text, without its final newline.
    pub open spec fn wire_text(self) -> Seq<char> {
        decimal(self.pid as nat) + " "@ + decimal(self.start_key as nat) + " "@ + decimal(
            self.supervisor_pid as nat,
        ) + " "@ + decimal(self.supervisor_key as nat)
    }

    /// The wire text, without its final newline.
    pub fn to_text(&self) -> (s: String)
        ensures
            s@ == self.wire_text(),
    {
        let mut s: String = String::new();
        append_decimal(&mut s, self.pid as u128);
        assert(s@ =~= decimal(self.pid as nat));
        s.append(" ");
        append_decimal(&mut s, self.start_key as u128);
        s.append(" ");
        append_decimal(&mut s, self.supervisor_pid as u128);
        s.append(" ");
        append_decimal(&mut s, self.supervisor_key as u128);
        s
    }
}

/// The acknowledgement that four words denote.
pub open spec fn acknowledged_words(w: Seq<Seq<char>>) -> Option<LaunchAcknowledgement> {
    if w.len() == 4 {
        match (
            digits_within(w[0], u32::MAX as nat),
            digits_within(w[1], u64::MAX as nat),
            digits_within(w[2], u32::MAX as nat),
            digits_within(w[3], u64::MAX as nat),
        ) {
            (Some(pid), Some(key), Some(supervisor), Some(supervisor_key)) => {
                let ack = LaunchAcknowledgement {
                    pid: pid as u32,
                    start_key: key as u64,
                    supervisor_pid: supervisor as u32,
                    supervisor_key: supervisor_key as u64,
                };
                if ack.complete() {
                    Some(ack)
                } else {
                    None
                }
            },
            _ => None,
        }
    } else {
        None
    }
}

fn ack_number(chars: &Vec<char>, range: (usize, usize), max: u64) -> (n: Option<u64>)
    requires
        range.0 <= range.1 <= chars@.len(),
    ensures
        match n {
            Some(v) => digits_within(
                chars@.subrange(range.0 as int, range.1 as int),
                max as nat,
            ) == Some(v as nat),
            None => digits_within(
                chars@.subrange(range.0 as int, range.1 as int),
                max as nat,
            ) is None,
        },
{
    parse_digits(slice_subrange(chars.as_slice(), range.0, range.1), max)
}

/// Reads the acknowledgement of a helper: four decimal numbers and a newline.
/// `None` where the writer did not get to the newline yet.
pub fn parse_launch_acknowledgement(text: &str) -> (r: Result<
    Option<LaunchAcknowledgement>,
    ControlError,
>)
    ensures
        r == (if encode_utf8(text@).len() > MAX_CONTROL_BYTES {
            Err(ControlError::InvalidAcknowledgement)
        } else if text@.len() == 0 || text@.last() != '\n' {
            Ok(None)
        } else {
            match acknowledged_words(words(Blanks::Unicode, text@)) {
                Some(ack) => Ok(Some(ack)),
                None => Err(ControlError::InvalidAcknowledgement),
            }
        }),
{
    if text.as_bytes().len() > MAX_CONTROL_BYTES {
        return Err(ControlError::InvalidAcknowledgement);
    }
    let chars = chars_of(text);
    if chars.len() == 0 || chars[chars.len() - 1] != '\n' {
        return Ok(None);
    }
    let ranges = word_ranges(&chars, Blanks::Unicode);
    let ghost w = words(Blanks::Unicode, text@);
    if ranges.len() != 4 {
        return Err(ControlError::InvalidAcknowledgement);
    }
    assert(forall|i: int| 0 <= i < 4 ==> (#[trigger] ranges@[i]).0 <= ranges@[i].1 <= chars@.len());
    assert(forall|i: int|
        0 <= i < 4 ==> w[i] == chars@.subrange(
            (#[trigger] ranges@[i]).0 as int,
            ranges@[i].1 as int,
        ));
    match (
        ack_number(&chars, ranges[0], u32::MAX as u64),
        ack_number(&chars, ranges[1], u64::MAX),
        ack_number(&chars, ranges[2], u32::MAX as u64),
        ack_number(&chars, ranges[3], u64::MAX),
    ) {
        (Some(pid), Some(start_key), Some(supervisor), Some(supervisor_key)) => {
            if pid == 0 || supervisor == 0 || pid == supervisor {
                return Err(ControlError::InvalidAcknowledgement);
            }
            Ok(
                Some(
                    LaunchAcknowledgement {
                        pid: pid as u32,
                        start_key,
                        supervisor_pid: supervisor as u32,
                        supervisor_key,
                    },
                ),
            )
        },
        _ => Err(ControlError::InvalidAcknowledgement),
    }
}

/// Whether a cleanup is confirmed: by an empty marker, and by nothing else.
pub fn cleanup_acknowledged(marker: Option<String>) -> (r: Result<bool, ControlError>)
    ensures
        r == (match marker {
            None => Ok(false),
            Some(value) => if value@.len() == 0 {
                Ok(true)
            } else {
                Err(ControlError::InvalidCleanup)
            },
        }),
{
    match marker {
        None => Ok(false),
        Some(value) => if value.as_str().unicode_len() == 0 {
            Ok(true)
        } else {
            Err(ControlError::InvalidCleanup)
        },
    }
}

proof fn lemma_number_word(n: nat)
    requires
        n <= u64::MAX,
    ensures
        0 < decimal(n).len() <= 20,
        forall|i: int| 0 <= i < decimal(n).len() ==> !separates(
            Blanks::Unicode,
            #[trigger] decimal(n)[i],
        ),
        is_ascii_chars(decimal(n)),
{
    lemma_decimal_round_trip(n);
    assert(vstd::arithmetic::power::pow(10, 20) == 100_000_000_000_000_000_000) by {
        reveal_with_fuel(vstd::arithmetic::power::pow, 21);
    }
    lemma_decimal_len(n, 20);
    assert forall|i: int| 0 <= i < decimal(n).len() implies !separates(
        Blanks::Unicode,
        #[trigger] decimal(n)[i],
    ) && 0 <= decimal(n)[i] as nat <= 127 by {
        assert(is_digit(decimal(n)[i]));
    }
}

/// The text of a complete acknowledgement, once its newline is written, reads
/// back as that acknowledgement.
pub proof fn law_acknowledgement_reads_back(ack: LaunchAcknowledgement)
    requires
        ack.complete(),
    ensures
        ({
            let text = ack.wire_text().push('\n');
            &&& encode_utf8(text).len() <= MAX_CONTROL_BYTES
            &&& text.last() == '\n'
            &&& acknowledged_words(words(Blanks::Unicode, text)) == Some(ack)
        }),
{
    let text = ack.wire_text().push('\n');
    let a = decimal(ack.pid as nat);
    let b = decimal(ack.start_key as nat);
    let c = decimal(ack.supervisor_pid as nat);
    let d = decimal(ack.supervisor_key as nat);
    lemma_number_word(ack.pid as nat);
    lemma_number_word(ack.start_key as nat);
    lemma_number_word(ack.supervisor_pid as nat);
    lemma_number_word(ack.supervisor_key as nat);
    reveal_strlit(" ");
    let none = Seq::<char>::empty();
    let after_c = d.push('\n') + none;
    let after_b = c.push(' ') + after_c;
    let after_a = b.push(' ') + after_b;
    assert(text =~= a.push(' ') + after_a);
    lemma_first_word(Blanks::Unicode, d, '\n', none);
    lemma_first_word(Blanks::Unicode, c, ' ', after_c);
    lemma_first_word(Blanks::Unicode, b, ' ', after_b);
    lemma_first_word(Blanks::Unicode, a, ' ', after_a);
    assert(words(Blanks::Unicode, text) =~= seq![a, b, c, d]);
    lemma_decimal_round_trip(ack.pid as nat);
    lemma_decimal_round_trip(ack.start_key as nat);
    lemma_decimal_round_trip(ack.supervisor_pid as nat);
    lemma_decimal_round_trip(ack.supervisor_key as nat);
    assert(is_ascii_chars(text)) by {
        assert forall|i: int| 0 <= i < text.len() implies 0 <= #[trigger] text[i] as nat <= 127 by {
            let n = a.len() as int;
            let m = n + 1 + b.len();
            let k = m + 1 + c.len();
            if i < n {
                assert(text[i] == a[i]);
            } else if n < i < m {
                assert(text[i] == b[i - n - 1]);
            } else if m < i < k {
                assert(text[i] == c[i - m - 1]);
            } else if k < i < k + 1 + d.len() {
                assert(text[i] == d[i - k - 1]);
            }
        }
    }
    is_ascii_chars_encode_utf8(text);
}

/// Facts that every step of a launch looks at.
#[derive(Clone, Copy, Debug, PartialEq, Eq, Structural)]
pub struct LaunchClock {
    /// Whether the launch was cancelled.
    pub cancelled: bool,
    /// Nanoseconds since the launch began.
    pub elapsed: u128,
    /// Longest wait, in nanoseconds.
    pub timeout: u128,
}

impl LaunchClock {
    /// Whether the deadline passed.
    pub open spec fn expired(self) -> bool {
        self.elapsed >= self.timeout
    }
}

/// Where a launch was when its deadline passed.
#[derive(Clone, Copy, Debug, PartialEq, Eq, Structural)]
pub enum LaunchStage {
    /// Nothing was begun.
    Start,
    /// Nothing was submitted.
    Submission,
    /// The broker was asked.
    BrokerSubmission,
    /// The broker was connected.
    BrokerRequest,
    /// The manager was running.
    Launcher,
    /// The helper had not reported.
    Identity,
    /// The identities were being verified.
    Verification,
    /// The acceptance was being prepared.
    Preparation,
    /// The Windows scheduler was being used.
    Scheduler,
}

impl LaunchStage {
    /// What was waited for.
    pub open spec fn text(self) -> Seq<char> {
        match self {
            LaunchStage::Start => "launch deadline already expired"@,
            LaunchStage::Submission => "launch deadline expired before submission"@,
            LaunchStage::BrokerSubmission => "external broker submission deadline expired"@,
            LaunchStage::BrokerRequest => "broker submission deadline expired"@,
            LaunchStage::Launcher => "external launcher did not acknowledge in time"@,
            LaunchStage::Identity => "helper did not report target identity"@,
            LaunchStage::Verification => "identity verification exceeded launch deadline"@,
            LaunchStage::Preparation => "acceptance preparation exceeded launch deadline"@,
            LaunchStage::Scheduler => "Windows independent launch deadline elapsed"@,
        }
    }

    /// What was waited for.
    pub fn message(self) -> (s: &'static str)
        ensures
            s@ == self.text(),
    {
        match self {
            LaunchStage::Start => "launch deadline already expired",
            LaunchStage::Submission => "launch deadline expired before submission",
            LaunchStage::BrokerSubmission => "external broker submission deadline expired",
            LaunchStage::BrokerRequest => "broker submission deadline expired",
            LaunchStage::Launcher => "external launcher did not acknowledge in time",
            LaunchStage::Identity => "helper did not report target identity",
            LaunchStage::Verification => "identity verification exceeded launch deadline",
            LaunchStage::Preparation => "acceptance preparation exceeded launch deadline",
            LaunchStage::Scheduler => "Windows independent launch deadline elapsed",
        }
    }
}

/// Who turned a launch down.
#[derive(Clone, Copy, Debug, PartialEq, Eq, Structural)]
pub enum LaunchRefusal {
    /// The manager.
    Manager,
    /// The broker.
    Broker,
    /// The broker, with an answer that means nothing.
    BrokerAnswer,
    /// The supervisor, which is gone.
    Supervisor,
    /// A process that is not the one that was launched.
    Identity,
}

impl LaunchRefusal {
    /// What happened.
    pub open spec fn text(self) -> Seq<char> {
        match self {
            LaunchRefusal::Manager => "systemd rejected independent helper launch"@,
            LaunchRefusal::Broker => "external broker rejected launch"@,
            LaunchRefusal::BrokerAnswer => "external broker returned an invalid response"@,
            LaunchRefusal::Supervisor => "independent supervisor exited before launch acceptance"@,
            LaunchRefusal::Identity => "process changed during containment verification"@,
        }
    }

    /// What happened.
    pub fn message(self) -> (s: &'static str)
        ensures
            s@ == self.text(),
    {
        match self {
            LaunchRefusal::Manager => "systemd rejected independent helper launch",
            LaunchRefusal::Broker => "external broker rejected launch",
            LaunchRefusal::BrokerAnswer => "external broker returned an invalid response",
            LaunchRefusal::Supervisor => "independent supervisor exited before launch acceptance",
            LaunchRefusal::Identity => "process changed during containment verification",
        }
    }
}

/// Why a launch failed.
#[derive(Debug)]
pub enum LaunchCause {
    /// It was cancelled.
    Cancelled,
    /// Its deadline passed.
    Expired(LaunchStage),
    /// It was turned down.
    Refused(LaunchRefusal),
    /// Something outside failed.
    Outside(IndependentSpawnError),
}

impl LaunchCause {
    /// The launch error for this cause.
    pub open spec fn model(self, timeout: u128) -> SpawnErrorModel {
        match self {
            LaunchCause::Cancelled => SpawnErrorModel::Cancelled,
            LaunchCause::Expired(stage) => SpawnErrorModel::Readiness(timeout, stage.text()),
            LaunchCause::Refused(refusal) => SpawnErrorModel::Launch(refusal.text()),
            LaunchCause::Outside(error) => error@,
        }
    }

    /// The launch error for this cause.
    pub fn into_error(self, timeout: u128) -> (e: IndependentSpawnError)
        ensures
            e@ == self.model(timeout),
    {
        match self {
            LaunchCause::Cancelled => IndependentSpawnError::Cancelled,
            LaunchCause::Expired(stage) => IndependentSpawnError::Readiness {
                timeout,
                reason: stage.message().to_owned(),
            },
            LaunchCause::Refused(refusal) => IndependentSpawnError::Launch {
                reason: refusal.message().to_owned(),
            },
            LaunchCause::Outside(error) => error,
        }
    }
}

/// The cause that ends a step before anything else: cancellation, then the
/// deadline.
pub open spec fn interrupted(clock: LaunchClock, stage: LaunchStage) -> Option<LaunchCause> {
    if clock.cancelled {
        Some(LaunchCause::Cancelled)
    } else if clock.expired() {
        Some(LaunchCause::Expired(stage))
    } else {
        None
    }
}

/// Decides [`interrupted`].
pub fn interruption(clock: LaunchClock, stage: LaunchStage) -> (c: Option<LaunchCause>)
    ensures
        c == interrupted(clock, stage),
{
    if clock.cancelled {
        Some(LaunchCause::Cancelled)
    } else if clock.elapsed >= clock.timeout {
        Some(LaunchCause::Expired(stage))
    } else {
        None
    }
}

/// What stays behind of a launch whose cleanup failed.
#[derive(Clone, Copy, Debug, PartialEq, Eq, Structural)]
pub enum LeftBehind {
    /// The private request.
    Request,
    /// The transient service.
    Unit,
}

/// What happens to the private request of a failed launch.
#[derive(Clone, Copy, Debug, PartialEq, Eq, Structural)]
pub enum RequestFate {
    /// It stays, for a late helper and for reconciliation.
    Kept,
    /// Its file is removed.
    FileRemoved,
    /// Its file and its directory are removed.
    DirectoryRemoved,
}

/// The end of a failed launch.
#[derive(Debug)]
pub struct LaunchFailure {
    /// Why it failed.
    pub cause: LaunchCause,
    /// What stays behind and why, where the cleanup failed.
    pub unconfirmed: Option<(LeftBehind, String)>,
    /// What happens to the private request.
    pub request: RequestFate,
}

impl LaunchFailure {
    /// The launch error of this end.
    pub open spec fn model(self, timeout: u128, unit: Seq<char>, request: Seq<char>) -> SpawnErrorModel {
        match self.unconfirmed {
            Some((left, reason)) => SpawnErrorModel::CleanupUnconfirmed(
                Box::new(self.cause.model(timeout)),
                match left {
                    LeftBehind::Request => request,
                    LeftBehind::Unit => unit,
                },
                reason@,
            ),
            None => self.cause.model(timeout),
        }
    }

    /// The launch error of this end.
    pub fn into_error(self, timeout: u128, unit: &str, request: &str) -> (e: IndependentSpawnError)
        ensures
            e@ == self.model(timeout, unit@, request@),
    {
        let cause = self.cause.into_error(timeout);
        match self.unconfirmed {
            Some((left, reason)) => {
                let resource: String = match left {
                    LeftBehind::Request => request.to_owned(),
                    LeftBehind::Unit => unit.to_owned(),
                };
                IndependentSpawnError::CleanupUnconfirmed {
                    cause: Box::new(cause),
                    resource,
                    reason,
                }
            },
            None => cause,
        }
    }
}

/// Where a launch stands.
#[derive(Debug)]
pub enum LaunchState {
    /// The request is being submitted.
    Submitting,
    /// A submission that may have arrived is being cancelled.
    Withdrawing(LaunchCause),
    /// The manager is running.
    AwaitingLauncher,
    /// The helper has not reported.
    AwaitingAcknowledgement,
    /// The identities are being verified.
    Verifying(LaunchAcknowledgement),
    /// The acceptance is being prepared.
    Preparing(LaunchAcknowledgement),
    /// The supervisor is being checked.
    Checking(LaunchAcknowledgement),
    /// The acceptance is being published.
    Publishing(LaunchAcknowledgement),
    /// A failed launch is being cleaned up.
    Cleaning(LaunchCause),
    /// The launch is over.
    Finished,
}

/// What happened outside.
#[derive(Debug)]
pub enum LaunchEvent {
    /// The request was submitted.
    Submitted,
    /// The submission failed; it may have arrived all the same.
    SubmissionFailed {
        /// Why.
        cause: LaunchCause,
        /// Whether the broker may act on it.
        may_have_arrived: bool,
    },
    /// The manager is still running.
    LauncherRunning,
    /// The manager ended.
    LauncherExited {
        /// Whether it succeeded.
        success: bool,
    },
    /// A pause is over.
    Woke,
    /// The acknowledgement was read.
    Acknowledgement(Option<LaunchAcknowledgement>),
    /// Both identities were opened outside the caller's resource group.
    IdentitiesVerified,
    /// The acceptance marker was prepared.
    MarkerPrepared,
    /// The supervisor was checked.
    Supervisor {
        /// Whether it is gone.
        exited: bool,
    },
    /// The acceptance was published.
    Published,
    /// The action failed.
    Failed(LaunchCause),
    /// The cleanup was confirmed.
    CleanedUp,
    /// The cleanup failed.
    CleanupFailed(String),
}

/// What has to be done next.
#[derive(Debug)]
pub enum LaunchAction {
    /// Submit the request to the broker or start the manager.
    Submit,
    /// Ask whether the manager ended.
    PollLauncher,
    /// Pause for some milliseconds.
    Pause(u64),
    /// Read the acknowledgement.
    ReadAcknowledgement,
    /// Open both identities and verify that they are outside.
    VerifyIdentities(LaunchAcknowledgement),
    /// Prepare the acceptance marker.
    PrepareMarker,
    /// Check the supervisor.
    CheckSupervisor,
    /// Publish the acceptance marker.
    Publish,
    /// Cancel the submission at the broker.
    Withdraw,
    /// Terminate the manager, and cancel at the broker or stop the service.
    CleanUp,
    /// Hand out the process, and remove the request file.
    Deliver(LaunchAcknowledgement),
    /// Report the failure.
    Fail(LaunchFailure),
    /// Nothing: the event does not belong to the state.
    Ignore,
}

/// Milliseconds between two looks at the manager.
pub const LAUNCHER_PAUSE_MS: u64 = 10;

/// Milliseconds between two looks for the acknowledgement.
pub const ACKNOWLEDGEMENT_PAUSE_MS: u64 = 25;

/// The begin of a launch.
pub open spec fn launch_start(clock: LaunchClock) -> (LaunchState, LaunchAction) {
    match interrupted(clock, LaunchStage::Submission) {
        Some(cause) => (
            LaunchState::Finished,
            LaunchAction::Fail(
                LaunchFailure {
                    cause,
                    unconfirmed: None,
                    request: RequestFate::DirectoryRemoved,
                },
            ),
        ),
        None => (LaunchState::Submitting, LaunchAction::Submit),
    }
}

/// A turn of the loop that waits for the manager.
pub open spec fn launcher_turn(clock: LaunchClock) -> (LaunchState, LaunchAction) {
    match interrupted(clock, LaunchStage::Launcher) {
        Some(cause) => (LaunchState::Cleaning(cause), LaunchAction::CleanUp),
        None => (LaunchState::AwaitingLauncher, LaunchAction::PollLauncher),
    }
}

/// A turn of the loop that waits for the acknowledgement.
pub open spec fn acknowledgement_turn(clock: LaunchClock) -> (LaunchState, LaunchAction) {
    if clock.cancelled {
        (LaunchState::Cleaning(LaunchCause::Cancelled), LaunchAction::CleanUp)
    } else {
        (LaunchState::AwaitingAcknowledgement, LaunchAction::ReadAcknowledgement)
    }
}

/// The next state and action of a launch.
pub open spec fn launch_next(
    via_broker: bool,
    state: LaunchState,
    event: LaunchEvent,
    clock: LaunchClock,
) -> (LaunchState, LaunchAction) {
    match (state, event) {
        (LaunchState::Submitting, LaunchEvent::Submitted) => if via_broker {
            acknowledgement_turn(clock)
        } else {
            launcher_turn(clock)
        },
        (LaunchState::Submitting, LaunchEvent::SubmissionFailed { cause, may_have_arrived }) => {
            let reported = if via_broker {
                match interrupted(clock, LaunchStage::BrokerSubmission) {
                    Some(interruption) => interruption,
                    None => cause,
                }
            } else {
                cause
            };
            if may_have_arrived {
                (LaunchState::Withdrawing(reported), LaunchAction::Withdraw)
            } else {
                (
                    LaunchState::Finished,
                    LaunchAction::Fail(
                        LaunchFailure {
                            cause: reported,
                            unconfirmed: None,
                            request: RequestFate::DirectoryRemoved,
                        },
                    ),
                )
            }
        },
        (LaunchState::Withdrawing(cause), LaunchEvent::CleanedUp) => (
            LaunchState::Finished,
            LaunchAction::Fail(
                LaunchFailure {
                    cause,
                    unconfirmed: None,
                    request: RequestFate::DirectoryRemoved,
                },
            ),
        ),
        (LaunchState::Withdrawing(cause), LaunchEvent::CleanupFailed(reason)) => (
            LaunchState::Finished,
            LaunchAction::Fail(
                LaunchFailure {
                    cause,
                    unconfirmed: Some((LeftBehind::Request, reason)),
                    request: RequestFate::Kept,
                },
            ),
        ),
        (LaunchState::AwaitingLauncher, LaunchEvent::LauncherExited { success }) => if success {
            acknowledgement_turn(clock)
        } else {
            (
                LaunchState::Cleaning(LaunchCause::Refused(LaunchRefusal::Manager)),
                LaunchAction::CleanUp,
            )
        },
        (LaunchState::AwaitingLauncher, LaunchEvent::LauncherRunning) => (
            LaunchState::AwaitingLauncher,
            LaunchAction::Pause(LAUNCHER_PAUSE_MS),
        ),
        (LaunchState::AwaitingLauncher, LaunchEvent::Woke) => launcher_turn(clock),
        (LaunchState::AwaitingAcknowledgement, LaunchEvent::Acknowledgement(found)) => match found {
            Some(ack) => (LaunchState::Verifying(ack), LaunchAction::VerifyIdentities(ack)),
            None => if clock.expired() {
                (
                    LaunchState::Cleaning(LaunchCause::Expired(LaunchStage::Identity)),
                    LaunchAction::CleanUp,
                )
            } else {
                (
                    LaunchState::AwaitingAcknowledgement,
                    LaunchAction::Pause(ACKNOWLEDGEMENT_PAUSE_MS),
                )
            },
        },
        (LaunchState::AwaitingAcknowledgement, LaunchEvent::Woke) => acknowledgement_turn(clock),
        (LaunchState::Verifying(ack), LaunchEvent::IdentitiesVerified) => match interrupted(
            clock,
            LaunchStage::Verification,
        ) {
            Some(cause) => (LaunchState::Cleaning(cause), LaunchAction::CleanUp),
            None => (LaunchState::Preparing(ack), LaunchAction::PrepareMarker),
        },
        (LaunchState::Preparing(ack), LaunchEvent::MarkerPrepared) => match interrupted(
            clock,
            LaunchStage::Preparation,
        ) {
            Some(cause) => (LaunchState::Cleaning(cause), LaunchAction::CleanUp),
            None => (LaunchState::Checking(ack), LaunchAction::CheckSupervisor),
        },
        (LaunchState::Checking(ack), LaunchEvent::Supervisor { exited }) => if exited {
            (
                LaunchState::Cleaning(LaunchCause::Refused(LaunchRefusal::Supervisor)),
                LaunchAction::CleanUp,
            )
        } else {
            (LaunchState::Publishing(ack), LaunchAction::Publish)
        },
        (LaunchState::Publishing(ack), LaunchEvent::Published) => (
            LaunchState::Finished,
            LaunchAction::Deliver(ack),
        ),
        (LaunchState::AwaitingLauncher, LaunchEvent::Failed(cause)) => (
            LaunchState::Cleaning(cause),
            LaunchAction::CleanUp,
        ),
        (LaunchState::AwaitingAcknowledgement, LaunchEvent::Failed(cause)) => (
            LaunchState::Cleaning(cause),
            LaunchAction::CleanUp,
        ),
        (LaunchState::Verifying(_), LaunchEvent::Failed(cause)) => (
            LaunchState::Cleaning(cause),
            LaunchAction::CleanUp,
        ),
        (LaunchState::Preparing(_), LaunchEvent::Failed(cause)) => (
            LaunchState::Cleaning(cause),
            LaunchAction::CleanUp,
        ),
        (LaunchState::Checking(_), LaunchEvent::Failed(cause)) => (
            LaunchState::Cleaning(cause),
            LaunchAction::CleanUp,
        ),
        (LaunchState::Publishing(_), LaunchEvent::Failed(cause)) => (
            LaunchState::Cleaning(cause),
            LaunchAction::CleanUp,
        ),
        (LaunchState::Cleaning(cause), LaunchEvent::CleanedUp) => (
            LaunchState::Finished,
            LaunchAction::Fail(
                LaunchFailure { cause, unconfirmed: None, request: RequestFate::FileRemoved },
            ),
        ),
        (LaunchState::Cleaning(cause), LaunchEvent::CleanupFailed(reason)) => (
            LaunchState::Finished,
            LaunchAction::Fail(
                LaunchFailure {
                    cause,
                    unconfirmed: Some((LeftBehind::Unit, reason)),
                    request: RequestFate::Kept,
                },
            ),
        ),
        (other, _) => (other, LaunchAction::Ignore),
    }
}

/// Begins a launch whose request is written.
pub fn begin_launch(clock: LaunchClock) -> (r: (LaunchState, LaunchAction))
    ensures
        r == launch_start(clock),
{
    match interruption(clock, LaunchStage::Submission) {
        Some(cause) => (
            LaunchState::Finished,
            LaunchAction::Fail(
                LaunchFailure {
                    cause,
                    unconfirmed: None,
                    request: RequestFate::DirectoryRemoved,
                },
            ),
        ),
        None => (LaunchState::Submitting, LaunchAction::Submit),
    }
}

fn clean_up(cause: LaunchCause) -> (r: (LaunchState, LaunchAction))
    ensures
        r == (LaunchState::Cleaning(cause), LaunchAction::CleanUp),
{
    (LaunchState::Cleaning(cause), LaunchAction::CleanUp)
}

fn await_launcher(clock: LaunchClock) -> (r: (LaunchState, LaunchAction))
    ensures
        r == launcher_turn(clock),
{
    match interruption(clock, LaunchStage::Launcher) {
        Some(cause) => clean_up(cause),
        None => (LaunchState::AwaitingLauncher, LaunchAction::PollLauncher),
    }
}

fn await_acknowledgement(clock: LaunchClock) -> (r: (LaunchState, LaunchAction))
    ensures
        r == acknowledgement_turn(clock),
{
    if clock.cancelled {
        clean_up(LaunchCause::Cancelled)
    } else {
        (LaunchState::AwaitingAcknowledgement, LaunchAction::ReadAcknowledgement)
    }
}

/// One step of a launch by the systemd user manager or by an external broker.
pub fn step_launch(via_broker: bool, state: LaunchState, event: LaunchEvent, clock: LaunchClock) -> (r: (
    LaunchState,
    LaunchAction,
))
    ensures
        r == launch_next(via_broker, state, event, clock),
{
    match (state, event) {
        (LaunchState::Submitting, LaunchEvent::Submitted) => if via_broker {
            await_acknowledgement(clock)
        } else {
            await_launcher(clock)
        },
        (LaunchState::Submitting, LaunchEvent::SubmissionFailed { cause, may_have_arrived }) => {
            let reported = if via_broker {
                match interruption(clock, LaunchStage::BrokerSubmission) {
                    Some(interruption) => interruption,
                    None => cause,
                }
            } else {
                cause
            };
            if may_have_arrived {
                (LaunchState::Withdrawing(reported), LaunchAction::Withdraw)
            } else {
                (
                    LaunchState::Finished,
                    LaunchAction::Fail(
                        LaunchFailure {
                            cause: reported,
                            unconfirmed: None,
                            request: RequestFate::DirectoryRemoved,
                        },
                    ),
                )
            }
        },
        (LaunchState::Withdrawing(cause), LaunchEvent::CleanedUp) => (
            LaunchState::Finished,
            LaunchAction::Fail(
                LaunchFailure {
                    cause,
                    unconfirmed: None,
                    request: RequestFate::DirectoryRemoved,
                },
            ),
        ),
        (LaunchState::Withdrawing(cause), LaunchEvent::CleanupFailed(reason)) => (
            LaunchState::Finished,
            LaunchAction::Fail(
                LaunchFailure {
                    cause,
                    unconfirmed: Some((LeftBehind::Request, reason)),
                    request: RequestFate::Kept,
                },
            ),
        ),
        (LaunchState::AwaitingLauncher, LaunchEvent::LauncherExited { success }) => if success {
            await_acknowledgement(clock)
        } else {
            clean_up(LaunchCause::Refused(LaunchRefusal::Manager))
        },
        (LaunchState::AwaitingLauncher, LaunchEvent::LauncherRunning) => (
            LaunchState::AwaitingLauncher,
            LaunchAction::Pause(LAUNCHER_PAUSE_MS),
        ),
        (LaunchState::AwaitingLauncher, LaunchEvent::Woke) => await_launcher(clock),
        (LaunchState::AwaitingAcknowledgement, LaunchEvent::Acknowledgement(found)) => match found {
            Some(ack) => (LaunchState::Verifying(ack), LaunchAction::VerifyIdentities(ack)),
            None => if clock.elapsed >= clock.timeout {
                clean_up(LaunchCause::Expired(LaunchStage::Identity))
            } else {
                (
                    LaunchState::AwaitingAcknowledgement,
                    LaunchAction::Pause(ACKNOWLEDGEMENT_PAUSE_MS),
                )
            },
        },
        (LaunchState::AwaitingAcknowledgement, LaunchEvent::Woke) => await_acknowledgement(clock),
        (LaunchState::Verifying(ack), LaunchEvent::IdentitiesVerified) => match interruption(
            clock,
            LaunchStage::Verification,
        ) {
            Some(cause) => clean_up(cause),
            None => (LaunchState::Preparing(ack), LaunchAction::PrepareMarker),
        },
        (LaunchState::Preparing(ack), LaunchEvent::MarkerPrepared) => match interruption(
            clock,
            LaunchStage::Preparation,
        ) {
            Some(cause) => clean_up(cause),
            None => (LaunchState::Checking(ack), LaunchAction::CheckSupervisor),
        },
        (LaunchState::Checking(ack), LaunchEvent::Supervisor { exited }) => if exited {
            clean_up(LaunchCause::Refused(LaunchRefusal::Supervisor))
        } else {
            (LaunchState::Publishing(ack), LaunchAction::Publish)
        },
        (LaunchState::Publishing(ack), LaunchEvent::Published) => (
            LaunchState::Finished,
            LaunchAction::Deliver(ack),
        ),
        (LaunchState::AwaitingLauncher, LaunchEvent::Failed(cause)) => clean_up(cause),
        (LaunchState::AwaitingAcknowledgement, LaunchEvent::Failed(cause)) => clean_up(cause),
        (LaunchState::Verifying(_), LaunchEvent::Failed(cause)) => clean_up(cause),
        (LaunchState::Preparing(_), LaunchEvent::Failed(cause)) => clean_up(cause),
        (LaunchState::Checking(_), LaunchEvent::Failed(cause)) => clean_up(cause),
        (LaunchState::Publishing(_), LaunchEvent::Failed(cause)) => clean_up(cause),
        (LaunchState::Cleaning(cause), LaunchEvent::CleanedUp) => (
            LaunchState::Finished,
            LaunchAction::Fail(
                LaunchFailure { cause, unconfirmed: None, request: RequestFate::FileRemoved },
            ),
        ),
        (LaunchState::Cleaning(cause), LaunchEvent::CleanupFailed(reason)) => (
            LaunchState::Finished,
            LaunchAction::Fail(
                LaunchFailure {
                    cause,
                    unconfirmed: Some((LeftBehind::Unit, reason)),
                    request: RequestFate::Kept,
                },
            ),
        ),
        (other, _) => (other, LaunchAction::Ignore),
    }
}

/// A cancelled or expired launch goes no further towards acceptance: the
/// acceptance marker is neither prepared nor, once prepared, taken up.
pub proof fn law_no_acceptance_after_interruption(
    via_broker: bool,
    state: LaunchState,
    event: LaunchEvent,
    clock: LaunchClock,
)
    requires
        clock.cancelled || clock.expired(),
    ensures
        ({
            let action = launch_next(via_broker, state, event, clock).1;
            &&& action !is Submit
            &&& action !is PrepareMarker
            &&& action !is CheckSupervisor
            &&& launch_start(clock).1 is Fail
        }),
{
}

/// A process is handed out only after its acceptance was published, and only
/// the one that was acknowledged.
pub proof fn law_delivery_follows_publication(
    via_broker: bool,
    state: LaunchState,
    event: LaunchEvent,
    clock: LaunchClock,
)
    ensures
        match launch_next(via_broker, state, event, clock).1 {
            LaunchAction::Deliver(ack) => state == LaunchState::Publishing(ack)
                && event is Published,
            LaunchAction::Publish => state is Checking && event == (LaunchEvent::Supervisor {
                exited: false,
            }),
            LaunchAction::CheckSupervisor => state is Preparing && event is MarkerPrepared,
            LaunchAction::PrepareMarker => state is Verifying && event is IdentitiesVerified,
            LaunchAction::VerifyIdentities(ack) => event == LaunchEvent::Acknowledgement(Some(ack)),
            _ => true,
        },
{
}

/// The private request survives exactly the failures whose cleanup is
/// unconfirmed, and the original failure is kept as their cause.
pub proof fn law_unconfirmed_cleanup_keeps_the_request(
    via_broker: bool,
    state: LaunchState,
    event: LaunchEvent,
    clock: LaunchClock,
    unit: Seq<char>,
    request: Seq<char>,
)
    ensures
        launch_next(via_broker, state, event, clock).1 matches LaunchAction::Fail(failure) ==> {
            &&& failure.request == RequestFate::Kept <==> failure.unconfirmed is Some
            &&& event is CleanupFailed <==> failure.unconfirmed is Some
            &&& failure.unconfirmed is Some ==> failure.model(clock.timeout, unit, request)
                is CleanupUnconfirmed
            &&& failure.unconfirmed is Some ==> *(failure.model(clock.timeout, unit, request)->CleanupUnconfirmed_0)
                == failure.cause.model(clock.timeout)
            &&& match state {
                LaunchState::Cleaning(cause) => failure.cause == cause,
                LaunchState::Withdrawing(cause) => failure.cause == cause,
                _ => true,
            }
        },
{
}

/// Once something was submitted, a failure is reported only after the attempt to
/// clean up: no launch is forgotten.
pub proof fn law_failures_are_cleaned_up(
    via_broker: bool,
    state: LaunchState,
    event: LaunchEvent,
    clock: LaunchClock,
)
    ensures
        launch_next(via_broker, state, event, clock).1 is Fail ==> {
            ||| state is Cleaning
            ||| state is Withdrawing
            ||| state is Submitting && event is SubmissionFailed && !event->may_have_arrived
        },
{
}

/// A launch that is neither cancelled nor past its timeout is given up only
/// because something failed: every other event leaves a launch that goes on going
/// on, and what was being cleaned up already stays so.
pub proof fn law_only_failures_end_a_launch(
    via_broker: bool,
    state: LaunchState,
    event: LaunchEvent,
    clock: LaunchClock,
)
    requires
        !clock.cancelled,
        clock.elapsed < clock.timeout,
        !(event is Failed),
        !(event is SubmissionFailed),
        event != (LaunchEvent::LauncherExited { success: false }),
        event != (LaunchEvent::Supervisor { exited: true }),
    ensures
        ({
            let (next, action) = launch_next(via_broker, state, event, clock);
            &&& !(action is CleanUp)
            &&& !(action is Withdraw)
            &&& next is Cleaning ==> next == state
            &&& next is Withdrawing ==> next == state
            &&& action is Fail ==> state is Cleaning || state is Withdrawing
            &&& next is Finished ==> state is Finished || action is Fail || action is Deliver
        }),
        launch_start(clock) == (LaunchState::Submitting, LaunchAction::Submit),
{
}

/// A helper that has not reported before the deadline is looked for again after
/// 25 milliseconds, and a manager that still runs after 10, for as long as it takes.
pub proof fn law_launch_waits_until_the_deadline(
    via_broker: bool,
    looked: LaunchClock,
    woke: LaunchClock,
)
    requires
        !looked.cancelled,
        !woke.cancelled,
        looked.elapsed < looked.timeout,
        woke.elapsed < woke.timeout,
    ensures
        launch_next(
            via_broker,
            LaunchState::AwaitingAcknowledgement,
            LaunchEvent::Acknowledgement(None),
            looked,
        ) == (LaunchState::AwaitingAcknowledgement, LaunchAction::Pause(25)),
        launch_next(
            via_broker,
            LaunchState::AwaitingAcknowledgement,
            LaunchEvent::Woke,
            woke,
        ) == (LaunchState::AwaitingAcknowledgement, LaunchAction::ReadAcknowledgement),
        launch_next(
            via_broker,
            LaunchState::AwaitingLauncher,
            LaunchEvent::LauncherRunning,
            looked,
        ) == (LaunchState::AwaitingLauncher, LaunchAction::Pause(10)),
        launch_next(via_broker, LaunchState::AwaitingLauncher, LaunchEvent::Woke, woke) == (
            LaunchState::AwaitingLauncher,
            LaunchAction::PollLauncher,
        ),
{
}

/// The cause for which a launch is given up is the one that arose: it was
/// cancelled, its time had passed, the manager or the supervisor said no, or the
/// event itself carries it.
pub proof fn law_launch_causes_are_true(
    via_broker: bool,
    state: LaunchState,
    event: LaunchEvent,
    clock: LaunchClock,
)
    ensures
        ({
            let (next, action) = launch_next(via_broker, state, event, clock);
            let cause = match next {
                LaunchState::Cleaning(cause) => Some(cause),
                LaunchState::Withdrawing(cause) => Some(cause),
                _ => match action {
                    LaunchAction::Fail(failure) => Some(failure.cause),
                    _ => None,
                },
            };
            let carried = match event {
                LaunchEvent::Failed(c) => Some(c),
                LaunchEvent::SubmissionFailed { cause: c, .. } => Some(c),
                _ => match state {
                    LaunchState::Cleaning(c) => Some(c),
                    LaunchState::Withdrawing(c) => Some(c),
                    _ => None,
                },
            };
            let held = match state {
                LaunchState::Cleaning(c) => Some(c),
                LaunchState::Withdrawing(c) => Some(c),
                _ => None,
            };
            cause is Some && cause != carried && cause != held ==> match cause->0 {
                LaunchCause::Cancelled => clock.cancelled,
                LaunchCause::Expired(stage) => {
                    &&& !clock.cancelled || stage == LaunchStage::Identity
                    &&& clock.elapsed >= clock.timeout
                    &&& match stage {
                        LaunchStage::BrokerSubmission => via_broker && event is SubmissionFailed,
                        LaunchStage::Launcher => state is AwaitingLauncher || (!via_broker
                            && state is Submitting),
                        LaunchStage::Identity => event == LaunchEvent::Acknowledgement(None),
                        LaunchStage::Verification => event is IdentitiesVerified,
                        LaunchStage::Preparation => event is MarkerPrepared,
                        _ => false,
                    }
                },
                LaunchCause::Refused(refusal) => match refusal {
                    LaunchRefusal::Manager => event == (LaunchEvent::LauncherExited {
                        success: false,
                    }),
                    LaunchRefusal::Supervisor => event == (LaunchEvent::Supervisor {
                        exited: true,
                    }),
                    _ => false,
                },
                LaunchCause::Outside(_) => false,
            }
        }),
        launch_start(clock).1 matches LaunchAction::Fail(failure) ==> (match failure.cause {
            LaunchCause::Cancelled => clock.cancelled,
            LaunchCause::Expired(stage) => clock.elapsed >= clock.timeout && !clock.cancelled
                && stage == LaunchStage::Submission,
            _ => false,
        }) && failure.unconfirmed is None && failure.request == RequestFate::DirectoryRemoved,
{
}

/// Whatever fails once the request was submitted, the launch is cleaned up for
/// that reason.
pub proof fn law_failed_launches_are_given_up(
    via_broker: bool,
    state: LaunchState,
    event: LaunchEvent,
    clock: LaunchClock,
    cause: LaunchCause,
)
    requires
        state is AwaitingLauncher || state is AwaitingAcknowledgement || state is Verifying
            || state is Preparing || state is Checking || state is Publishing,
    ensures
        event == LaunchEvent::Failed(cause) ==> launch_next(via_broker, state, event, clock) == (
            LaunchState::Cleaning(cause),
            LaunchAction::CleanUp,
        ),
        state is AwaitingLauncher && event == (LaunchEvent::LauncherExited { success: false })
            ==> launch_next(via_broker, state, event, clock).1 is CleanUp,
        state is Checking && event == (LaunchEvent::Supervisor { exited: true }) ==> launch_next(
            via_broker,
            state,
            event,
            clock,
        ).1 is CleanUp,
{
}

/// A launch that was cancelled is given up for that at its next turn, and one whose
/// time has passed as late; an acknowledgement that arrives late is still looked
/// at before the launch is given up.
pub proof fn law_interrupted_launches_are_given_up(
    via_broker: bool,
    state: LaunchState,
    event: LaunchEvent,
    clock: LaunchClock,
)
    requires
        ({
            ||| state is Submitting && event is Submitted && !via_broker
            ||| state is AwaitingLauncher && event is Woke
            ||| state is Verifying && event is IdentitiesVerified
            ||| state is Preparing && event is MarkerPrepared
        }),
    ensures
        clock.cancelled ==> launch_next(via_broker, state, event, clock) == (
            LaunchState::Cleaning(LaunchCause::Cancelled),
            LaunchAction::CleanUp,
        ),
        !clock.cancelled && clock.elapsed >= clock.timeout ==> {
            let (next, action) = launch_next(via_broker, state, event, clock);
            &&& action is CleanUp
            &&& next matches LaunchState::Cleaning(LaunchCause::Expired(_))
        },
{
}

/// While the acknowledgement is waited for, cancellation is noticed at every turn,
/// and a helper that has not reported at the deadline is given up.
pub proof fn law_missing_acknowledgements_expire(via_broker: bool, clock: LaunchClock)
    ensures
        clock.cancelled ==> launch_next(
            via_broker,
            LaunchState::AwaitingAcknowledgement,
            LaunchEvent::Woke,
            clock,
        ) == (LaunchState::Cleaning(LaunchCause::Cancelled), LaunchAction::CleanUp),
        clock.cancelled ==> launch_next(
            via_broker,
            LaunchState::AwaitingLauncher,
            LaunchEvent::LauncherExited { success: true },
            clock,
        ) == (LaunchState::Cleaning(LaunchCause::Cancelled), LaunchAction::CleanUp),
        clock.cancelled ==> launch_next(true, LaunchState::Submitting, LaunchEvent::Submitted, clock)
            == (LaunchState::Cleaning(LaunchCause::Cancelled), LaunchAction::CleanUp),
        clock.elapsed >= clock.timeout ==> launch_next(
            via_broker,
            LaunchState::AwaitingAcknowledgement,
            LaunchEvent::Acknowledgement(None),
            clock,
        ) == (
            LaunchState::Cleaning(LaunchCause::Expired(LaunchStage::Identity)),
            LaunchAction::CleanUp,
        ),
{
}

/// A launch in which nothing fails hands out the process that the helper
/// acknowledged: through the manager, which is waited for first, or through a
/// broker, which is not.
pub proof fn law_undisturbed_launch_is_delivered(
    via_broker: bool,
    ack: LaunchAcknowledgement,
    clocks: Seq<LaunchClock>,
)
    requires
        clocks.len() == 7,
        forall|i: int|
            0 <= i < 7 ==> !(#[trigger] clocks[i]).cancelled && clocks[i].elapsed
                < clocks[i].timeout,
    ensures
        ({
            let submitted = launch_next(
                via_broker,
                launch_start(clocks[0]).0,
                LaunchEvent::Submitted,
                clocks[0],
            );
            let launched = if via_broker {
                submitted
            } else {
                launch_next(
                    via_broker,
                    submitted.0,
                    LaunchEvent::LauncherExited { success: true },
                    clocks[1],
                )
            };
            let read = launch_next(
                via_broker,
                launched.0,
                LaunchEvent::Acknowledgement(Some(ack)),
                clocks[2],
            );
            let verified = launch_next(
                via_broker,
                read.0,
                LaunchEvent::IdentitiesVerified,
                clocks[3],
            );
            let prepared = launch_next(
                via_broker,
                verified.0,
                LaunchEvent::MarkerPrepared,
                clocks[4],
            );
            let checked = launch_next(
                via_broker,
                prepared.0,
                LaunchEvent::Supervisor { exited: false },
                clocks[5],
            );
            let published = launch_next(via_broker, checked.0, LaunchEvent::Published, clocks[6]);
            &&& launch_start(clocks[0]).1 is Submit
            &&& !via_broker ==> submitted.1 is PollLauncher
            &&& launched.1 is ReadAcknowledgement
            &&& read.1 == LaunchAction::VerifyIdentities(ack)
            &&& verified.1 is PrepareMarker
            &&& prepared.1 is CheckSupervisor
            &&& checked.1 is Publish
            &&& published == (LaunchState::Finished, LaunchAction::Deliver(ack))
        }),
{
    assert(!clocks[0].cancelled && clocks[0].elapsed < clocks[0].timeout);
    assert(!clocks[1].cancelled && clocks[1].elapsed < clocks[1].timeout);
    assert(!clocks[2].cancelled && clocks[2].elapsed < clocks[2].timeout);
    assert(!clocks[3].cancelled && clocks[3].elapsed < clocks[3].timeout);
    assert(!clocks[4].cancelled && clocks[4].elapsed < clocks[4].timeout);
    assert(!clocks[5].cancelled && clocks[5].elapsed < clocks[5].timeout);
    assert(!clocks[6].cancelled && clocks[6].elapsed < clocks[6].timeout);
}

/// A submission that failed is withdrawn exactly where the broker may have it, and
/// reported for its own cause unless a broker was asked in vain because of a
/// cancellation or the deadline.
pub proof fn law_failed_submissions(
    via_broker: bool,
    cause: LaunchCause,
    may_have_arrived: bool,
    clock: LaunchClock,
)
    ensures
        ({
            let (next, action) = launch_next(
                via_broker,
                LaunchState::Submitting,
                LaunchEvent::SubmissionFailed { cause, may_have_arrived },
                clock,
            );
            let reported = match next {
                LaunchState::Withdrawing(c) => c,
                _ => match action {
                    LaunchAction::Fail(failure) => failure.cause,
                    _ => arbitrary(),
                },
            };
            &&& may_have_arrived <==> action is Withdraw
            &&& may_have_arrived <==> next is Withdrawing
            &&& !may_have_arrived <==> action is Fail
            &&& action matches LaunchAction::Fail(failure) ==> failure.request
                == RequestFate::DirectoryRemoved
            &&& !via_broker || (!clock.cancelled && clock.elapsed < clock.timeout) ==> reported
                == cause
            &&& via_broker && clock.cancelled ==> reported == LaunchCause::Cancelled
            &&& via_broker && !clock.cancelled && clock.elapsed >= clock.timeout ==> reported
                == LaunchCause::Expired(LaunchStage::BrokerSubmission)
        }),
{
}

/// A cleanup that was confirmed removes the request: its file once the service was
/// submitted, and its directory too where nothing was. One that failed names what
/// stays behind.
pub proof fn law_cleanup_settles_the_request(
    via_broker: bool,
    cause: LaunchCause,
    reason: String,
    clock: LaunchClock,
)
    ensures
        launch_next(via_broker, LaunchState::Cleaning(cause), LaunchEvent::CleanedUp, clock).1
            == LaunchAction::Fail(
            LaunchFailure { cause, unconfirmed: None, request: RequestFate::FileRemoved },
        ),
        launch_next(via_broker, LaunchState::Withdrawing(cause), LaunchEvent::CleanedUp, clock).1
            == LaunchAction::Fail(
            LaunchFailure { cause, unconfirmed: None, request: RequestFate::DirectoryRemoved },
        ),
        launch_next(
            via_broker,
            LaunchState::Cleaning(cause),
            LaunchEvent::CleanupFailed(reason),
            clock,
        ).1 matches LaunchAction::Fail(failure) && failure.unconfirmed == Some(
            (LeftBehind::Unit, reason),
        ),
        launch_next(
            via_broker,
            LaunchState::Withdrawing(cause),
            LaunchEvent::CleanupFailed(reason),
            clock,
        ).1 matches LaunchAction::Fail(failure) && failure.unconfirmed == Some(
            (LeftBehind::Request, reason),
        ),
{
}

/// An event that does not belong to the state of a launch changes nothing.
pub proof fn law_stray_events_change_nothing(
    via_broker: bool,
    state: LaunchState,
    event: LaunchEvent,
    clock: LaunchClock,
)
    ensures
        launch_next(via_broker, state, event, clock).1 is Ignore ==> launch_next(
            via_broker,
            state,
            event,
            clock,
        ).0 == state,
        state is Finished ==> launch_next(via_broker, state, event, clock).1 is Ignore,
{
}

/// The error that is reported is of the kind of its cause: a cancellation, a
/// missed deadline with the timeout that was asked for, a refusal, or what failed
/// outside as it is. A cleanup that failed is reported around it.
pub proof fn law_errors_follow_their_causes(
    failure: LaunchFailure,
    timeout: u128,
    unit: Seq<char>,
    request: Seq<char>,
)
    ensures
        match failure.cause {
            LaunchCause::Cancelled => failure.cause.model(timeout) == SpawnErrorModel::Cancelled,
            LaunchCause::Expired(_) => failure.cause.model(timeout) matches SpawnErrorModel::Readiness(
                waited,
                _,
            ) && waited == timeout,
            LaunchCause::Refused(_) => failure.cause.model(timeout) is Launch,
            LaunchCause::Outside(error) => failure.cause.model(timeout) == error@,
        },
        failure.unconfirmed is None ==> failure.model(timeout, unit, request)
            == failure.cause.model(timeout),
        failure.unconfirmed matches Some((left, reason)) ==> (failure.model(
            timeout,
            unit,
            request,
        ) matches SpawnErrorModel::CleanupUnconfirmed(cause, resource, why) && {
            &&& *cause == failure.cause.model(timeout)
            &&& why == reason@
            &&& resource == if left == LeftBehind::Unit {
                unit
            } else {
                request
            }
        }),
{
}

/// A string with a zero byte cannot be passed to a process, and every other can. A
/// name is no environment key if it is empty or cannot be passed, and on Unix also if
/// it holds an equals sign.
pub proof fn law_native_strings(platform: Platform, key: Seq<u8>)
    ensures
        bad_native_string(key) <==> exists|i: int| 0 <= i < key.len() && key[i] == 0,
        key.len() == 0 ==> bad_environment_key(platform, key),
        bad_native_string(key) ==> bad_environment_key(platform, key),
        key.len() > 0 && !bad_native_string(key) ==> (bad_environment_key(platform, key)
            <==> platform == Platform::Unix && exists|i: int|
            0 <= i < key.len() && key[i] == '=' as u8),
{
}

/// A failure of the host keeps its text. It is a denial where permission was denied,
/// a missing feature where the call is not supported or not there, and a failed
/// launch otherwise.
pub proof fn law_failures_keep_their_category(failure: IoFailure, numbers: HostNumbers)
    ensures
        match classified(failure, numbers) {
            SpawnErrorModel::PermissionDenied(text) => text == failure.text@ && failure.kind
                == ErrorKind::PermissionDenied,
            SpawnErrorModel::Unsupported(text) => text == failure.text@ && failure.kind
                != ErrorKind::PermissionDenied && (failure.kind == ErrorKind::Unsupported
                || failure.raw_os_error == Some(numbers.not_implemented)),
            SpawnErrorModel::Launch(text) => text == failure.text@ && failure.kind
                != ErrorKind::PermissionDenied && failure.kind != ErrorKind::Unsupported
                && failure.raw_os_error != Some(numbers.not_implemented),
            _ => false,
        },
{
}

/// The text of an error ends with its reason, and that of an unconfirmed cleanup
/// begins with the text of the failure that led to it.
pub proof fn law_error_texts_give_the_reason(e: SpawnErrorModel)
    ensures
        match e {
            SpawnErrorModel::Unsupported(reason) => reason.is_suffix_of(spawn_error_text(e)),
            SpawnErrorModel::PermissionDenied(reason) => reason.is_suffix_of(spawn_error_text(e)),
            SpawnErrorModel::Launch(reason) => reason.is_suffix_of(spawn_error_text(e)),
            SpawnErrorModel::Readiness(_, reason) => reason.is_suffix_of(spawn_error_text(e)),
            SpawnErrorModel::Cancelled => true,
            SpawnErrorModel::CleanupUnconfirmed(cause, _, reason) => reason.is_suffix_of(
                spawn_error_text(e),
            ) && spawn_error_text(*cause).is_prefix_of(spawn_error_text(e)),
        },
{
    let text = spawn_error_text(e);
    match e {
        SpawnErrorModel::Unsupported(reason) => {
            assert(text.subrange(text.len() - reason.len(), text.len() as int) =~= reason);
        },
        SpawnErrorModel::PermissionDenied(reason) => {
            assert(text.subrange(text.len() - reason.len(), text.len() as int) =~= reason);
        },
        SpawnErrorModel::Launch(reason) => {
            assert(text.subrange(text.len() - reason.len(), text.len() as int) =~= reason);
        },
        SpawnErrorModel::Readiness(_, reason) => {
            assert(text.subrange(text.len() - reason.len(), text.len() as int) =~= reason);
        },
        SpawnErrorModel::Cancelled => {},
        SpawnErrorModel::CleanupUnconfirmed(cause, _, reason) => {
            let front = spawn_error_text(*cause);
            assert(text.subrange(text.len() - reason.len(), text.len() as int) =~= reason);
            assert(text.subrange(0, front.len() as int) =~= front);
        },
    }
}

/// An acknowledgement names two processes that exist and differ; words that say
/// anything else are none.
pub proof fn law_acknowledged_processes_differ(words: Seq<Seq<char>>)
    ensures
        acknowledged_words(words) matches Some(ack) ==> {
            &&& words.len() == 4
            &&& ack.pid > 0
            &&& ack.supervisor_pid > 0
            &&& ack.pid != ack.supervisor_pid
            &&& digits_within(words[0], u32::MAX as nat) == Some(ack.pid as nat)
            &&& digits_within(words[1], u64::MAX as nat) == Some(ack.start_key as nat)
            &&& digits_within(words[2], u32::MAX as nat) == Some(ack.supervisor_pid as nat)
            &&& digits_within(words[3], u64::MAX as nat) == Some(ack.supervisor_key as nat)
        },
{
}

/// Cancellation comes before the deadline, and a launch in time is not interrupted.
pub proof fn law_cancellation_comes_first(clock: LaunchClock, stage: LaunchStage)
    ensures
        clock.cancelled ==> interrupted(clock, stage) == Some(LaunchCause::Cancelled),
        !clock.cancelled && clock.elapsed >= clock.timeout ==> interrupted(clock, stage) == Some(
            LaunchCause::Expired(stage),
        ),
        !clock.cancelled && clock.elapsed < clock.timeout ==> interrupted(clock, stage) is None,
{
}

/// Cancelling raises one flag and leaves the others, and a number that was never given
/// out raises none.
pub proof fn law_cancelling_raises_one_flag(flags: Seq<bool>, number: nat, i: int)
    ensures
        with_flag(flags, number).len() == flags.len(),
        number < flags.len() ==> with_flag(flags, number)[number as int],
        0 <= i < flags.len() && i != number ==> with_flag(flags, number)[i] == flags[i],
        number >= flags.len() ==> with_flag(flags, number) == flags,
{
}

} // verus!
