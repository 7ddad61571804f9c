//! Every environment variable that this library reads, declared in one place.
//!
//! "Is this switch on?" has two defensible answers when the value is neither
//! clearly on nor clearly off, and which one is right depends on who owns the
//! variable. A switch that this library defines is off for an unknown value: a
//! typo must not disable something. A value that someone else writes is on for
//! an unknown value. An escape hatch is on until someone turns it off, and is the
//! only kind that is on when unset.

use crate::text::{ascii_lowercase, same_text, to_ascii_lowercase, trim, trimmed};
use vstd::prelude::*;
use vstd::string::*;

verus! {

/// What kind of value a variable carries, and how it is read.
#[derive(Clone, Copy, Debug, PartialEq, Eq)]
pub enum EnvKind {
    /// A switch that this library defines; unknown values are off.
    OwnedFlag,
    /// A switch whose values belong to someone else; unknown values are on.
    ForeignFlag,
    /// An escape hatch that is on unless it is turned off.
    OptOutFlag,
    /// A switch that is on for exactly one spelling.
    ExactValue(&'static str),
    /// A filesystem path.
    Path,
    /// Free text.
    Text,
    /// A number.
    Number,
}

impl EnvKind {
    /// Whether variables of this kind are switches.
    pub open spec fn is_flag(self) -> bool {
        match self {
            EnvKind::OwnedFlag => true,
            EnvKind::ForeignFlag => true,
            EnvKind::OptOutFlag => true,
            EnvKind::ExactValue(_) => true,
            _ => false,
        }
    }
}

/// Who decides what values a variable may take.
#[derive(Clone, Copy, Debug, PartialEq, Eq, Structural)]
pub enum Owner {
    /// This library.
    Crate,
    /// A supervising process or a test harness.
    Foreign,
}

/// One environment variable that this library reads.
#[derive(Clone, Copy, Debug)]
pub struct EnvVar {
    /// Name of the variable.
    pub name: &'static str,
    /// What the value means and how it is read.
    pub kind: EnvKind,
    /// Who owns the values.
    pub owner: Owner,
    /// What happens when the variable is unset.
    pub default: &'static str,
    /// What the variable is for.
    pub summary: &'static str,
}

/// A value as it is compared: without surrounding blanks, in lower case.
pub open spec fn normalized(value: Seq<char>) -> Seq<char> {
    ascii_lowercase(trimmed(value))
}

/// Whether a value is a recognised spelling of "on".
pub open spec fn affirmative(value: Seq<char>) -> bool {
    let v = normalized(value);
    v == "1"@ || v == "true"@ || v == "yes"@ || v == "on"@
}

/// Whether a value is a recognised spelling of "off".
pub open spec fn negative(value: Seq<char>) -> bool {
    let v = normalized(value);
    v == ""@ || v == "0"@ || v == "false"@ || v == "no"@ || v == "off"@
}

/// Whether a switch of some kind is on.
pub open spec fn switched_on(kind: EnvKind, value: Option<Seq<char>>) -> bool {
    match (kind, value) {
        (EnvKind::OwnedFlag, Some(v)) => affirmative(v),
        (EnvKind::ForeignFlag, Some(v)) => !negative(v),
        (EnvKind::OptOutFlag, Some(v)) => !negative(v),
        (EnvKind::OptOutFlag, None) => true,
        (EnvKind::ExactValue(expected), Some(v)) => v == expected@,
        _ => false,
    }
}

/// The text of an optional value.
pub open spec fn value_text(value: Option<&str>) -> Option<Seq<char>> {
    match value {
        Some(v) => Some(v@),
        None => None,
    }
}

fn is_affirmative(value: &str) -> (b: bool)
    ensures
        b == affirmative(value@),
{
    let v = to_ascii_lowercase(trim(value).as_str());
    same_text(v.as_str(), "1") || same_text(v.as_str(), "true") || same_text(v.as_str(), "yes")
        || same_text(v.as_str(), "on")
}

fn is_negative(value: &str) -> (b: bool)
    ensures
        b == negative(value@),
{
    let v = to_ascii_lowercase(trim(value).as_str());
    same_text(v.as_str(), "") || same_text(v.as_str(), "0") || same_text(v.as_str(), "false")
        || same_text(v.as_str(), "no") || same_text(v.as_str(), "off")
}

/// Reads a switch that this library owns: on only for a recognised affirmative.
pub fn flag_owned(value: Option<&str>) -> (b: bool)
    ensures
        b == switched_on(EnvKind::OwnedFlag, value_text(value)),
{
    match value {
        Some(v) => is_affirmative(v),
        None => false,
    }
}

/// Reads a switch that someone else writes: off only for a recognised negative,
/// and when unset.
pub fn flag_foreign(value: Option<&str>) -> (b: bool)
    ensures
        b == switched_on(EnvKind::ForeignFlag, value_text(value)),
{
    match value {
        Some(v) => !is_negative(v),
        None => false,
    }
}

/// Reads an escape hatch: on unless it is turned off.
pub fn flag_opt_out(value: Option<&str>) -> (b: bool)
    ensures
        b == switched_on(EnvKind::OptOutFlag, value_text(value)),
{
    match value {
        Some(v) => !is_negative(v),
        None => true,
    }
}

/// Whether a value at hand reads as a foreign switch that is on.
pub fn value_is_affirmative_foreign(value: &str) -> (b: bool)
    ensures
        b == !negative(value@),
{
    !is_negative(value)
}

impl EnvVar {
    /// Whether the switch is on for a value of its variable. Only switches are on
    /// or off.
    pub fn is_set(&self, value: Option<&str>) -> (b: bool)
        requires
            self.kind.is_flag(),
        ensures
            b == switched_on(self.kind, value_text(value)),
    {
        match self.kind {
            EnvKind::OwnedFlag => flag_owned(value),
            EnvKind::ForeignFlag => flag_foreign(value),
            EnvKind::OptOutFlag => flag_opt_out(value),
            EnvKind::ExactValue(expected) => match value {
                Some(v) => same_text(v, expected),
                None => false,
            },
            _ => false,
        }
    }
}

/// The three kinds of switches agree on every recognised spelling, and differ on
/// unknown values exactly as their owners want.
pub proof fn law_flags_agree_on_recognised_spellings(value: Seq<char>)
    ensures
        affirmative(value) ==> switched_on(EnvKind::OwnedFlag, Some(value)) && switched_on(
            EnvKind::ForeignFlag,
            Some(value),
        ) && switched_on(EnvKind::OptOutFlag, Some(value)),
        negative(value) ==> !switched_on(EnvKind::OwnedFlag, Some(value)) && !switched_on(
            EnvKind::ForeignFlag,
            Some(value),
        ) && !switched_on(EnvKind::OptOutFlag, Some(value)),
        !affirmative(value) && !negative(value) ==> !switched_on(EnvKind::OwnedFlag, Some(value))
            && switched_on(EnvKind::ForeignFlag, Some(value)) && switched_on(
            EnvKind::OptOutFlag,
            Some(value),
        ),
{
    reveal_strlit("1");
    reveal_strlit("true");
    reveal_strlit("yes");
    reveal_strlit("on");
    reveal_strlit("");
    reveal_strlit("0");
    reveal_strlit("false");
    reveal_strlit("no");
    reveal_strlit("off");
    let v = normalized(value);
    if affirmative(value) {
        assert(v.len() > 0);
        assert(v[0] == '1' || v[0] == 't' || v[0] == 'y' || v[0] == 'o');
        assert(v[0] == 'o' ==> v.len() == 2);
    }
}

/// An unset switch is on exactly if it is an escape hatch.
pub proof fn law_unset_flags(kind: EnvKind)
    requires
        kind.is_flag(),
    ensures
        switched_on(kind, None) <==> kind == EnvKind::OptOutFlag,
{
}

/// The declared variables, in alphabetical order.
#[derive(Clone, Copy, Debug, PartialEq, Eq, Structural)]
pub enum Variable {
    /// Opt out of the broker's refusal to start as root or LocalSystem.
    BrokerAllowPrivileged,
    /// Broker client request timeout, in milliseconds.
    BrokerClientTimeoutMs,
    /// Where broker crash dumps are written.
    BrokerCrashDumpDir,
    /// Run the broker Hello latency guard.
    BrokerHelloPerfGuard,
    /// Broker Hello handshake timeout, in milliseconds.
    BrokerHelloTimeoutMs,
    /// Bind address for the broker HTTP aggregator.
    BrokerHttpBind,
    /// Port for the broker HTTP aggregator.
    BrokerHttpPort,
    /// Descriptor of a listening socket the broker already bound and passed.
    BrokerListenerFd,
    /// Maximum broker request handlers running at once.
    BrokerMaxInflightHandlers,
    /// Escape hatch: set falsy to fall back to spawn-then-probe.
    BrokerOwnedBind,
    /// Backend namespace handed to a v1 broker backend.
    BrokerV1BackendNamespace,
    /// Endpoint a v1 broker backend should serve on.
    BrokerV1BackendPipe,
    /// Instance identifier for a v1 broker backend.
    BrokerV1Instance,
    /// Service name a v1 broker backend registers under.
    BrokerV1ServiceName,
    /// Service version a v1 broker backend reports.
    BrokerV1ServiceVersion,
    /// Session token a v1 broker backend presents to the broker.
    BrokerV1SessionToken,
    /// Broker endpoint a v1 backend dials.
    BrokerV1Socket,
    /// W3C traceparent propagated into a v1 broker backend.
    BrokerV1Traceparent,
    /// W3C tracestate propagated into a v1 broker backend.
    BrokerV1Tracestate,
    /// Append each spawned child PID to this file (test harness seam).
    ChildPidLogPath,
    /// Daemon client connect timeout, in milliseconds.
    ClientConnectTimeoutMs,
    /// Daemon client RPC timeout, in milliseconds.
    ClientRpcTimeoutMs,
    /// Daemon scope selector; `dev` gives a CWD-scoped daemon for tests.
    DaemonScope,
    /// Marks a daemon already running from its shadow copy.
    DaemonShadowed,
    /// Canonical escape hatch: bypass the broker entirely.
    Disable,
    /// TEST-ONLY: dial this endpoint directly, skipping broker negotiation.
    FakeBackend,
    /// Marks a process spawned as a daemon, for originator reaping.
    IsDaemon,
    /// How long `kill()` waits for output capture to drain, in milliseconds.
    KillDrainTimeoutMs,
    /// Where broker cache manifests are read and written.
    ManifestDir,
    /// Disable daemon IPC and process tracking.
    NoTracking,
    /// Identifies the process that originated a spawn tree.
    Originator,
    /// Where service definitions are read from.
    ServiceDefDir,
}

/// Every declared variable.
pub const DECLARED: [Variable; 32] = [
    Variable::BrokerAllowPrivileged,
    Variable::BrokerClientTimeoutMs,
    Variable::BrokerCrashDumpDir,
    Variable::BrokerHelloPerfGuard,
    Variable::BrokerHelloTimeoutMs,
    Variable::BrokerHttpBind,
    Variable::BrokerHttpPort,
    Variable::BrokerListenerFd,
    Variable::BrokerMaxInflightHandlers,
    Variable::BrokerOwnedBind,
    Variable::BrokerV1BackendNamespace,
    Variable::BrokerV1BackendPipe,
    Variable::BrokerV1Instance,
    Variable::BrokerV1ServiceName,
    Variable::BrokerV1ServiceVersion,
    Variable::BrokerV1SessionToken,
    Variable::BrokerV1Socket,
    Variable::BrokerV1Traceparent,
    Variable::BrokerV1Tracestate,
    Variable::ChildPidLogPath,
    Variable::ClientConnectTimeoutMs,
    Variable::ClientRpcTimeoutMs,
    Variable::DaemonScope,
    Variable::DaemonShadowed,
    Variable::Disable,
    Variable::FakeBackend,
    Variable::IsDaemon,
    Variable::KillDrainTimeoutMs,
    Variable::ManifestDir,
    Variable::NoTracking,
    Variable::Originator,
    Variable::ServiceDefDir,
];

impl Variable {
    /// Name of the variable.
    pub open spec fn spec_name(self) -> Seq<char> {
        match self {
            Variable::BrokerAllowPrivileged => "RUNNING_PROCESS_BROKER_ALLOW_PRIVILEGED"@,
            Variable::BrokerClientTimeoutMs => "RUNNING_PROCESS_BROKER_CLIENT_TIMEOUT_MS"@,
            Variable::BrokerCrashDumpDir => "RUNNING_PROCESS_BROKER_CRASH_DUMP_DIR"@,
            Variable::BrokerHelloPerfGuard => "RUNNING_PROCESS_BROKER_HELLO_PERF_GUARD"@,
            Variable::BrokerHelloTimeoutMs => "RUNNING_PROCESS_BROKER_HELLO_TIMEOUT_MS"@,
            Variable::BrokerHttpBind => "RUNNING_PROCESS_BROKER_HTTP_BIND"@,
            Variable::BrokerHttpPort => "RUNNING_PROCESS_BROKER_HTTP_PORT"@,
            Variable::BrokerListenerFd => "RUNNING_PROCESS_BROKER_LISTENER_FD"@,
            Variable::BrokerMaxInflightHandlers => "RUNNING_PROCESS_BROKER_MAX_INFLIGHT_HANDLERS"@,
            Variable::BrokerOwnedBind => "RUNNING_PROCESS_BROKER_OWNED_BIND"@,
            Variable::BrokerV1BackendNamespace => "RUNNING_PROCESS_BROKER_V1_BACKEND_NAMESPACE"@,
            Variable::BrokerV1BackendPipe => "RUNNING_PROCESS_BROKER_V1_BACKEND_PIPE"@,
            Variable::BrokerV1Instance => "RUNNING_PROCESS_BROKER_V1_INSTANCE"@,
            Variable::BrokerV1ServiceName => "RUNNING_PROCESS_BROKER_V1_SERVICE_NAME"@,
            Variable::BrokerV1ServiceVersion => "RUNNING_PROCESS_BROKER_V1_SERVICE_VERSION"@,
            Variable::BrokerV1SessionToken => "RUNNING_PROCESS_BROKER_V1_SESSION_TOKEN"@,
            Variable::BrokerV1Socket => "RUNNING_PROCESS_BROKER_V1_SOCKET"@,
            Variable::BrokerV1Traceparent => "RUNNING_PROCESS_BROKER_V1_TRACEPARENT"@,
            Variable::BrokerV1Tracestate => "RUNNING_PROCESS_BROKER_V1_TRACESTATE"@,
            Variable::ChildPidLogPath => "RUNNING_PROCESS_CHILD_PID_LOG_PATH"@,
            Variable::ClientConnectTimeoutMs => "RUNNING_PROCESS_CLIENT_CONNECT_TIMEOUT_MS"@,
            Variable::ClientRpcTimeoutMs => "RUNNING_PROCESS_CLIENT_RPC_TIMEOUT_MS"@,
            Variable::DaemonScope => "RUNNING_PROCESS_DAEMON_SCOPE"@,
            Variable::DaemonShadowed => "RUNNING_PROCESS_DAEMON_SHADOWED"@,
            Variable::Disable => "RUNNING_PROCESS_DISABLE"@,
            Variable::FakeBackend => "RUNNING_PROCESS_FAKE_BACKEND"@,
            Variable::IsDaemon => "RUNNING_PROCESS_IS_DAEMON"@,
            Variable::KillDrainTimeoutMs => "RUNNING_PROCESS_KILL_DRAIN_TIMEOUT_MS"@,
            Variable::ManifestDir => "RUNNING_PROCESS_MANIFEST_DIR"@,
            Variable::NoTracking => "RUNNING_PROCESS_NO_TRACKING"@,
            Variable::Originator => "RUNNING_PROCESS_ORIGINATOR"@,
            Variable::ServiceDefDir => "RUNNING_PROCESS_SERVICE_DEF_DIR"@,
        }
    }

    /// Name of the variable.
    pub fn name(self) -> (s: &'static str)
        ensures
            s@ == self.spec_name(),
    {
        match self {
            Variable::BrokerAllowPrivileged => "RUNNING_PROCESS_BROKER_ALLOW_PRIVILEGED",
            Variable::BrokerClientTimeoutMs => "RUNNING_PROCESS_BROKER_CLIENT_TIMEOUT_MS",
            Variable::BrokerCrashDumpDir => "RUNNING_PROCESS_BROKER_CRASH_DUMP_DIR",
            Variable::BrokerHelloPerfGuard => "RUNNING_PROCESS_BROKER_HELLO_PERF_GUARD",
            Variable::BrokerHelloTimeoutMs => "RUNNING_PROCESS_BROKER_HELLO_TIMEOUT_MS",
            Variable::BrokerHttpBind => "RUNNING_PROCESS_BROKER_HTTP_BIND",
            Variable::BrokerHttpPort => "RUNNING_PROCESS_BROKER_HTTP_PORT",
            Variable::BrokerListenerFd => "RUNNING_PROCESS_BROKER_LISTENER_FD",
            Variable::BrokerMaxInflightHandlers => "RUNNING_PROCESS_BROKER_MAX_INFLIGHT_HANDLERS",
            Variable::BrokerOwnedBind => "RUNNING_PROCESS_BROKER_OWNED_BIND",
            Variable::BrokerV1BackendNamespace => "RUNNING_PROCESS_BROKER_V1_BACKEND_NAMESPACE",
            Variable::BrokerV1BackendPipe => "RUNNING_PROCESS_BROKER_V1_BACKEND_PIPE",
            Variable::BrokerV1Instance => "RUNNING_PROCESS_BROKER_V1_INSTANCE",
            Variable::BrokerV1ServiceName => "RUNNING_PROCESS_BROKER_V1_SERVICE_NAME",
            Variable::BrokerV1ServiceVersion => "RUNNING_PROCESS_BROKER_V1_SERVICE_VERSION",
            Variable::BrokerV1SessionToken => "RUNNING_PROCESS_BROKER_V1_SESSION_TOKEN",
            Variable::BrokerV1Socket => "RUNNING_PROCESS_BROKER_V1_SOCKET",
            Variable::BrokerV1Traceparent => "RUNNING_PROCESS_BROKER_V1_TRACEPARENT",
            Variable::BrokerV1Tracestate => "RUNNING_PROCESS_BROKER_V1_TRACESTATE",
            Variable::ChildPidLogPath => "RUNNING_PROCESS_CHILD_PID_LOG_PATH",
            Variable::ClientConnectTimeoutMs => "RUNNING_PROCESS_CLIENT_CONNECT_TIMEOUT_MS",
            Variable::ClientRpcTimeoutMs => "RUNNING_PROCESS_CLIENT_RPC_TIMEOUT_MS",
            Variable::DaemonScope => "RUNNING_PROCESS_DAEMON_SCOPE",
            Variable::DaemonShadowed => "RUNNING_PROCESS_DAEMON_SHADOWED",
            Variable::Disable => "RUNNING_PROCESS_DISABLE",
            Variable::FakeBackend => "RUNNING_PROCESS_FAKE_BACKEND",
            Variable::IsDaemon => "RUNNING_PROCESS_IS_DAEMON",
            Variable::KillDrainTimeoutMs => "RUNNING_PROCESS_KILL_DRAIN_TIMEOUT_MS",
            Variable::ManifestDir => "RUNNING_PROCESS_MANIFEST_DIR",
            Variable::NoTracking => "RUNNING_PROCESS_NO_TRACKING",
            Variable::Originator => "RUNNING_PROCESS_ORIGINATOR",
            Variable::ServiceDefDir => "RUNNING_PROCESS_SERVICE_DEF_DIR",
        }
    }

    /// What happens when the variable is unset.
    pub open spec fn spec_default(self) -> Seq<char> {
        match self {
            Variable::BrokerAllowPrivileged => "privileged startup is refused"@,
            Variable::BrokerClientTimeoutMs => "the built-in client timeout"@,
            Variable::BrokerCrashDumpDir => "the standard diagnostic-artifact location"@,
            Variable::BrokerHelloPerfGuard => "the guard does not run"@,
            Variable::BrokerHelloTimeoutMs => "the built-in Hello timeout"@,
            Variable::BrokerHttpBind => "the loopback bind address"@,
            Variable::BrokerHttpPort => "an ephemeral port"@,
            Variable::BrokerListenerFd => "the daemon binds its own endpoint"@,
            Variable::BrokerMaxInflightHandlers => "the built-in concurrency cap"@,
            Variable::BrokerOwnedBind => "broker-owned bind is used"@,
            Variable::BrokerV1BackendNamespace => "no namespace is applied"@,
            Variable::BrokerV1BackendPipe => "the backend derives its own endpoint"@,
            Variable::BrokerV1Instance => "the default instance"@,
            Variable::BrokerV1ServiceName => "the backend supplies its own name"@,
            Variable::BrokerV1ServiceVersion => "the backend supplies its own version"@,
            Variable::BrokerV1SessionToken => "no session token is presented"@,
            Variable::BrokerV1Socket => "the standard broker endpoint"@,
            Variable::BrokerV1Traceparent => "no trace context is propagated"@,
            Variable::BrokerV1Tracestate => "no trace state is propagated"@,
            Variable::ChildPidLogPath => "spawned child PIDs are not logged"@,
            Variable::ClientConnectTimeoutMs => "the built-in connect timeout"@,
            Variable::ClientRpcTimeoutMs => "the built-in RPC timeout"@,
            Variable::DaemonScope => "the user-wide scope"@,
            Variable::DaemonShadowed => "a dev-build daemon relocates itself"@,
            Variable::Disable => "the broker is used"@,
            Variable::FakeBackend => "backends are reached through the broker"@,
            Variable::IsDaemon => "the process is not a daemon"@,
            Variable::KillDrainTimeoutMs => "two seconds"@,
            Variable::ManifestDir => "the standard manifest location"@,
            Variable::NoTracking => "processes are tracked"@,
            Variable::Originator => "the originator is inferred"@,
            Variable::ServiceDefDir => "the standard service-definition location"@,
        }
    }

    /// What happens when the variable is unset.
    pub fn default(self) -> (s: &'static str)
        ensures
            s@ == self.spec_default(),
    {
        match self {
            Variable::BrokerAllowPrivileged => "privileged startup is refused",
            Variable::BrokerClientTimeoutMs => "the built-in client timeout",
            Variable::BrokerCrashDumpDir => "the standard diagnostic-artifact location",
            Variable::BrokerHelloPerfGuard => "the guard does not run",
            Variable::BrokerHelloTimeoutMs => "the built-in Hello timeout",
            Variable::BrokerHttpBind => "the loopback bind address",
            Variable::BrokerHttpPort => "an ephemeral port",
            Variable::BrokerListenerFd => "the daemon binds its own endpoint",
            Variable::BrokerMaxInflightHandlers => "the built-in concurrency cap",
            Variable::BrokerOwnedBind => "broker-owned bind is used",
            Variable::BrokerV1BackendNamespace => "no namespace is applied",
            Variable::BrokerV1BackendPipe => "the backend derives its own endpoint",
            Variable::BrokerV1Instance => "the default instance",
            Variable::BrokerV1ServiceName => "the backend supplies its own name",
            Variable::BrokerV1ServiceVersion => "the backend supplies its own version",
            Variable::BrokerV1SessionToken => "no session token is presented",
            Variable::BrokerV1Socket => "the standard broker endpoint",
            Variable::BrokerV1Traceparent => "no trace context is propagated",
            Variable::BrokerV1Tracestate => "no trace state is propagated",
            Variable::ChildPidLogPath => "spawned child PIDs are not logged",
            Variable::ClientConnectTimeoutMs => "the built-in connect timeout",
            Variable::ClientRpcTimeoutMs => "the built-in RPC timeout",
            Variable::DaemonScope => "the user-wide scope",
            Variable::DaemonShadowed => "a dev-build daemon relocates itself",
            Variable::Disable => "the broker is used",
            Variable::FakeBackend => "backends are reached through the broker",
            Variable::IsDaemon => "the process is not a daemon",
            Variable::KillDrainTimeoutMs => "two seconds",
            Variable::ManifestDir => "the standard manifest location",
            Variable::NoTracking => "processes are tracked",
            Variable::Originator => "the originator is inferred",
            Variable::ServiceDefDir => "the standard service-definition location",
        }
    }

    /// What the variable is for.
    pub open spec fn spec_summary(self) -> Seq<char> {
        match self {
            Variable::BrokerAllowPrivileged => "Opt out of the broker's refusal to start as root or LocalSystem."@,
            Variable::BrokerClientTimeoutMs => "Broker client request timeout, in milliseconds."@,
            Variable::BrokerCrashDumpDir => "Where broker crash dumps are written."@,
            Variable::BrokerHelloPerfGuard => "Run the broker Hello latency guard."@,
            Variable::BrokerHelloTimeoutMs => "Broker Hello handshake timeout, in milliseconds."@,
            Variable::BrokerHttpBind => "Bind address for the broker HTTP aggregator."@,
            Variable::BrokerHttpPort => "Port for the broker HTTP aggregator."@,
            Variable::BrokerListenerFd => "Descriptor of a listening socket the broker already bound and passed."@,
            Variable::BrokerMaxInflightHandlers => "Maximum broker request handlers running at once."@,
            Variable::BrokerOwnedBind => "Escape hatch: set falsy to fall back to spawn-then-probe."@,
            Variable::BrokerV1BackendNamespace => "Backend namespace handed to a v1 broker backend."@,
            Variable::BrokerV1BackendPipe => "Endpoint a v1 broker backend should serve on."@,
            Variable::BrokerV1Instance => "Instance identifier for a v1 broker backend."@,
            Variable::BrokerV1ServiceName => "Service name a v1 broker backend registers under."@,
            Variable::BrokerV1ServiceVersion => "Service version a v1 broker backend reports."@,
            Variable::BrokerV1SessionToken => "Session token a v1 broker backend presents to the broker."@,
            Variable::BrokerV1Socket => "Broker endpoint a v1 backend dials."@,
            Variable::BrokerV1Traceparent => "W3C traceparent propagated into a v1 broker backend."@,
            Variable::BrokerV1Tracestate => "W3C tracestate propagated into a v1 broker backend."@,
            Variable::ChildPidLogPath => "Append each spawned child PID to this file (test harness seam)."@,
            Variable::ClientConnectTimeoutMs => "Daemon client connect timeout, in milliseconds."@,
            Variable::ClientRpcTimeoutMs => "Daemon client RPC timeout, in milliseconds."@,
            Variable::DaemonScope => "Daemon scope selector; `dev` gives a CWD-scoped daemon for tests."@,
            Variable::DaemonShadowed => "Marks a daemon already running from its shadow copy."@,
            Variable::Disable => "Canonical escape hatch: bypass the broker entirely."@,
            Variable::FakeBackend => "TEST-ONLY: dial this endpoint directly, skipping broker negotiation."@,
            Variable::IsDaemon => "Marks a process spawned as a daemon, for originator reaping."@,
            Variable::KillDrainTimeoutMs => "How long `kill()` waits for output capture to drain, in milliseconds."@,
            Variable::ManifestDir => "Where broker cache manifests are read and written."@,
            Variable::NoTracking => "Disable daemon IPC and process tracking."@,
            Variable::Originator => "Identifies the process that originated a spawn tree."@,
            Variable::ServiceDefDir => "Where service definitions are read from."@,
        }
    }

    /// What the variable is for.
    pub fn summary(self) -> (s: &'static str)
        ensures
            s@ == self.spec_summary(),
    {
        match self {
            Variable::BrokerAllowPrivileged => "Opt out of the broker's refusal to start as root or LocalSystem.",
            Variable::BrokerClientTimeoutMs => "Broker client request timeout, in milliseconds.",
            Variable::BrokerCrashDumpDir => "Where broker crash dumps are written.",
            Variable::BrokerHelloPerfGuard => "Run the broker Hello latency guard.",
            Variable::BrokerHelloTimeoutMs => "Broker Hello handshake timeout, in milliseconds.",
            Variable::BrokerHttpBind => "Bind address for the broker HTTP aggregator.",
            Variable::BrokerHttpPort => "Port for the broker HTTP aggregator.",
            Variable::BrokerListenerFd => "Descriptor of a listening socket the broker already bound and passed.",
            Variable::BrokerMaxInflightHandlers => "Maximum broker request handlers running at once.",
            Variable::BrokerOwnedBind => "Escape hatch: set falsy to fall back to spawn-then-probe.",
            Variable::BrokerV1BackendNamespace => "Backend namespace handed to a v1 broker backend.",
            Variable::BrokerV1BackendPipe => "Endpoint a v1 broker backend should serve on.",
            Variable::BrokerV1Instance => "Instance identifier for a v1 broker backend.",
            Variable::BrokerV1ServiceName => "Service name a v1 broker backend registers under.",
            Variable::BrokerV1ServiceVersion => "Service version a v1 broker backend reports.",
            Variable::BrokerV1SessionToken => "Session token a v1 broker backend presents to the broker.",
            Variable::BrokerV1Socket => "Broker endpoint a v1 backend dials.",
            Variable::BrokerV1Traceparent => "W3C traceparent propagated into a v1 broker backend.",
            Variable::BrokerV1Tracestate => "W3C tracestate propagated into a v1 broker backend.",
            Variable::ChildPidLogPath => "Append each spawned child PID to this file (test harness seam).",
            Variable::ClientConnectTimeoutMs => "Daemon client connect timeout, in milliseconds.",
            Variable::ClientRpcTimeoutMs => "Daemon client RPC timeout, in milliseconds.",
            Variable::DaemonScope => "Daemon scope selector; `dev` gives a CWD-scoped daemon for tests.",
            Variable::DaemonShadowed => "Marks a daemon already running from its shadow copy.",
            Variable::Disable => "Canonical escape hatch: bypass the broker entirely.",
            Variable::FakeBackend => "TEST-ONLY: dial this endpoint directly, skipping broker negotiation.",
            Variable::IsDaemon => "Marks a process spawned as a daemon, for originator reaping.",
            Variable::KillDrainTimeoutMs => "How long `kill()` waits for output capture to drain, in milliseconds.",
            Variable::ManifestDir => "Where broker cache manifests are read and written.",
            Variable::NoTracking => "Disable daemon IPC and process tracking.",
            Variable::Originator => "Identifies the process that originated a spawn tree.",
            Variable::ServiceDefDir => "Where service definitions are read from.",
        }
    }

    /// Whether a kind is the one of this variable.
    pub open spec fn has_kind(self, kind: EnvKind) -> bool {
        match self {
            Variable::BrokerAllowPrivileged => kind matches EnvKind::ExactValue(v) && v@ == "1"@,
            Variable::BrokerClientTimeoutMs => kind == EnvKind::Number,
            Variable::BrokerCrashDumpDir => kind == EnvKind::Path,
            Variable::BrokerHelloPerfGuard => kind == EnvKind::OwnedFlag,
            Variable::BrokerHelloTimeoutMs => kind == EnvKind::Number,
            Variable::BrokerHttpBind => kind == EnvKind::Text,
            Variable::BrokerHttpPort => kind == EnvKind::Number,
            Variable::BrokerListenerFd => kind == EnvKind::Number,
            Variable::BrokerMaxInflightHandlers => kind == EnvKind::Number,
            Variable::BrokerOwnedBind => kind == EnvKind::OptOutFlag,
            Variable::BrokerV1BackendNamespace => kind == EnvKind::Text,
            Variable::BrokerV1BackendPipe => kind == EnvKind::Text,
            Variable::BrokerV1Instance => kind == EnvKind::Text,
            Variable::BrokerV1ServiceName => kind == EnvKind::Text,
            Variable::BrokerV1ServiceVersion => kind == EnvKind::Text,
            Variable::BrokerV1SessionToken => kind == EnvKind::Text,
            Variable::BrokerV1Socket => kind == EnvKind::Text,
            Variable::BrokerV1Traceparent => kind == EnvKind::Text,
            Variable::BrokerV1Tracestate => kind == EnvKind::Text,
            Variable::ChildPidLogPath => kind == EnvKind::Path,
            Variable::ClientConnectTimeoutMs => kind == EnvKind::Number,
            Variable::ClientRpcTimeoutMs => kind == EnvKind::Number,
            Variable::DaemonScope => kind == EnvKind::Text,
            Variable::DaemonShadowed => kind == EnvKind::OwnedFlag,
            Variable::Disable => kind matches EnvKind::ExactValue(v) && v@ == "1"@,
            Variable::FakeBackend => kind == EnvKind::Path,
            Variable::IsDaemon => kind == EnvKind::ForeignFlag,
            Variable::KillDrainTimeoutMs => kind == EnvKind::Number,
            Variable::ManifestDir => kind == EnvKind::Path,
            Variable::NoTracking => kind == EnvKind::OwnedFlag,
            Variable::Originator => kind == EnvKind::Text,
            Variable::ServiceDefDir => kind == EnvKind::Path,
        }
    }

    /// Who owns the values.
    pub open spec fn spec_owner(self) -> Owner {
        match self {
            Variable::BrokerAllowPrivileged => Owner::Crate,
            Variable::BrokerClientTimeoutMs => Owner::Crate,
            Variable::BrokerCrashDumpDir => Owner::Crate,
            Variable::BrokerHelloPerfGuard => Owner::Crate,
            Variable::BrokerHelloTimeoutMs => Owner::Crate,
            Variable::BrokerHttpBind => Owner::Crate,
            Variable::BrokerHttpPort => Owner::Crate,
            Variable::BrokerListenerFd => Owner::Foreign,
            Variable::BrokerMaxInflightHandlers => Owner::Crate,
            Variable::BrokerOwnedBind => Owner::Crate,
            Variable::BrokerV1BackendNamespace => Owner::Foreign,
            Variable::BrokerV1BackendPipe => Owner::Foreign,
            Variable::BrokerV1Instance => Owner::Foreign,
            Variable::BrokerV1ServiceName => Owner::Foreign,
            Variable::BrokerV1ServiceVersion => Owner::Foreign,
            Variable::BrokerV1SessionToken => Owner::Foreign,
            Variable::BrokerV1Socket => Owner::Foreign,
            Variable::BrokerV1Traceparent => Owner::Foreign,
            Variable::BrokerV1Tracestate => Owner::Foreign,
            Variable::ChildPidLogPath => Owner::Foreign,
            Variable::ClientConnectTimeoutMs => Owner::Crate,
            Variable::ClientRpcTimeoutMs => Owner::Crate,
            Variable::DaemonScope => Owner::Crate,
            Variable::DaemonShadowed => Owner::Crate,
            Variable::Disable => Owner::Crate,
            Variable::FakeBackend => Owner::Foreign,
            Variable::IsDaemon => Owner::Crate,
            Variable::KillDrainTimeoutMs => Owner::Crate,
            Variable::ManifestDir => Owner::Foreign,
            Variable::NoTracking => Owner::Crate,
            Variable::Originator => Owner::Foreign,
            Variable::ServiceDefDir => Owner::Foreign,
        }
    }

    /// What the value means and how it is read.
    pub fn kind(self) -> (k: EnvKind)
        ensures
            self.has_kind(k),
    {
        match self {
            Variable::BrokerAllowPrivileged => EnvKind::ExactValue("1"),
            Variable::BrokerClientTimeoutMs => EnvKind::Number,
            Variable::BrokerCrashDumpDir => EnvKind::Path,
            Variable::BrokerHelloPerfGuard => EnvKind::OwnedFlag,
            Variable::BrokerHelloTimeoutMs => EnvKind::Number,
            Variable::BrokerHttpBind => EnvKind::Text,
            Variable::BrokerHttpPort => EnvKind::Number,
            Variable::BrokerListenerFd => EnvKind::Number,
            Variable::BrokerMaxInflightHandlers => EnvKind::Number,
            Variable::BrokerOwnedBind => EnvKind::OptOutFlag,
            Variable::BrokerV1BackendNamespace => EnvKind::Text,
            Variable::BrokerV1BackendPipe => EnvKind::Text,
            Variable::BrokerV1Instance => EnvKind::Text,
            Variable::BrokerV1ServiceName => EnvKind::Text,
            Variable::BrokerV1ServiceVersion => EnvKind::Text,
            Variable::BrokerV1SessionToken => EnvKind::Text,
            Variable::BrokerV1Socket => EnvKind::Text,
            Variable::BrokerV1Traceparent => EnvKind::Text,
            Variable::BrokerV1Tracestate => EnvKind::Text,
            Variable::ChildPidLogPath => EnvKind::Path,
            Variable::ClientConnectTimeoutMs => EnvKind::Number,
            Variable::ClientRpcTimeoutMs => EnvKind::Number,
            Variable::DaemonScope => EnvKind::Text,
            Variable::DaemonShadowed => EnvKind::OwnedFlag,
            Variable::Disable => EnvKind::ExactValue("1"),
            Variable::FakeBackend => EnvKind::Path,
            Variable::IsDaemon => EnvKind::ForeignFlag,
            Variable::KillDrainTimeoutMs => EnvKind::Number,
            Variable::ManifestDir => EnvKind::Path,
            Variable::NoTracking => EnvKind::OwnedFlag,
            Variable::Originator => EnvKind::Text,
            Variable::ServiceDefDir => EnvKind::Path,
        }
    }

    /// Who owns the values.
    pub fn owner(self) -> (o: Owner)
        ensures
            o == self.spec_owner(),
    {
        match self {
            Variable::BrokerAllowPrivileged => Owner::Crate,
            Variable::BrokerClientTimeoutMs => Owner::Crate,
            Variable::BrokerCrashDumpDir => Owner::Crate,
            Variable::BrokerHelloPerfGuard => Owner::Crate,
            Variable::BrokerHelloTimeoutMs => Owner::Crate,
            Variable::BrokerHttpBind => Owner::Crate,
            Variable::BrokerHttpPort => Owner::Crate,
            Variable::BrokerListenerFd => Owner::Foreign,
            Variable::BrokerMaxInflightHandlers => Owner::Crate,
            Variable::BrokerOwnedBind => Owner::Crate,
            Variable::BrokerV1BackendNamespace => Owner::Foreign,
            Variable::BrokerV1BackendPipe => Owner::Foreign,
            Variable::BrokerV1Instance => Owner::Foreign,
            Variable::BrokerV1ServiceName => Owner::Foreign,
            Variable::BrokerV1ServiceVersion => Owner::Foreign,
            Variable::BrokerV1SessionToken => Owner::Foreign,
            Variable::BrokerV1Socket => Owner::Foreign,
            Variable::BrokerV1Traceparent => Owner::Foreign,
            Variable::BrokerV1Tracestate => Owner::Foreign,
            Variable::ChildPidLogPath => Owner::Foreign,
            Variable::ClientConnectTimeoutMs => Owner::Crate,
            Variable::ClientRpcTimeoutMs => Owner::Crate,
            Variable::DaemonScope => Owner::Crate,
            Variable::DaemonShadowed => Owner::Crate,
            Variable::Disable => Owner::Crate,
            Variable::FakeBackend => Owner::Foreign,
            Variable::IsDaemon => Owner::Crate,
            Variable::KillDrainTimeoutMs => Owner::Crate,
            Variable::ManifestDir => Owner::Foreign,
            Variable::NoTracking => Owner::Crate,
            Variable::Originator => Owner::Foreign,
            Variable::ServiceDefDir => Owner::Foreign,
        }
    }

    /// The declaration of this variable.
    pub fn declaration(self) -> (d: EnvVar)
        ensures
            d.name@ == self.spec_name(),
            self.has_kind(d.kind),
            d.owner == self.spec_owner(),
            d.default@ == self.spec_default(),
            d.summary@ == self.spec_summary(),
    {
        EnvVar {
            name: self.name(),
            kind: self.kind(),
            owner: self.owner(),
            default: self.default(),
            summary: self.summary(),
        }
    }
}

/// `1`, `true`, `yes` and `on` mean on; `0`, `false`, `no`, `off` and nothing at all
/// mean off, in any case of the letters and with any blanks around them. No value
/// means both.
pub proof fn law_recognised_spellings(value: Seq<char>)
    ensures
        ({
            let v = ascii_lowercase(trimmed(value));
            &&& affirmative(value) <==> v == "1"@ || v == "true"@ || v == "yes"@ || v == "on"@
            &&& negative(value) <==> v.len() == 0 || v == "0"@ || v == "false"@ || v == "no"@ || v
                == "off"@
        }),
        !(affirmative(value) && negative(value)),
{
    reveal_strlit("");
    reveal_strlit("1");
    reveal_strlit("true");
    reveal_strlit("yes");
    reveal_strlit("on");
    reveal_strlit("0");
    reveal_strlit("false");
    reveal_strlit("no");
    reveal_strlit("off");
    let v = ascii_lowercase(trimmed(value));
    if v.len() == 0 {
        assert(v =~= ""@);
    }
    if v == "1"@ || v == "0"@ {
        assert("1"@[0] != "0"@[0]);
    }
    if v == "on"@ || v == "no"@ {
        assert("on"@[0] != "no"@[0]);
    }
    if v == "yes"@ || v == "off"@ {
        assert("yes"@[0] != "off"@[0]);
    }
}

/// A switch for one spelling is on for exactly that spelling, and what is no switch
/// is never on.
pub proof fn law_exact_spellings(expected: &'static str, value: Seq<char>)
    ensures
        switched_on(EnvKind::ExactValue(expected), Some(value)) <==> value == expected@,
        !switched_on(EnvKind::Path, Some(value)),
        !switched_on(EnvKind::Text, Some(value)),
        !switched_on(EnvKind::Number, Some(value)),
{
}

} // verus!
