//! The worker that keeps this process enrolled: register, beat, and on any failure
//! wait a little longer and begin again.

use crate::errors::{ErrorKind, IoFailure};
use crate::probe::client::{ClientError, ProcessKey};
use crate::probe::{fill_random, zeros, Config, Runtime};
use vstd::prelude::*;
use vstd::string::*;

verus! {

/// First delay before another attempt, in milliseconds.
pub const BACKOFF_START: u64 = 100;

/// Longest delay before another attempt, in milliseconds.
pub const BACKOFF_CAP: u64 = 5000;

/// Bound on each attempt and each request, in milliseconds.
pub const IO_DEADLINE: u64 = 500;

/// How long the worker waits at most without looking for a stop, in milliseconds.
pub const STOP_POLL: u64 = 50;

/// Number of bytes of a registration's nonce.
pub const NONCE_BYTES: usize = 32;

/// What this process declares.
#[derive(Clone, Debug, PartialEq, Eq)]
pub struct RegisterProcess {
    /// Its identity.
    pub key: Option<ProcessKey>,
    /// Path of its executable.
    pub exe_path: String,
    /// Class of the application.
    pub app_class: String,
    /// Name of the application.
    pub app_name: String,
    /// Version of the application.
    pub app_version: String,
    /// Name of this instance.
    pub instance_name: String,
    /// Architecture.
    pub arch: String,
    /// Operating system.
    pub os: String,
    /// Runtime.
    pub runtime: Runtime,
    /// Random bytes that tell this registration from others.
    pub registration_nonce: Vec<u8>,
}

/// What the host says of this process.
#[derive(Debug, PartialEq, Eq)]
pub struct ProcessFacts {
    /// Path of its executable.
    pub exe_path: String,
    /// Its number.
    pub pid: u32,
    /// Milliseconds since the Unix epoch; zero before it.
    pub now_unix_ms: u64,
    /// The boot of the host.
    pub boot_id: String,
    /// Architecture.
    pub arch: String,
    /// Operating system.
    pub os: String,
}

/// Whether a request declares a process.
pub open spec fn declares(
    config: Config,
    facts: ProcessFacts,
    nonce: Seq<u8>,
    request: RegisterProcess,
) -> bool {
    &&& request.key matches Some(key) && key.pid == facts.pid && key.start_time == Some(
        facts.now_unix_ms,
    ) && key.boot_id == Some(facts.boot_id)
    &&& request.exe_path == facts.exe_path
    &&& request.app_class@ == config.app_class@
    &&& request.app_name@ == config.app_name@
    &&& request.app_version@ == config.app_version@
    &&& request.instance_name@ == (match config.instance {
        Some(name) => name@,
        None => Seq::empty(),
    })
    &&& request.arch == facts.arch
    &&& request.os == facts.os
    &&& request.runtime == config.runtime
    &&& request.registration_nonce@ == nonce
}

/// The declaration of a process with a nonce.
pub fn declare(config: &Config, facts: ProcessFacts, nonce: Vec<u8>) -> (request: RegisterProcess)
    ensures
        declares(*config, facts, nonce@, request),
{
    let instance_name = match &config.instance {
        Some(name) => name.as_str().to_owned(),
        None => {
            let none = String::new();
            assert(none@ =~= Seq::empty());
            none
        },
    };
    RegisterProcess {
        key: Some(
            ProcessKey {
                pid: facts.pid as u64,
                start_time: Some(facts.now_unix_ms),
                boot_id: Some(facts.boot_id),
            },
        ),
        exe_path: facts.exe_path,
        app_class: config.app_class.as_str().to_owned(),
        app_name: config.app_name.as_str().to_owned(),
        app_version: config.app_version.as_str().to_owned(),
        instance_name,
        arch: facts.arch,
        os: facts.os,
        runtime: config.runtime,
        registration_nonce: nonce,
    }
}

/// The declaration of this process, with a random nonce. It fails where the host
/// has no random bytes; which bytes it gives is left open.
pub fn build_register_request(config: &Config, facts: ProcessFacts) -> (r: Result<
    RegisterProcess,
    IoFailure,
>)
    ensures
        match r {
            Ok(request) => request.registration_nonce@.len() == NONCE_BYTES && declares(
                *config,
                facts,
                request.registration_nonce@,
                request,
            ),
            Err(failure) => {
                &&& failure.kind == ErrorKind::Other
                &&& failure.raw_os_error is None
                &&& exists|detail: Seq<char>| failure.text@ == #[trigger] ("getrandom: "@ + detail)
            },
        },
{
    let mut nonce = zeros(NONCE_BYTES);
    match fill_random(&mut nonce) {
        Ok(()) => Ok(declare(config, facts, nonce)),
        Err(detail) => {
            let mut text: String = "getrandom: ".to_owned();
            text.append(detail.as_str());
            Err(IoFailure { kind: ErrorKind::Other, raw_os_error: None, text })
        },
    }
}

/// Where to reach the daemon: where the configuration says. Without a word from it
/// no daemon is there yet.
pub fn resolve_socket_path(config: &Config) -> (r: Result<String, ClientError>)
    ensures
        match config.socket_override {
            Some(path) => r matches Ok(s) && s@ == path@,
            None => {
                &&& r is Err
                &&& r->Err_0 is Unreachable
                &&& r->Err_0->Unreachable_0.kind == ErrorKind::NotFound
                &&& r->Err_0->Unreachable_0.raw_os_error is None
                &&& r->Err_0->Unreachable_0.text@
                    == "no probe daemon discovery file; set Config::socket_override or start rpprobed"@
            },
        },
{
    match &config.socket_override {
        Some(path) => Ok(path.as_str().to_owned()),
        None => Err(
            ClientError::Unreachable(
                IoFailure {
                    kind: ErrorKind::NotFound,
                    raw_os_error: None,
                    text: "no probe daemon discovery file; set Config::socket_override or start rpprobed".to_owned(),
                },
            ),
        ),
    }
}

/// The delay after a delay.
pub open spec fn longer(delay: int) -> int {
    if delay * 2 < BACKOFF_CAP {
        delay * 2
    } else {
        BACKOFF_CAP as int
    }
}

/// The delay after a delay: twice as long, up to the longest.
pub fn next_backoff(delay: u64) -> (d: u64)
    ensures
        d == longer(delay as int),
{
    if delay > BACKOFF_CAP / 2 {
        BACKOFF_CAP
    } else {
        let twice: u64 = delay * 2;
        if twice < BACKOFF_CAP {
            twice
        } else {
            BACKOFF_CAP
        }
    }
}

/// How much longer to sleep before the next look for a stop.
pub fn sleep_interruptible(slept: u64, total: u64, stop: bool) -> (step: Option<u64>)
    ensures
        match step {
            Some(ms) => slept < total && !stop && ms == (if total - slept < STOP_POLL {
                total - slept
            } else {
                STOP_POLL as int
            }),
            None => slept >= total || stop,
        },
{
    if slept >= total || stop {
        None
    } else if total - slept < STOP_POLL {
        Some(total - slept)
    } else {
        Some(STOP_POLL)
    }
}

/// What the worker waits for.
#[derive(Clone, Copy, Debug, PartialEq, Eq, Structural)]
pub enum WorkerStage {
    /// An attempt to connect and register.
    Connecting,
    /// The end of the delay after a failed attempt.
    Waiting,
    /// The end of the interval between heartbeats.
    Resting,
    /// The reply to a heartbeat.
    Beating,
    /// The reply to the farewell.
    Leaving,
    /// Nothing.
    Over,
}

/// The worker.
#[derive(Debug)]
pub struct Worker {
    stage: WorkerStage,
    backoff: u64,
    key: Option<ProcessKey>,
}

/// The worker as plain values.
pub struct WorkerModel {
    /// What it waits for.
    pub stage: WorkerStage,
    /// Delay after the next failure, in milliseconds.
    pub backoff: int,
    /// The identity that is enrolled.
    pub key: Option<ProcessKey>,
}

impl View for Worker {
    type V = WorkerModel;

    closed spec fn view(&self) -> WorkerModel {
        WorkerModel { stage: self.stage, backoff: self.backoff as int, key: self.key }
    }
}

/// What happened to the worker.
#[derive(Debug)]
pub enum WorkerEvent {
    /// The daemon enrolled this process.
    Registered(ProcessKey),
    /// There was no daemon, or it refused.
    Refused,
    /// The sleep ended, and whether a stop was asked for.
    Woke {
        /// Whether it was.
        stop: bool,
    },
    /// The heartbeat was answered, or not, and whether a stop was asked for.
    Beat {
        /// Whether it was answered.
        alive: bool,
        /// Whether a stop was asked for.
        stop: bool,
    },
    /// The farewell is done.
    Left,
}

/// What the worker does next.
#[derive(Clone, Copy, Debug, PartialEq, Eq, Structural)]
pub enum WorkerAction {
    /// Connect and register.
    Connect,
    /// Sleep for the delay, in milliseconds.
    Wait(u64),
    /// Sleep for the interval between heartbeats.
    Rest,
    /// Send a heartbeat.
    Beat,
    /// Say farewell.
    Unregister,
    /// End.
    Done,
    /// Nothing: the event does not belong here.
    Ignore,
}

/// The worker after an event.
pub open spec fn worker_after(m: WorkerModel, event: WorkerEvent) -> WorkerModel {
    match (m.stage, event) {
        (WorkerStage::Connecting, WorkerEvent::Registered(key)) => WorkerModel {
            stage: WorkerStage::Resting,
            backoff: BACKOFF_START as int,
            key: Some(key),
        },
        (WorkerStage::Connecting, WorkerEvent::Refused) => WorkerModel {
            stage: WorkerStage::Waiting,
            backoff: longer(m.backoff),
            key: None,
        },
        (WorkerStage::Waiting, WorkerEvent::Woke { stop }) => WorkerModel {
            stage: if stop {
                WorkerStage::Over
            } else {
                WorkerStage::Connecting
            },
            ..m
        },
        (WorkerStage::Resting, WorkerEvent::Woke { stop }) => if stop {
            WorkerModel { stage: WorkerStage::Leaving, key: None, ..m }
        } else {
            WorkerModel { stage: WorkerStage::Beating, ..m }
        },
        (WorkerStage::Beating, WorkerEvent::Beat { alive, stop }) => if alive {
            WorkerModel { stage: WorkerStage::Resting, ..m }
        } else if stop {
            WorkerModel { stage: WorkerStage::Leaving, key: None, ..m }
        } else {
            WorkerModel { stage: WorkerStage::Connecting, key: None, ..m }
        },
        (WorkerStage::Leaving, WorkerEvent::Left) => WorkerModel { stage: WorkerStage::Over, ..m },
        _ => m,
    }
}

/// What the worker does after an event.
pub open spec fn worker_action(m: WorkerModel, event: WorkerEvent) -> WorkerAction {
    match (m.stage, event) {
        (WorkerStage::Connecting, WorkerEvent::Registered(_)) => WorkerAction::Rest,
        (WorkerStage::Connecting, WorkerEvent::Refused) => WorkerAction::Wait(m.backoff as u64),
        (WorkerStage::Waiting, WorkerEvent::Woke { stop }) => if stop {
            WorkerAction::Done
        } else {
            WorkerAction::Connect
        },
        (WorkerStage::Resting, WorkerEvent::Woke { stop }) => if stop {
            WorkerAction::Unregister
        } else {
            WorkerAction::Beat
        },
        (WorkerStage::Beating, WorkerEvent::Beat { alive, stop }) => if alive {
            WorkerAction::Rest
        } else if stop {
            WorkerAction::Unregister
        } else {
            WorkerAction::Connect
        },
        (WorkerStage::Leaving, WorkerEvent::Left) => WorkerAction::Done,
        _ => WorkerAction::Ignore,
    }
}

impl Worker {
    /// A worker that begins, and what it does first.
    pub fn run(stop: bool) -> (r: (Worker, WorkerAction))
        ensures
            r.0@ == (WorkerModel {
                stage: if stop {
                    WorkerStage::Over
                } else {
                    WorkerStage::Connecting
                },
                backoff: BACKOFF_START as int,
                key: None,
            }),
            r.1 == (if stop {
                WorkerAction::Done
            } else {
                WorkerAction::Connect
            }),
    {
        if stop {
            (
                Worker { stage: WorkerStage::Over, backoff: BACKOFF_START, key: None },
                WorkerAction::Done,
            )
        } else {
            (
                Worker { stage: WorkerStage::Connecting, backoff: BACKOFF_START, key: None },
                WorkerAction::Connect,
            )
        }
    }

    /// The identity that is enrolled.
    pub fn key(&self) -> (k: Option<&ProcessKey>)
        ensures
            match k {
                Some(key) => self@.key == Some(*key),
                None => self@.key is None,
            },
    {
        match &self.key {
            Some(key) => Some(key),
            None => None,
        }
    }

    /// What the worker waits for.
    pub fn stage(&self) -> (s: WorkerStage)
        ensures
            s == self@.stage,
    {
        self.stage
    }

    /// Takes the worker one step further.
    pub fn step(&mut self, event: WorkerEvent) -> (action: WorkerAction)
        ensures
            final(self)@ == worker_after(old(self)@, event),
            action == worker_action(old(self)@, event),
    {
        match (self.stage, event) {
            (WorkerStage::Connecting, WorkerEvent::Registered(key)) => {
                self.backoff = BACKOFF_START;
                self.key = Some(key);
                self.stage = WorkerStage::Resting;
                WorkerAction::Rest
            },
            (WorkerStage::Connecting, WorkerEvent::Refused) => {
                let delay = self.backoff;
                self.backoff = next_backoff(delay);
                self.key = None;
                self.stage = WorkerStage::Waiting;
                WorkerAction::Wait(delay)
            },
            (WorkerStage::Waiting, WorkerEvent::Woke { stop }) => if stop {
                self.stage = WorkerStage::Over;
                WorkerAction::Done
            } else {
                self.stage = WorkerStage::Connecting;
                WorkerAction::Connect
            },
            (WorkerStage::Resting, WorkerEvent::Woke { stop }) => if stop {
                self.key = None;
                self.stage = WorkerStage::Leaving;
                WorkerAction::Unregister
            } else {
                self.stage = WorkerStage::Beating;
                WorkerAction::Beat
            },
            (WorkerStage::Beating, WorkerEvent::Beat { alive, stop }) => if alive {
                self.stage = WorkerStage::Resting;
                WorkerAction::Rest
            } else if stop {
                self.key = None;
                self.stage = WorkerStage::Leaving;
                WorkerAction::Unregister
            } else {
                self.key = None;
                self.stage = WorkerStage::Connecting;
                WorkerAction::Connect
            },
            (WorkerStage::Leaving, WorkerEvent::Left) => {
                self.stage = WorkerStage::Over;
                WorkerAction::Done
            },
            _ => WorkerAction::Ignore,
        }
    }
}

/// A worker before it has seen anything.
pub open spec fn fresh_worker() -> WorkerModel {
    WorkerModel { stage: WorkerStage::Connecting, backoff: BACKOFF_START as int, key: None }
}

/// The worker after a list of events.
pub open spec fn worker_after_all(m: WorkerModel, events: Seq<WorkerEvent>) -> WorkerModel
    decreases events.len(),
{
    if events.len() == 0 {
        m
    } else {
        worker_after(worker_after_all(m, events.drop_last()), events.last())
    }
}

/// Whatever happens, the delay stays between the first and the longest, and an
/// identity is shown exactly while this process is enrolled.
pub proof fn law_worker_stays_sound(events: Seq<WorkerEvent>)
    ensures
        BACKOFF_START <= worker_after_all(fresh_worker(), events).backoff <= BACKOFF_CAP,
        worker_after_all(fresh_worker(), events).key is Some <==> (worker_after_all(
            fresh_worker(),
            events,
        ).stage is Resting || worker_after_all(fresh_worker(), events).stage is Beating),
    decreases events.len(),
{
    if events.len() > 0 {
        law_worker_stays_sound(events.drop_last());
    }
}

/// The delay after a number of failures in a row.
pub open spec fn backoff_after(failures: nat) -> int
    decreases failures,
{
    if failures == 0 {
        BACKOFF_START as int
    } else {
        longer(backoff_after((failures - 1) as nat))
    }
}

/// Delays double and then stay at the longest: after six failures, and ever after.
pub proof fn law_backoff_saturates(failures: nat)
    ensures
        failures >= 6 ==> backoff_after(failures) == BACKOFF_CAP,
        BACKOFF_START <= backoff_after(failures) <= BACKOFF_CAP,
    decreases failures,
{
    reveal_with_fuel(backoff_after, 7);
    if failures > 0 {
        law_backoff_saturates((failures - 1) as nat);
    }
}

/// Time that a sleep takes in all.
pub open spec fn slept_in_all(slept: int, total: int) -> int
    decreases total - slept,
{
    if slept >= total {
        slept
    } else if total - slept < STOP_POLL {
        total
    } else {
        slept_in_all(slept + STOP_POLL, total)
    }
}

/// A sleep that nobody interrupts lasts as long as it should, and not longer.
pub proof fn law_sleep_lasts(slept: int, total: int)
    requires
        0 <= slept <= total,
    ensures
        slept_in_all(slept, total) == total,
    decreases total - slept,
{
    if slept < total && total - slept >= STOP_POLL {
        law_sleep_lasts(slept + STOP_POLL, total);
    }
}

/// A worker that the daemon enrolled rests until the next heartbeat, shows the
/// identity that the daemon gave it, and begins anew with short delays. One that
/// was refused sleeps for the delay that it had, shows no identity, and will sleep
/// twice as long the next time, up to five seconds.
pub proof fn law_attempts_end_in_rest_or_delay(m: WorkerModel, key: ProcessKey)
    requires
        m.stage is Connecting,
        0 <= m.backoff <= 5000,
    ensures
        worker_action(m, WorkerEvent::Registered(key)) is Rest,
        worker_after(m, WorkerEvent::Registered(key)).stage is Resting,
        worker_after(m, WorkerEvent::Registered(key)).key == Some(key),
        worker_after(m, WorkerEvent::Registered(key)).backoff == 100,
        worker_action(m, WorkerEvent::Refused) matches WorkerAction::Wait(ms) && ms == m.backoff,
        worker_after(m, WorkerEvent::Refused).stage is Waiting,
        worker_after(m, WorkerEvent::Refused).key is None,
        worker_after(m, WorkerEvent::Refused).backoff == 5000 || worker_after(
            m,
            WorkerEvent::Refused,
        ).backoff == m.backoff + m.backoff,
        worker_after(m, WorkerEvent::Refused).backoff <= 5000,
        worker_after(m, WorkerEvent::Refused).backoff >= m.backoff,
        m.backoff < 2500 ==> worker_after(m, WorkerEvent::Refused).backoff < 5000,
{
}

/// A heartbeat follows each rest, and a rest each heartbeat that is answered, for
/// the same identity. A heartbeat that is not answered leads to another attempt,
/// and until that succeeds no identity is shown.
pub proof fn law_heartbeats_go_on(m: WorkerModel, stop: bool)
    ensures
        m.stage is Resting ==> {
            &&& worker_action(m, WorkerEvent::Woke { stop: false }) is Beat
            &&& worker_after(m, WorkerEvent::Woke { stop: false }).stage is Beating
            &&& worker_after(m, WorkerEvent::Woke { stop: false }).key == m.key
        },
        m.stage is Beating ==> {
            &&& worker_action(m, WorkerEvent::Beat { alive: true, stop }) is Rest
            &&& worker_after(m, WorkerEvent::Beat { alive: true, stop }).stage is Resting
            &&& worker_after(m, WorkerEvent::Beat { alive: true, stop }).key == m.key
            &&& worker_action(m, WorkerEvent::Beat { alive: false, stop: false }) is Connect
            &&& worker_after(m, WorkerEvent::Beat { alive: false, stop: false }).stage is Connecting
            &&& worker_after(m, WorkerEvent::Beat { alive: false, stop: false }).key is None
        },
        m.stage is Waiting ==> {
            &&& worker_action(m, WorkerEvent::Woke { stop: false }) is Connect
            &&& worker_after(m, WorkerEvent::Woke { stop: false }).stage is Connecting
        },
        m.stage is Resting || m.stage is Beating || m.stage is Waiting ==> worker_after(
            m,
            WorkerEvent::Woke { stop },
        ).backoff == m.backoff && worker_after(
            m,
            WorkerEvent::Beat { alive: stop, stop: !stop },
        ).backoff == m.backoff,
{
}

/// A worker that is asked to stop ends: at once while it is not enrolled, and
/// after a farewell while it may be. Nothing else ends it, and it says farewell
/// only when it is asked to stop.
pub proof fn law_workers_stop_when_asked(m: WorkerModel, event: WorkerEvent)
    ensures
        m.stage is Waiting ==> worker_action(m, WorkerEvent::Woke { stop: true }) is Done,
        m.stage is Waiting ==> worker_after(m, WorkerEvent::Woke { stop: true }).stage is Over,
        m.stage is Resting ==> worker_action(m, WorkerEvent::Woke { stop: true }) is Unregister,
        m.stage is Resting ==> worker_after(m, WorkerEvent::Woke { stop: true }).stage is Leaving,
        m.stage is Beating ==> worker_action(
            m,
            WorkerEvent::Beat { alive: false, stop: true },
        ) is Unregister,
        m.stage is Beating ==> worker_after(
            m,
            WorkerEvent::Beat { alive: false, stop: true },
        ).stage is Leaving,
        m.stage is Leaving ==> worker_action(m, WorkerEvent::Left) is Done,
        m.stage is Leaving ==> worker_after(m, WorkerEvent::Left).stage is Over,
        worker_action(m, event) is Done ==> (m.stage is Leaving && event is Left) || (
        m.stage is Waiting && event matches WorkerEvent::Woke { stop: true }),
        worker_action(m, event) is Unregister ==> (event matches WorkerEvent::Woke { stop: true })
            || (event matches WorkerEvent::Beat { alive: false, stop: true }),
        m.stage is Over ==> worker_after(m, event) == m && worker_action(m, event) is Ignore,
        worker_action(m, event) is Ignore ==> worker_after(m, event) == m,
{
}

/// The delays before the second attempt and those after it: a tenth of a second,
/// then twice as long each time, and from the seventh on five seconds.
pub proof fn law_delays_double(delay: int)
    requires
        0 < delay,
    ensures
        delay < 2500 ==> longer(delay) == 2 * delay,
        delay >= 2500 ==> longer(delay) == 5000,
        backoff_after(0) == 100,
        fresh_worker().backoff == 100,
        fresh_worker().stage is Connecting,
        fresh_worker().key is None,
{
}

/// A declaration carries what was configured and what the host says: the number
/// and the boot of the process, the time of the declaration, and the names that
/// the application chose. Declarations of different processes differ.
pub proof fn law_declarations_tell_processes_apart(
    config: Config,
    facts: ProcessFacts,
    nonce: Seq<u8>,
    request: RegisterProcess,
)
    requires
        declares(config, facts, nonce, request),
    ensures
        request.key matches Some(key) && key.pid == facts.pid && key.start_time == Some(
            facts.now_unix_ms,
        ) && key.boot_id == Some(facts.boot_id),
        request.exe_path@ == facts.exe_path@,
        request.app_class@ == config.app_class@,
        request.app_name@ == config.app_name@,
        request.app_version@ == config.app_version@,
        config.instance matches Some(name) ==> request.instance_name@ == name@,
        config.instance is None ==> request.instance_name@.len() == 0,
        request.arch@ == facts.arch@,
        request.os@ == facts.os@,
        request.runtime == config.runtime,
        request.registration_nonce@ == nonce,
{
}

/// The most and the longest of a worker: half a second for each request, a twentieth
/// between two looks for a stop, and 32 random bytes in a registration.
pub proof fn law_worker_limits()
    ensures
        IO_DEADLINE == 500,
        STOP_POLL == 50,
        NONCE_BYTES == 32,
        BACKOFF_START == 100,
        BACKOFF_CAP == 5000,
{
}

} // verus!
