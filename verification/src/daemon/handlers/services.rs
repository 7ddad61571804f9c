//! Requests about supervised services.

use crate::daemon::handlers::{error_response, ok_response, DaemonResponse, Payload};
use crate::daemon::protocol::StatusCode;
use crate::keyed::{contents, distinct_keys, lemma_contents_push, lemma_contents_update};
use crate::text::same_text;
use vstd::prelude::*;
use vstd::string::*;

verus! {

/// A service as a client describes it. Each variable occurs once in its
/// environment.
#[derive(Clone, Debug, PartialEq, Eq)]
pub struct ServiceConfig {
    /// Name.
    pub name: String,
    /// Command line.
    pub cmd: Vec<String>,
    /// Working directory.
    pub cwd: String,
    /// Environment.
    pub env: Vec<(String, String)>,
    /// Whether it is restarted when it exits.
    pub autorestart: bool,
    /// How often at most.
    pub max_restarts: u32,
    /// Milliseconds before a restart.
    pub restart_delay_ms: u64,
    /// Milliseconds before a stopped service is killed.
    pub kill_timeout_ms: u64,
    /// Milliseconds that a run must last to count as one.
    pub min_uptime_ms: u64,
}

/// A service as the registry defines it.
#[derive(Clone, Debug, PartialEq, Eq)]
pub struct ServiceDef {
    /// Name.
    pub name: String,
    /// Command line.
    pub cmd: Vec<String>,
    /// Working directory.
    pub cwd: String,
    /// Environment, in order.
    pub env: Vec<(String, String)>,
    /// Whether it is restarted when it exits.
    pub autorestart: bool,
    /// How often at most.
    pub max_restarts: u32,
    /// Milliseconds before a restart.
    pub restart_delay_ms: u64,
    /// Milliseconds before a stopped service is killed.
    pub kill_timeout_ms: u64,
    /// Milliseconds that a run must last to count as one.
    pub min_uptime_ms: u64,
}

/// A service in the registry.
#[derive(Clone, Debug, PartialEq, Eq)]
pub struct ServiceRecord {
    /// Its definition.
    pub def: ServiceDef,
    /// Its number.
    pub id: u32,
    /// Name of its status.
    pub status: String,
    /// Its process.
    pub pid: u32,
    /// How often it was restarted.
    pub restart_count: u32,
    /// When it last started, in milliseconds since the Unix epoch.
    pub last_started_at: u64,
    /// When it last exited, in milliseconds since the Unix epoch.
    pub last_exited_at: u64,
    /// Its last exit code.
    pub last_exit_code: i32,
}

/// A service as a client sees it.
#[derive(Clone, Debug, PartialEq, Eq)]
pub struct ServiceState {
    /// Name.
    pub name: String,
    /// Its number.
    pub id: u32,
    /// Name of its status.
    pub status: String,
    /// Its process.
    pub pid: u32,
    /// How often it was restarted.
    pub restart_count: u32,
    /// When it last started, in milliseconds since the Unix epoch.
    pub last_started_at: u64,
    /// When it last exited, in milliseconds since the Unix epoch.
    pub last_exited_at: u64,
    /// Its last exit code.
    pub last_exit_code: i32,
    /// How it is configured.
    pub config: ServiceConfig,
}

/// Why the registry refused.
#[derive(Clone, Debug, PartialEq, Eq)]
pub enum ServiceError {
    /// No such service.
    NotFound(String),
    /// There is one already.
    AlreadyExists(String),
    /// The request makes no sense.
    InvalidConfig(String),
    /// The service could not be spawned.
    Spawn(String),
    /// The database failed.
    Db(String),
}

/// An environment as plain values.
pub open spec fn variables(env: Seq<(String, String)>) -> Seq<(Seq<char>, Seq<char>)> {
    env.map_values(|e: (String, String)| (e.0@, e.1@))
}

/// What pairs say of each variable: the last word counts.
pub open spec fn last_words(pairs: Seq<(Seq<char>, Seq<char>)>) -> Map<Seq<char>, Seq<char>>
    decreases pairs.len(),
{
    if pairs.len() == 0 {
        Map::empty()
    } else {
        last_words(pairs.drop_last()).insert(pairs.last().0, pairs.last().1)
    }
}

/// Whether a definition and a configuration say the same, apart from the
/// environment.
pub open spec fn same_service(def: ServiceDef, config: ServiceConfig) -> bool {
    &&& def.name == config.name
    &&& def.cmd == config.cmd
    &&& def.cwd == config.cwd
    &&& def.autorestart == config.autorestart
    &&& def.max_restarts == config.max_restarts
    &&& def.restart_delay_ms == config.restart_delay_ms
    &&& def.kill_timeout_ms == config.kill_timeout_ms
    &&& def.min_uptime_ms == config.min_uptime_ms
}

/// The definition of a configured service.
pub fn def_from_config(config: ServiceConfig) -> (def: ServiceDef)
    ensures
        same_service(def, config),
        def.env == config.env,
{
    ServiceDef {
        name: config.name,
        cmd: config.cmd,
        cwd: config.cwd,
        env: config.env,
        autorestart: config.autorestart,
        max_restarts: config.max_restarts,
        restart_delay_ms: config.restart_delay_ms,
        kill_timeout_ms: config.kill_timeout_ms,
        min_uptime_ms: config.min_uptime_ms,
    }
}

fn set_variable(env: &mut Vec<(String, String)>, key: &str, value: &str)
    requires
        distinct_keys(variables(old(env)@)),
    ensures
        distinct_keys(variables(final(env)@)),
        contents(variables(final(env)@)) == contents(variables(old(env)@)).insert(key@, value@),
{
    let ghost before = variables(env@);
    let mut i: usize = 0;
    while i < env.len()
        invariant
            i <= env@.len(),
            env@ == old(env)@,
            before == variables(env@),
            distinct_keys(before),
            forall|j: int| 0 <= j < i ==> (#[trigger] before[j]).0 != key@,
        decreases env@.len() - i,
    {
        assert(before[i as int].0 == env@[i as int].0@);
        if same_text(env[i].0.as_str(), key) {
            proof {
                lemma_contents_update(before, i as int, value@);
            }
            env[i].1 = value.to_owned();
            assert(variables(env@) =~= before.update(i as int, (before[i as int].0, value@)));
            return;
        }
        i = i + 1;
    }
    proof {
        lemma_contents_push(before, key@, value@);
    }
    env.push((key.to_owned(), value.to_owned()));
    assert(variables(env@) =~= before.push((key@, value@)));
}

/// Whether an environment holds, of each variable, the last word of some pairs.
pub open spec fn holds_last_words(
    env: Seq<(String, String)>,
    pairs: Seq<(Seq<char>, Seq<char>)>,
) -> bool {
    distinct_keys(variables(env)) && contents(variables(env)) == last_words(pairs)
}

fn unique_variables(pairs: &Vec<(String, String)>) -> (env: Vec<(String, String)>)
    ensures
        holds_last_words(env@, variables(pairs@)),
{
    let mut env: Vec<(String, String)> = Vec::new();
    let ghost all = variables(pairs@);
    assert(variables(env@) =~= Seq::empty());
    assert(all.take(0) =~= Seq::empty());
    let mut i: usize = 0;
    while i < pairs.len()
        invariant
            i <= pairs@.len(),
            all == variables(pairs@),
            holds_last_words(env@, all.take(i as int)),
        decreases pairs@.len() - i,
    {
        assert(all.take(i + 1).drop_last() =~= all.take(i as int));
        assert(all.take(i + 1).last() == (pairs@[i as int].0@, pairs@[i as int].1@));
        set_variable(&mut env, pairs[i].0.as_str(), pairs[i].1.as_str());
        i = i + 1;
    }
    assert(all.take(i as int) =~= all);
    env
}

/// Whether a configuration shows a definition.
pub open spec fn shows_def(def: ServiceDef, config: ServiceConfig) -> bool {
    same_service(def, config) && holds_last_words(config.env@, variables(def.env@))
}

/// The configuration of a defined service: where a variable occurs twice, the
/// later entry counts.
pub fn config_from_def(def: ServiceDef) -> (config: ServiceConfig)
    ensures
        shows_def(def, config),
{
    let env = unique_variables(&def.env);
    ServiceConfig {
        name: def.name,
        cmd: def.cmd,
        cwd: def.cwd,
        env,
        autorestart: def.autorestart,
        max_restarts: def.max_restarts,
        restart_delay_ms: def.restart_delay_ms,
        kill_timeout_ms: def.kill_timeout_ms,
        min_uptime_ms: def.min_uptime_ms,
    }
}

/// Whether a state shows a record.
pub open spec fn shows_record(rec: ServiceRecord, state: ServiceState) -> bool {
    &&& state.name@ == rec.def.name@
    &&& state.id == rec.id
    &&& state.status == rec.status
    &&& state.pid == rec.pid
    &&& state.restart_count == rec.restart_count
    &&& state.last_started_at == rec.last_started_at
    &&& state.last_exited_at == rec.last_exited_at
    &&& state.last_exit_code == rec.last_exit_code
    &&& shows_def(rec.def, state.config)
}

/// The state of a service.
pub fn state_from_record(rec: ServiceRecord) -> (state: ServiceState)
    ensures
        shows_record(rec, state),
{
    ServiceState {
        name: rec.def.name.as_str().to_owned(),
        id: rec.id,
        status: rec.status,
        pid: rec.pid,
        restart_count: rec.restart_count,
        last_started_at: rec.last_started_at,
        last_exited_at: rec.last_exited_at,
        last_exit_code: rec.last_exit_code,
        config: config_from_def(rec.def),
    }
}

/// A configured service is shown as it was configured: nothing is lost on the way
/// into the registry and back.
pub proof fn law_configuration_survives(
    config: ServiceConfig,
    def: ServiceDef,
    shown: ServiceConfig,
)
    requires
        distinct_keys(variables(config.env@)),
        same_service(def, config),
        def.env == config.env,
        shows_def(def, shown),
    ensures
        same_service(def, shown),
        contents(variables(shown.env@)) == contents(variables(config.env@)),
{
    lemma_last_words(variables(config.env@));
}

proof fn lemma_last_words(pairs: Seq<(Seq<char>, Seq<char>)>)
    requires
        distinct_keys(pairs),
    ensures
        last_words(pairs) == contents(pairs),
    decreases pairs.len(),
{
    if pairs.len() > 0 {
        let front = pairs.drop_last();
        assert(distinct_keys(front)) by {
            assert forall|i: int, j: int| 0 <= i < j < front.len() implies (#[trigger] front[i]).0
                != (#[trigger] front[j]).0 by {
                assert(front[i] == pairs[i] && front[j] == pairs[j]);
            }
        }
        lemma_last_words(front);
        assert forall|j: int| 0 <= j < front.len() implies (#[trigger] front[j]).0
            != pairs.last().0 by {
            assert(front[j] == pairs[j]);
        }
        lemma_contents_push(front, pairs.last().0, pairs.last().1);
        assert(front.push((pairs.last().0, pairs.last().1)) =~= pairs);
    } else {
        assert(pairs =~= Seq::empty());
    }
}

/// The code for a refusal of the registry.
pub open spec fn code_of(error: ServiceError) -> StatusCode {
    match error {
        ServiceError::NotFound(_) => StatusCode::NotFound,
        ServiceError::AlreadyExists(_) | ServiceError::InvalidConfig(_) => StatusCode::InvalidArgument,
        ServiceError::Spawn(_) | ServiceError::Db(_) => StatusCode::Internal,
    }
}

/// The code for a refusal of the registry.
pub fn status_for(error: &ServiceError) -> (code: StatusCode)
    ensures
        code == code_of(*error),
{
    match error {
        ServiceError::NotFound(_) => StatusCode::NotFound,
        ServiceError::AlreadyExists(_) | ServiceError::InvalidConfig(_) => StatusCode::InvalidArgument,
        ServiceError::Spawn(_) | ServiceError::Db(_) => StatusCode::Internal,
    }
}

/// A refusal of the registry, with its text.
#[derive(Debug, PartialEq, Eq)]
pub struct Refusal {
    /// What it is.
    pub error: ServiceError,
    /// In words.
    pub text: String,
}

/// The answer that passes a refusal on.
pub fn err_response(request_id: u64, refusal: Refusal) -> (r: DaemonResponse)
    ensures
        r.refuses(request_id, code_of(refusal.error), refusal.text@),
{
    let code = status_for(&refusal.error);
    error_response(request_id, code, refusal.text)
}

/// The payload of a request to start a service.
#[derive(Debug, PartialEq, Eq)]
pub struct ServiceStartRequest {
    /// The service.
    pub config: Option<ServiceConfig>,
}

/// Whether an error says that a request makes no sense.
pub open spec fn is_invalid(error: ServiceError, detail: Seq<char>) -> bool {
    error matches ServiceError::InvalidConfig(text) && text@ == detail
}

/// Decides what is started: the definition, or why nothing is.
pub fn requested_service(payload: Option<ServiceStartRequest>) -> (r: Result<
    ServiceDef,
    ServiceError,
>)
    ensures
        match payload {
            None => r is Err && is_invalid(r->Err_0, "missing service_start payload"@),
            Some(request) => match request.config {
                None => r is Err && is_invalid(r->Err_0, "missing service config"@),
                Some(config) => r matches Ok(def) && same_service(def, config) && def.env
                    == config.env,
            },
        },
{
    match payload {
        None => Err(ServiceError::InvalidConfig("missing service_start payload".to_owned())),
        Some(request) => match request.config {
            None => Err(ServiceError::InvalidConfig("missing service config".to_owned())),
            Some(config) => Ok(def_from_config(config)),
        },
    }
}

/// The services that a request names: what it says, or nothing.
pub fn requested_target(payload: Option<String>) -> (target: String)
    ensures
        target@ == (match payload {
            Some(text) => text@,
            None => Seq::empty(),
        }),
{
    match payload {
        Some(text) => text,
        None => {
            let none = String::new();
            assert(none@ =~= Seq::empty());
            none
        },
    }
}

/// Answers a request to start a service, given what the registry made of it.
pub fn handle_service_start(request_id: u64, outcome: Result<ServiceRecord, Refusal>) -> (r:
    DaemonResponse)
    ensures
        match outcome {
            Ok(rec) => exists|state: ServiceState| #[trigger]
                shows_record(rec, state) && r.grants(request_id, Payload::ServiceStart(state)),
            Err(refusal) => r.refuses(request_id, code_of(refusal.error), refusal.text@),
        },
{
    match outcome {
        Ok(rec) => ok_response(request_id, Payload::ServiceStart(state_from_record(rec))),
        Err(refusal) => err_response(request_id, refusal),
    }
}

/// Answers a request to stop services, given what the registry made of it.
pub fn handle_service_stop(request_id: u64, outcome: Result<u32, Refusal>) -> (r: DaemonResponse)
    ensures
        match outcome {
            Ok(stopped_count) => r.grants(request_id, Payload::ServiceStop { stopped_count }),
            Err(refusal) => r.refuses(request_id, code_of(refusal.error), refusal.text@),
        },
{
    match outcome {
        Ok(stopped_count) => ok_response(request_id, Payload::ServiceStop { stopped_count }),
        Err(refusal) => err_response(request_id, refusal),
    }
}

/// Answers a request to restart services, given what the registry made of it.
pub fn handle_service_restart(request_id: u64, outcome: Result<u32, Refusal>) -> (r: DaemonResponse)
    ensures
        match outcome {
            Ok(restarted_count) => r.grants(
                request_id,
                Payload::ServiceRestart { restarted_count },
            ),
            Err(refusal) => r.refuses(request_id, code_of(refusal.error), refusal.text@),
        },
{
    match outcome {
        Ok(restarted_count) => ok_response(request_id, Payload::ServiceRestart { restarted_count }),
        Err(refusal) => err_response(request_id, refusal),
    }
}

/// Answers a request to delete services, given what the registry made of it.
pub fn handle_service_delete(request_id: u64, outcome: Result<u32, Refusal>) -> (r: DaemonResponse)
    ensures
        match outcome {
            Ok(deleted_count) => r.grants(request_id, Payload::ServiceDelete { deleted_count }),
            Err(refusal) => r.refuses(request_id, code_of(refusal.error), refusal.text@),
        },
{
    match outcome {
        Ok(deleted_count) => ok_response(request_id, Payload::ServiceDelete { deleted_count }),
        Err(refusal) => err_response(request_id, refusal),
    }
}

/// Whether states show records, one for one.
pub open spec fn show_records(records: Seq<ServiceRecord>, states: Seq<ServiceState>) -> bool {
    &&& states.len() == records.len()
    &&& forall|i: int|
        0 <= i < states.len() ==> shows_record(records[i], #[trigger] states[i])
}

/// Answers a request for all services, given what the registry holds.
pub fn handle_service_list(request_id: u64, outcome: Result<Vec<ServiceRecord>, Refusal>) -> (r:
    DaemonResponse)
    ensures
        match outcome {
            Ok(records) => exists|states: Vec<ServiceState>| #[trigger]
                show_records(records@, states@) && r.grants(
                    request_id,
                    Payload::ServiceList(states),
                ),
            Err(refusal) => r.refuses(request_id, code_of(refusal.error), refusal.text@),
        },
{
    match outcome {
        Ok(records) => {
            let ghost all = records@;
            let mut rest = records;
            let mut backwards: Vec<ServiceState> = Vec::new();
            while rest.len() > 0
                invariant
                    rest@.len() + backwards@.len() == all.len(),
                    rest@ == all.take(rest@.len() as int),
                    forall|i: int|
                        0 <= i < backwards@.len() ==> shows_record(
                            all[all.len() - 1 - i],
                            #[trigger] backwards@[i],
                        ),
                decreases rest@.len(),
            {
                let last = rest.pop();
                if let Some(rec) = last {
                    assert(rec == all[rest@.len() as int]);
                    backwards.push(state_from_record(rec));
                    assert(rest@ =~= all.take(rest@.len() as int));
                }
            }
            let mut states: Vec<ServiceState> = Vec::new();
            while backwards.len() > 0
                invariant
                    backwards@.len() + states@.len() == all.len(),
                    forall|i: int|
                        0 <= i < backwards@.len() ==> shows_record(
                            all[all.len() - 1 - i],
                            #[trigger] backwards@[i],
                        ),
                    forall|i: int|
                        0 <= i < states@.len() ==> shows_record(all[i], #[trigger] states@[i]),
                decreases backwards@.len(),
            {
                let last = backwards.pop();
                if let Some(state) = last {
                    states.push(state);
                }
            }
            assert(show_records(all, states@));
            ok_response(request_id, Payload::ServiceList(states))
        },
        Err(refusal) => err_response(request_id, refusal),
    }
}

/// Answers a request for one service, given what the registry holds.
pub fn handle_service_describe(request_id: u64, outcome: Result<ServiceRecord, Refusal>) -> (r:
    DaemonResponse)
    ensures
        match outcome {
            Ok(rec) => exists|state: ServiceState| #[trigger]
                shows_record(rec, state) && r.grants(request_id, Payload::ServiceDescribe(state)),
            Err(refusal) => r.refuses(request_id, code_of(refusal.error), refusal.text@),
        },
{
    match outcome {
        Ok(rec) => ok_response(request_id, Payload::ServiceDescribe(state_from_record(rec))),
        Err(refusal) => err_response(request_id, refusal),
    }
}

/// Acknowledges a request for log lines.
pub fn handle_service_logs(request_id: u64) -> (r: DaemonResponse)
    ensures
        r.grants(request_id, Payload::ServiceLogs),
{
    ok_response(request_id, Payload::ServiceLogs)
}

/// Acknowledges a request to flush logs.
pub fn handle_service_flush(request_id: u64) -> (r: DaemonResponse)
    ensures
        r.grants(request_id, Payload::ServiceFlush),
{
    ok_response(request_id, Payload::ServiceFlush)
}

/// Acknowledges a request to save the services.
pub fn handle_service_save(request_id: u64) -> (r: DaemonResponse)
    ensures
        r.grants(request_id, Payload::ServiceSave),
{
    ok_response(request_id, Payload::ServiceSave)
}

/// Acknowledges a request to resurrect the services.
pub fn handle_service_resurrect(request_id: u64) -> (r: DaemonResponse)
    ensures
        r.grants(request_id, Payload::ServiceResurrect),
{
    ok_response(request_id, Payload::ServiceResurrect)
}

/// Of each variable the last word counts: adding a pair sets its variable to its value
/// and leaves every other as it was.
pub proof fn law_last_words_win(
    pairs: Seq<(Seq<char>, Seq<char>)>,
    key: Seq<char>,
    value: Seq<char>,
    other: Seq<char>,
)
    requires
        other != key,
    ensures
        last_words(Seq::empty()).dom().is_empty(),
        last_words(pairs.push((key, value))).dom().contains(key),
        last_words(pairs.push((key, value)))[key] == value,
        last_words(pairs.push((key, value))).dom().contains(other) == last_words(
            pairs,
        ).dom().contains(other),
        last_words(pairs.push((key, value)))[other] == last_words(pairs)[other],
{
    assert(pairs.push((key, value)).drop_last() =~= pairs);
    assert(last_words(Seq::empty()).dom() =~= Set::<Seq<char>>::empty());
}

/// A client that asks for a service that is not there is told so, one that asks for
/// what makes no sense or is there already has itself to blame, and everything else is
/// the daemon's own failure.
pub proof fn law_refusals_tell_who_is_to_blame(error: ServiceError)
    ensures
        code_of(error) == StatusCode::NotFound <==> error is NotFound,
        code_of(error) == StatusCode::InvalidArgument <==> error is AlreadyExists || error
            is InvalidConfig,
        code_of(error) == StatusCode::Internal <==> error is Spawn || error is Db,
{
}

/// A client sees of a service what the registry holds of it: its run, its counts, and
/// every setting of its definition.
pub proof fn law_states_show_their_record(rec: ServiceRecord, state: ServiceState)
    requires
        shows_record(rec, state),
    ensures
        state.name@ == rec.def.name@,
        state.id == rec.id,
        state.status@ == rec.status@,
        state.pid == rec.pid,
        state.restart_count == rec.restart_count,
        state.last_started_at == rec.last_started_at,
        state.last_exited_at == rec.last_exited_at,
        state.last_exit_code == rec.last_exit_code,
        state.config.name@ == rec.def.name@,
        state.config.cmd@ == rec.def.cmd@,
        state.config.cwd@ == rec.def.cwd@,
        state.config.autorestart == rec.def.autorestart,
        state.config.max_restarts == rec.def.max_restarts,
        state.config.restart_delay_ms == rec.def.restart_delay_ms,
        state.config.kill_timeout_ms == rec.def.kill_timeout_ms,
        state.config.min_uptime_ms == rec.def.min_uptime_ms,
        contents(variables(state.config.env@)) == last_words(variables(rec.def.env@)),
{
}

/// A list of states has one for each record, in order, under its name and number.
pub proof fn law_every_record_is_listed(
    records: Seq<ServiceRecord>,
    states: Seq<ServiceState>,
    i: int,
)
    requires
        show_records(records, states),
    ensures
        states.len() == records.len(),
        0 <= i < records.len() ==> states[i].name@ == records[i].def.name@ && states[i].id
            == records[i].id && states[i].status@ == records[i].status@ && states[i].pid
            == records[i].pid,
{
    if 0 <= i < records.len() {
        assert(shows_record(records[i], states[i]));
    }
}

} // verus!
