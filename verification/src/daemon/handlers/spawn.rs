//! Requests for detached commands: what is spawned, how it is tracked, and what is
//! answered.

use crate::daemon::handlers::{error_response, ok_response, DaemonResponse, Payload};
use crate::daemon::protocol::StatusCode;
use crate::environment::{same_variable, EnvironmentPolicy};
use crate::text::{same_text, to_ascii_lowercase, trim, trimmed};
use vstd::prelude::*;
use vstd::string::*;

verus! {

/// The variable that tells a child who asked for it.
pub const ORIGINATOR_ENV_VAR: &'static str = "RUNNING_PROCESS_ORIGINATOR";

/// The kind under which a detached command is tracked.
pub const TRACKED_KIND: &'static str = "subprocess";

/// How a detached command is contained.
pub const TRACKED_CONTAINMENT: &'static str = "detached";

/// The payload of a request for a detached command.
#[derive(Debug, PartialEq, Eq)]
pub struct SpawnDaemonRequest {
    /// Command line for the shell.
    pub command: String,
    /// Working directory; empty for the daemon's.
    pub cwd: String,
    /// Explicit environment entries, in order.
    pub env: Vec<(String, String)>,
    /// Who asks; blank for the client.
    pub originator: String,
}

/// What is spawned.
#[derive(Debug, PartialEq, Eq)]
pub struct SpawnPlan {
    /// Command line for the shell.
    pub command: String,
    /// Working directory; empty for the daemon's.
    pub cwd: String,
    /// Explicit environment entries, in order.
    pub env: Vec<(String, String)>,
    /// Who asks.
    pub originator: String,
    /// The environment it starts from.
    pub policy: EnvironmentPolicy,
}

/// A detached command that runs.
#[derive(Debug, PartialEq, Eq)]
pub struct SpawnedCommand {
    /// Its process.
    pub pid: u32,
    /// When it was created, in milliseconds since the Unix epoch.
    pub created_at_ms: u64,
    /// Command line.
    pub command: String,
    /// Working directory.
    pub cwd: String,
    /// Who asked.
    pub originator: String,
    /// How it is contained.
    pub containment: String,
}

/// A process that the daemon tracks.
#[derive(Debug, PartialEq, Eq)]
pub struct TrackedEntry {
    /// Its process.
    pub pid: u32,
    /// When it was created, in milliseconds since the Unix epoch.
    pub created_at_ms: u64,
    /// Its kind.
    pub kind: String,
    /// Command line.
    pub command: String,
    /// Working directory.
    pub cwd: String,
    /// Who asked.
    pub originator: String,
    /// How it is contained.
    pub containment: String,
}

/// Whether a plan does what a request asks.
pub open spec fn plans(
    client_name: Seq<char>,
    request: SpawnDaemonRequest,
    policy: EnvironmentPolicy,
    plan: SpawnPlan,
) -> bool {
    &&& plan.command@ == trimmed(request.command@)
    &&& plan.cwd == request.cwd
    &&& plan.env == request.env
    &&& plan.originator@ == (if trimmed(request.originator@).len() == 0 {
        client_name
    } else {
        request.originator@
    })
    &&& plan.policy == policy
}

/// Decides what a request spawns, given what its environment policy means.
pub fn handle_spawn_daemon(
    request_id: u64,
    client_name: String,
    payload: Option<SpawnDaemonRequest>,
    policy: Result<EnvironmentPolicy, String>,
) -> (r: Result<SpawnPlan, DaemonResponse>)
    ensures
        match payload {
            None => r is Err && r->Err_0.refuses(
                request_id,
                StatusCode::InvalidArgument,
                "missing spawn_daemon payload"@,
            ),
            Some(request) => if trimmed(request.command@).len() == 0 {
                r is Err && r->Err_0.refuses(
                    request_id,
                    StatusCode::InvalidArgument,
                    "command must not be empty"@,
                )
            } else {
                match policy {
                    Err(message) => r is Err && r->Err_0.refuses(
                        request_id,
                        StatusCode::InvalidArgument,
                        message@,
                    ),
                    Ok(policy) => r matches Ok(plan) && plans(
                        client_name@,
                        request,
                        policy,
                        plan,
                    ),
                }
            },
        },
{
    let request = match payload {
        None => {
            return Err(
                error_response(
                    request_id,
                    StatusCode::InvalidArgument,
                    "missing spawn_daemon payload".to_owned(),
                ),
            );
        },
        Some(request) => request,
    };
    let command = trim(request.command.as_str());
    if command.as_str().unicode_len() == 0 {
        return Err(
            error_response(
                request_id,
                StatusCode::InvalidArgument,
                "command must not be empty".to_owned(),
            ),
        );
    }
    let asked = trim(request.originator.as_str());
    let originator = if asked.as_str().unicode_len() == 0 {
        client_name
    } else {
        request.originator
    };
    match policy {
        Err(message) => Err(error_response(request_id, StatusCode::InvalidArgument, message)),
        Ok(policy) => Ok(
            SpawnPlan { command, cwd: request.cwd, env: request.env, originator, policy },
        ),
    }
}

/// Environment entries as plain values.
pub open spec fn pairs_of(env: Seq<(String, String)>) -> Seq<(Seq<char>, Seq<char>)> {
    env.map_values(|e: (String, String)| (e.0@, e.1@))
}

/// Whether an entry names its variable for the last time.
pub open spec fn is_last_word(
    env: Seq<(Seq<char>, Seq<char>)>,
    i: int,
    ignore_case: bool,
) -> bool {
    forall|j: int| i < j < env.len() ==> !same_variable(env[i].0, (#[trigger] env[j]).0, ignore_case)
}

/// The entries of an environment that name their variables for the last time, in
/// order.
pub open spec fn canonical(env: Seq<(Seq<char>, Seq<char>)>, ignore_case: bool, n: int) -> Seq<
    (Seq<char>, Seq<char>),
>
    decreases n,
{
    if n <= 0 {
        Seq::empty()
    } else {
        let front = canonical(env, ignore_case, n - 1);
        if is_last_word(env, n - 1, ignore_case) {
            front.push(env[n - 1])
        } else {
            front
        }
    }
}

fn names_same(a: &str, b: &str, ignore_case: bool) -> (r: bool)
    ensures
        r == same_variable(a@, b@, ignore_case),
{
    if ignore_case {
        let x = to_ascii_lowercase(a);
        let y = to_ascii_lowercase(b);
        same_text(x.as_str(), y.as_str())
    } else {
        same_text(a, b)
    }
}

/// The explicit entries that count: of several for one variable, the last, so
/// that the override that was meant wins whatever came before it.
pub fn canonical_env_pairs(env: &Vec<(String, String)>, ignore_case: bool) -> (out: Vec<
    (String, String),
>)
    ensures
        pairs_of(out@) == canonical(pairs_of(env@), ignore_case, env@.len() as int),
{
    let mut out: Vec<(String, String)> = Vec::new();
    let ghost all = pairs_of(env@);
    assert(pairs_of(out@) =~= Seq::empty());
    let mut i: usize = 0;
    while i < env.len()
        invariant
            i <= env@.len(),
            all == pairs_of(env@),
            pairs_of(out@) == canonical(all, ignore_case, i as int),
        decreases env@.len() - i,
    {
        let mut last = true;
        let mut j: usize = i + 1;
        while j < env.len()
            invariant
                i < j <= env@.len(),
                all == pairs_of(env@),
                last == (forall|k: int|
                    i < k < j ==> !same_variable(
                        all[i as int].0,
                        (#[trigger] all[k]).0,
                        ignore_case,
                    )),
            decreases env@.len() - j,
        {
            assert(all[i as int].0 == env@[i as int].0@);
            assert(all[j as int].0 == env@[j as int].0@);
            if names_same(env[i].0.as_str(), env[j].0.as_str(), ignore_case) {
                last = false;
            }
            j = j + 1;
        }
        let ghost before = pairs_of(out@);
        if last {
            out.push((env[i].0.as_str().to_owned(), env[i].1.as_str().to_owned()));
            assert(pairs_of(out@) =~= before.push(all[i as int]));
        }
        i = i + 1;
    }
    out
}

/// The environment entries that a plan sets: the explicit ones that count, and who
/// asked, if anyone did.
pub open spec fn planned_entries(plan: SpawnPlan, ignore_case: bool) -> Seq<
    (Seq<char>, Seq<char>),
> {
    let explicit = canonical(pairs_of(plan.env@), ignore_case, plan.env@.len() as int);
    if plan.originator@.len() == 0 {
        explicit
    } else {
        explicit.push((ORIGINATOR_ENV_VAR@, plan.originator@))
    }
}

/// The environment entries that a plan sets, in order.
pub fn environment_entries(plan: &SpawnPlan, ignore_case: bool) -> (out: Vec<(String, String)>)
    ensures
        pairs_of(out@) == planned_entries(*plan, ignore_case),
{
    let mut out = canonical_env_pairs(&plan.env, ignore_case);
    let ghost explicit = pairs_of(out@);
    if plan.originator.as_str().unicode_len() != 0 {
        out.push((ORIGINATOR_ENV_VAR.to_owned(), plan.originator.as_str().to_owned()));
        assert(pairs_of(out@) =~= explicit.push((ORIGINATOR_ENV_VAR@, plan.originator@)));
    }
    out
}

/// The working directory that a plan sets, if it sets one.
pub fn working_directory(plan: &SpawnPlan) -> (d: Option<&str>)
    ensures
        match d {
            Some(cwd) => plan.cwd@.len() > 0 && cwd@ == plan.cwd@,
            None => plan.cwd@.len() == 0,
        },
{
    if plan.cwd.as_str().unicode_len() == 0 {
        None
    } else {
        Some(plan.cwd.as_str())
    }
}

/// Whether an entry tracks a planned command.
pub open spec fn tracks(plan: SpawnPlan, pid: u32, created_at_ms: u64, entry: TrackedEntry) -> bool {
    &&& entry.pid == pid
    &&& entry.created_at_ms == created_at_ms
    &&& entry.kind@ == TRACKED_KIND@
    &&& entry.command@ == plan.command@
    &&& entry.cwd@ == plan.cwd@
    &&& entry.originator@ == plan.originator@
    &&& entry.containment@ == TRACKED_CONTAINMENT@
}

/// Whether a description is of a planned command.
pub open spec fn describes(
    plan: SpawnPlan,
    pid: u32,
    created_at_ms: u64,
    spawned: SpawnedCommand,
) -> bool {
    &&& spawned.pid == pid
    &&& spawned.created_at_ms == created_at_ms
    &&& spawned.command@ == plan.command@
    &&& spawned.cwd@ == plan.cwd@
    &&& spawned.originator@ == plan.originator@
    &&& spawned.containment@ == TRACKED_CONTAINMENT@
}

/// What a spawn waits for.
#[derive(Clone, Copy, Debug, PartialEq, Eq, Structural)]
pub enum SpawnStage {
    /// The command is being spawned.
    Spawning,
    /// The command is being tracked.
    Registering {
        /// Its process.
        pid: u32,
        /// When it was created.
        created_at_ms: u64,
    },
    /// Nothing.
    Over,
}

/// What happened to a spawn.
#[derive(Debug, PartialEq, Eq)]
pub enum SpawnEvent {
    /// The command runs.
    Spawned {
        /// Its process.
        pid: u32,
        /// When it was created, in milliseconds since the Unix epoch.
        created_at_ms: u64,
    },
    /// The command could not be spawned.
    SpawnFailed(String),
    /// The command is tracked.
    Registered,
    /// The command could not be tracked.
    RegisterFailed(String),
}

/// What is to be done next.
#[derive(Debug, PartialEq, Eq)]
pub enum SpawnAction {
    /// Track the command.
    Register(TrackedEntry),
    /// Kill the command, wait for it, and answer.
    KillAndRespond(DaemonResponse),
    /// Stop tracking the command when it has ended, and answer.
    WatchAndRespond(DaemonResponse),
    /// Answer.
    Respond(DaemonResponse),
    /// Nothing: the event does not belong here.
    Ignore,
}

/// What a spawn waits for after an event.
pub open spec fn spawn_after(stage: SpawnStage, event: SpawnEvent) -> SpawnStage {
    match (stage, event) {
        (SpawnStage::Spawning, SpawnEvent::Spawned { pid, created_at_ms }) => {
            SpawnStage::Registering { pid, created_at_ms }
        },
        (SpawnStage::Spawning, SpawnEvent::SpawnFailed(_)) => SpawnStage::Over,
        (SpawnStage::Registering { .. }, SpawnEvent::Registered) => SpawnStage::Over,
        (SpawnStage::Registering { .. }, SpawnEvent::RegisterFailed(_)) => SpawnStage::Over,
        _ => stage,
    }
}

/// Whether an action answers an event.
pub open spec fn spawn_answers(
    request_id: u64,
    plan: SpawnPlan,
    stage: SpawnStage,
    event: SpawnEvent,
    action: SpawnAction,
) -> bool {
    match (stage, event) {
        (SpawnStage::Spawning, SpawnEvent::Spawned { pid, created_at_ms }) => action
            matches SpawnAction::Register(entry) && tracks(plan, pid, created_at_ms, entry),
        (SpawnStage::Spawning, SpawnEvent::SpawnFailed(detail)) => action
            matches SpawnAction::Respond(response) && response.refuses(
            request_id,
            StatusCode::Internal,
            "failed to spawn detached command: "@ + detail@,
        ),
        (SpawnStage::Registering { pid, created_at_ms }, SpawnEvent::Registered) => action
            matches SpawnAction::WatchAndRespond(response) && exists|spawned: SpawnedCommand|
            #[trigger] describes(plan, pid, created_at_ms, spawned) && response.grants(
                request_id,
                Payload::SpawnDaemon(spawned),
            ),
        (SpawnStage::Registering { .. }, SpawnEvent::RegisterFailed(detail)) => action
            matches SpawnAction::KillAndRespond(response) && response.refuses(
            request_id,
            StatusCode::Internal,
            "registry error: "@ + detail@,
        ),
        _ => action is Ignore,
    }
}

/// Takes a spawn one step further.
pub fn step_spawn(request_id: u64, plan: &SpawnPlan, stage: SpawnStage, event: SpawnEvent) -> (r: (
    SpawnStage,
    SpawnAction,
))
    ensures
        r.0 == spawn_after(stage, event),
        spawn_answers(request_id, *plan, stage, event, r.1),
{
    match (stage, event) {
        (SpawnStage::Spawning, SpawnEvent::Spawned { pid, created_at_ms }) => (
            SpawnStage::Registering { pid, created_at_ms },
            SpawnAction::Register(
                TrackedEntry {
                    pid,
                    created_at_ms,
                    kind: TRACKED_KIND.to_owned(),
                    command: plan.command.as_str().to_owned(),
                    cwd: plan.cwd.as_str().to_owned(),
                    originator: plan.originator.as_str().to_owned(),
                    containment: TRACKED_CONTAINMENT.to_owned(),
                },
            ),
        ),
        (SpawnStage::Spawning, SpawnEvent::SpawnFailed(detail)) => {
            let mut message: String = "failed to spawn detached command: ".to_owned();
            message.append(detail.as_str());
            (
                SpawnStage::Over,
                SpawnAction::Respond(error_response(request_id, StatusCode::Internal, message)),
            )
        },
        (SpawnStage::Registering { pid, created_at_ms }, SpawnEvent::Registered) => {
            let spawned = SpawnedCommand {
                pid,
                created_at_ms,
                command: plan.command.as_str().to_owned(),
                cwd: plan.cwd.as_str().to_owned(),
                originator: plan.originator.as_str().to_owned(),
                containment: TRACKED_CONTAINMENT.to_owned(),
            };
            assert(describes(*plan, pid, created_at_ms, spawned));
            (
                SpawnStage::Over,
                SpawnAction::WatchAndRespond(
                    ok_response(request_id, Payload::SpawnDaemon(spawned)),
                ),
            )
        },
        (SpawnStage::Registering { .. }, SpawnEvent::RegisterFailed(detail)) => {
            let mut message: String = "registry error: ".to_owned();
            message.append(detail.as_str());
            (
                SpawnStage::Over,
                SpawnAction::KillAndRespond(
                    error_response(request_id, StatusCode::Internal, message),
                ),
            )
        },
        _ => (stage, SpawnAction::Ignore),
    }
}

/// A command whose spawn was announced is tracked, and one that could not be
/// tracked does not go on running: the two ways out of registering are success with
/// a watch, and failure with a kill.
pub proof fn law_no_untracked_command_survives(
    request_id: u64,
    plan: SpawnPlan,
    stage: SpawnStage,
    event: SpawnEvent,
    action: SpawnAction,
)
    requires
        spawn_answers(request_id, plan, stage, event, action),
        stage is Registering,
        spawn_after(stage, event) is Over,
    ensures
        action is WatchAndRespond || action is KillAndRespond,
        action is WatchAndRespond <==> event is Registered,
{
}

/// The entries that count name no variable twice.
pub proof fn law_canonical_names_are_distinct(
    env: Seq<(Seq<char>, Seq<char>)>,
    ignore_case: bool,
)
    ensures
        forall|i: int, j: int|
            0 <= i < j < canonical(env, ignore_case, env.len() as int).len() ==> !same_variable(
                (#[trigger] canonical(env, ignore_case, env.len() as int)[i]).0,
                (#[trigger] canonical(env, ignore_case, env.len() as int)[j]).0,
                ignore_case,
            ),
{
    lemma_canonical(env, ignore_case, env.len() as int);
}

/// Whether a pair stands among the first entries, naming its variable for the last
/// time.
spec fn counts(
    env: Seq<(Seq<char>, Seq<char>)>,
    ignore_case: bool,
    n: int,
    pair: (Seq<char>, Seq<char>),
) -> bool {
    exists|k: int| 0 <= k < n && is_last_word(env, k, ignore_case) && #[trigger] env[k] == pair
}

proof fn lemma_canonical(env: Seq<(Seq<char>, Seq<char>)>, ignore_case: bool, n: int)
    requires
        0 <= n <= env.len(),
    ensures
        forall|i: int|
            0 <= i < canonical(env, ignore_case, n).len() ==> counts(
                env,
                ignore_case,
                n,
                #[trigger] canonical(env, ignore_case, n)[i],
            ),
        forall|i: int, j: int|
            0 <= i < j < canonical(env, ignore_case, n).len() ==> !same_variable(
                (#[trigger] canonical(env, ignore_case, n)[i]).0,
                (#[trigger] canonical(env, ignore_case, n)[j]).0,
                ignore_case,
            ),
    decreases n,
{
    if n > 0 {
        lemma_canonical(env, ignore_case, n - 1);
        let front = canonical(env, ignore_case, n - 1);
        let all = canonical(env, ignore_case, n);
        assert forall|i: int| 0 <= i < all.len() implies counts(
            env,
            ignore_case,
            n,
            #[trigger] all[i],
        ) by {
            if i < front.len() {
                assert(all[i] == front[i]);
                assert(counts(env, ignore_case, n - 1, front[i]));
            } else {
                assert(env[n - 1] == all[i]);
            }
        }
        assert forall|i: int, j: int| 0 <= i < j < all.len() implies !same_variable(
            (#[trigger] all[i]).0,
            (#[trigger] all[j]).0,
            ignore_case,
        ) by {
            assert(all[i] == front[i]);
            if j < front.len() {
                assert(all[j] == front[j]);
            } else {
                assert(all[j] == env[n - 1]);
                assert(counts(env, ignore_case, n - 1, front[i]));
                let k = choose|k: int|
                    0 <= k < n - 1 && is_last_word(env, k, ignore_case) && #[trigger] env[k]
                        == front[i];
                assert(!same_variable(env[k].0, env[n - 1].0, ignore_case));
            }
        }
    }
}

/// Of several entries for one variable the last one counts: every entry that no later
/// one overrides is kept, and every entry that is kept is such a one.
pub proof fn law_last_override_wins(
    env: Seq<(Seq<char>, Seq<char>)>,
    ignore_case: bool,
    i: int,
    k: int,
)
    requires
        0 <= i < env.len(),
    ensures
        (forall|j: int|
            i < j < env.len() ==> !same_variable(env[i].0, (#[trigger] env[j]).0, ignore_case))
            ==> canonical(env, ignore_case, env.len() as int).contains(env[i]),
        0 <= k < canonical(env, ignore_case, env.len() as int).len() ==> exists|n: int|
            0 <= n < env.len() && canonical(env, ignore_case, env.len() as int)[k] == #[trigger] env[n]
                && forall|j: int|
                n < j < env.len() ==> !same_variable(env[n].0, (#[trigger] env[j]).0, ignore_case),
{
    let all = canonical(env, ignore_case, env.len() as int);
    lemma_canonical(env, ignore_case, env.len() as int);
    if 0 <= k < all.len() {
        assert(counts(env, ignore_case, env.len() as int, all[k]));
        let n = choose|n: int|
            0 <= n < env.len() && is_last_word(env, n, ignore_case) && #[trigger] env[n] == all[k];
        assert(env[n] == all[k]);
    }
    if is_last_word(env, i, ignore_case) {
        lemma_canonical_keeps(env, ignore_case, env.len() as int, i);
    }
}

proof fn lemma_canonical_keeps(
    env: Seq<(Seq<char>, Seq<char>)>,
    ignore_case: bool,
    n: int,
    i: int,
)
    requires
        0 <= i < n <= env.len(),
        is_last_word(env, i, ignore_case),
    ensures
        canonical(env, ignore_case, n).contains(env[i]),
    decreases n,
{
    let all = canonical(env, ignore_case, n);
    let front = canonical(env, ignore_case, n - 1);
    if i == n - 1 {
        assert(all[front.len() as int] == env[i]);
    } else {
        lemma_canonical_keeps(env, ignore_case, n - 1, i);
        let k = choose|k: int| 0 <= k < front.len() && front[k] == env[i];
        assert(all[k] == env[i]);
    }
}

/// A plan runs the trimmed command where, with what, and for whom the request says; a
/// request that does not say for whom is the client's.
pub proof fn law_plans_follow_the_request(
    client_name: Seq<char>,
    request: SpawnDaemonRequest,
    policy: EnvironmentPolicy,
    plan: SpawnPlan,
)
    requires
        plans(client_name, request, policy, plan),
    ensures
        plan.command@ == trimmed(request.command@),
        plan.cwd@ == request.cwd@,
        plan.env@ == request.env@,
        plan.policy == policy,
        trimmed(request.originator@).len() == 0 ==> plan.originator@ == client_name,
        trimmed(request.originator@).len() > 0 ==> plan.originator@ == request.originator@,
{
}

/// Who asked is the last entry that a child gets, so that no explicit entry overrides
/// it; where nobody did, the child gets the explicit entries alone.
pub proof fn law_originator_comes_last(plan: SpawnPlan, ignore_case: bool)
    ensures
        ({
            let entries = planned_entries(plan, ignore_case);
            let explicit = canonical(pairs_of(plan.env@), ignore_case, plan.env@.len() as int);
            &&& plan.originator@.len() == 0 ==> entries == explicit
            &&& plan.originator@.len() > 0 ==> entries.drop_last() == explicit && entries.last().0
                == ORIGINATOR_ENV_VAR@ && entries.last().1 == plan.originator@
        }),
{
    let entries = planned_entries(plan, ignore_case);
    let explicit = canonical(pairs_of(plan.env@), ignore_case, plan.env@.len() as int);
    if plan.originator@.len() > 0 {
        assert(entries.drop_last() =~= explicit);
    }
}

/// A command that was spawned is tracked under its own process and time, and once it is
/// tracked the answer describes it; a command that could not be spawned or tracked is
/// answered with what failed.
pub proof fn law_spawns_are_answered(
    request_id: u64,
    plan: SpawnPlan,
    pid: u32,
    created_at_ms: u64,
    detail: String,
    spawned: SpawnAction,
    registered: SpawnAction,
    refused: SpawnAction,
    failed: SpawnAction,
)
    requires
        spawn_answers(
            request_id,
            plan,
            SpawnStage::Spawning,
            SpawnEvent::Spawned { pid, created_at_ms },
            spawned,
        ),
        spawn_answers(
            request_id,
            plan,
            SpawnStage::Registering { pid, created_at_ms },
            SpawnEvent::Registered,
            registered,
        ),
        spawn_answers(
            request_id,
            plan,
            SpawnStage::Registering { pid, created_at_ms },
            SpawnEvent::RegisterFailed(detail),
            refused,
        ),
        spawn_answers(
            request_id,
            plan,
            SpawnStage::Spawning,
            SpawnEvent::SpawnFailed(detail),
            failed,
        ),
    ensures
        spawn_after(SpawnStage::Spawning, SpawnEvent::Spawned { pid, created_at_ms }) == (
        SpawnStage::Registering { pid, created_at_ms }),
        spawned matches SpawnAction::Register(entry) && entry.pid == pid && entry.created_at_ms
            == created_at_ms && entry.command@ == plan.command@ && entry.cwd@ == plan.cwd@
            && entry.originator@ == plan.originator@,
        registered matches SpawnAction::WatchAndRespond(response) && exists|
            command: SpawnedCommand,
        |
            #[trigger] response.grants(request_id, Payload::SpawnDaemon(command)) && command.pid
                == pid && command.created_at_ms == created_at_ms && command.command@
                == plan.command@ && command.cwd@ == plan.cwd@ && command.originator@
                == plan.originator@,
        refused is KillAndRespond,
        failed is Respond,
        spawn_after(SpawnStage::Spawning, SpawnEvent::SpawnFailed(detail)) is Over,
{
    match registered {
        SpawnAction::WatchAndRespond(response) => {
            let command = choose|command: SpawnedCommand| #[trigger]
                describes(plan, pid, created_at_ms, command) && response.grants(
                    request_id,
                    Payload::SpawnDaemon(command),
                );
            assert(response.grants(request_id, Payload::SpawnDaemon(command)));
        },
        _ => {},
    }
}

/// A description of a spawned command shows its process and when it was created, and
/// of the plan the command, the directory and the originator; such commands are
/// detached.
pub proof fn law_descriptions_show_the_plan(
    plan: SpawnPlan,
    pid: u32,
    created_at_ms: u64,
    spawned: SpawnedCommand,
)
    requires
        describes(plan, pid, created_at_ms, spawned),
    ensures
        spawned.pid == pid,
        spawned.created_at_ms == created_at_ms,
        spawned.command@ == plan.command@,
        spawned.cwd@ == plan.cwd@,
        spawned.originator@ == plan.originator@,
        spawned.containment@ == "detached"@,
{
}

/// The entry under which a spawned command is tracked shows its process and when it
/// was created, and of the plan the command, the directory and the originator.
pub proof fn law_entries_show_the_plan(
    plan: SpawnPlan,
    pid: u32,
    created_at_ms: u64,
    entry: TrackedEntry,
)
    requires
        tracks(plan, pid, created_at_ms, entry),
    ensures
        entry.pid == pid,
        entry.created_at_ms == created_at_ms,
        entry.command@ == plan.command@,
        entry.cwd@ == plan.cwd@,
        entry.originator@ == plan.originator@,
        entry.containment@ == "detached"@,
{
}

} // verus!
