//! Which environment a spawn starts from, and how explicit entries are layered
//! on top of it.

use crate::errors::ErrorKind;
use crate::text::{ascii_lowercase, same_text, to_ascii_lowercase};
use vstd::prelude::*;
use vstd::string::*;

verus! {

/// The base that a spawn starts from.
#[derive(Clone, Copy, Debug, PartialEq, Eq, Structural)]
pub enum EnvironmentPolicy {
    /// Not decided yet.
    Auto,
    /// This process's environment.
    Inherit,
    /// The environment of a fresh login.
    UserBaseline,
    /// Nothing.
    Clear,
}

/// The policy was not decided before the environment was needed.
#[derive(Clone, Copy, Debug, PartialEq, Eq, Structural)]
pub struct UnresolvedPolicy {}

impl UnresolvedPolicy {
    /// Class of this error.
    pub fn kind(&self) -> (k: ErrorKind)
        ensures
            k == ErrorKind::InvalidInput,
    {
        ErrorKind::InvalidInput
    }

    /// Text of this error.
    pub fn message(&self) -> (s: &'static str)
        ensures
            s@ == "Auto environment policy must be resolved before materialization"@,
    {
        "Auto environment policy must be resolved before materialization"
    }
}

/// Whether two names are the same variable.
pub open spec fn same_variable(a: Seq<char>, b: Seq<char>, ignore_case: bool) -> bool {
    if ignore_case {
        ascii_lowercase(a) == ascii_lowercase(b)
    } else {
        a == b
    }
}

/// An environment as plain values.
pub open spec fn entries_of(env: Seq<(String, String)>) -> Seq<(Seq<char>, Seq<char>)> {
    env.map_values(|e: (String, String)| (e.0@, e.1@))
}

/// Position of the first entry for a variable.
pub open spec fn first_entry(
    env: Seq<(Seq<char>, Seq<char>)>,
    key: Seq<char>,
    ignore_case: bool,
) -> Option<int>
    decreases env.len(),
{
    if env.len() == 0 {
        None
    } else {
        match first_entry(env.drop_last(), key, ignore_case) {
            Some(i) => Some(i),
            None => if same_variable(env.last().0, key, ignore_case) {
                Some(env.len() - 1)
            } else {
                None
            },
        }
    }
}

/// An environment with one explicit entry: it replaces the entry for the same
/// variable, spelling and value, or stands at the end.
pub open spec fn with_entry(
    env: Seq<(Seq<char>, Seq<char>)>,
    key: Seq<char>,
    value: Seq<char>,
    ignore_case: bool,
) -> Seq<(Seq<char>, Seq<char>)> {
    match first_entry(env, key, ignore_case) {
        Some(i) => env.update(i, (key, value)),
        None => env.push((key, value)),
    }
}

/// An environment with explicit entries, in order.
pub open spec fn layered(
    base: Seq<(Seq<char>, Seq<char>)>,
    explicit: Seq<(Seq<char>, Seq<char>)>,
    ignore_case: bool,
) -> Seq<(Seq<char>, Seq<char>)>
    decreases explicit.len(),
{
    if explicit.len() == 0 {
        base
    } else {
        with_entry(
            layered(base, explicit.drop_last(), ignore_case),
            explicit.last().0,
            explicit.last().1,
            ignore_case,
        )
    }
}

proof fn lemma_first_entry(env: Seq<(Seq<char>, Seq<char>)>, key: Seq<char>, ignore_case: bool)
    ensures
        match first_entry(env, key, ignore_case) {
            Some(i) => 0 <= i < env.len() && same_variable(env[i].0, key, ignore_case) && forall|
                j: int,
            |
                0 <= j < i ==> !same_variable((#[trigger] env[j]).0, key, ignore_case),
            None => forall|j: int|
                0 <= j < env.len() ==> !same_variable((#[trigger] env[j]).0, key, ignore_case),
        },
    decreases env.len(),
{
    if env.len() > 0 {
        let front = env.drop_last();
        lemma_first_entry(front, key, ignore_case);
        assert forall|j: int| 0 <= j < front.len() implies front[j] == #[trigger] env[j] by {}
        if first_entry(front, key, ignore_case) is None {
            assert forall|j: int| 0 <= j < env.len() - 1 implies !same_variable(
                (#[trigger] env[j]).0,
                key,
                ignore_case,
            ) by {
                assert(front[j] == env[j]);
            }
        }
    }
}

/// Whether two names are the same variable on this host.
pub fn environment_keys_match(left: &str, right: &str, ignore_case: bool) -> (b: bool)
    ensures
        b == same_variable(left@, right@, ignore_case),
{
    if ignore_case {
        same_text(to_ascii_lowercase(left).as_str(), to_ascii_lowercase(right).as_str())
    } else {
        same_text(left, right)
    }
}

fn set_entry(env: &mut Vec<(String, String)>, key: &str, value: &str, ignore_case: bool)
    ensures
        entries_of(final(env)@) == with_entry(entries_of(old(env)@), key@, value@, ignore_case),
{
    let ghost before = entries_of(env@);
    proof {
        lemma_first_entry(before, key@, ignore_case);
    }
    let mut i: usize = 0;
    while i < env.len()
        invariant
            i <= env@.len(),
            env@ == old(env)@,
            before == entries_of(env@),
            forall|j: int|
                0 <= j < i ==> !same_variable((#[trigger] before[j]).0, key@, ignore_case),
            match first_entry(before, key@, ignore_case) {
                Some(k) => 0 <= k < before.len() && same_variable(before[k].0, key@, ignore_case)
                    && forall|j: int|
                    0 <= j < k ==> !same_variable((#[trigger] before[j]).0, key@, ignore_case),
                None => forall|j: int|
                    0 <= j < before.len() ==> !same_variable(
                        (#[trigger] before[j]).0,
                        key@,
                        ignore_case,
                    ),
            },
        decreases env@.len() - i,
    {
        assert(before[i as int].0 == env@[i as int].0@);
        if environment_keys_match(env[i].0.as_str(), key, ignore_case) {
            env[i] = (key.to_owned(), value.to_owned());
            assert(first_entry(before, key@, ignore_case) == Some(i as int));
            assert(entries_of(env@) =~= before.update(i as int, (key@, value@)));
            return;
        }
        i = i + 1;
    }
    env.push((key.to_owned(), value.to_owned()));
    assert(entries_of(env@) =~= before.push((key@, value@)));
}

/// The environment for a host interface that takes either an inherited
/// environment (`None`) or a complete one. `base` is the environment that the
/// policy calls for; a cleared one starts from nothing. Explicit entries are
/// applied in order and win.
pub fn materialize_environment(
    policy: EnvironmentPolicy,
    explicit: &Vec<(String, String)>,
    base: Vec<(String, String)>,
    ignore_case: bool,
) -> (r: Result<Option<Vec<(String, String)>>, UnresolvedPolicy>)
    ensures
        r matches Ok(Some(env)) ==> entries_of(env@) == layered(
            starting_environment(policy, entries_of(base@)),
            entries_of(explicit@),
            ignore_case,
        ),
        match r {
            Ok(None) => policy == EnvironmentPolicy::Inherit && explicit@.len() == 0,
            Ok(Some(env)) => {
                &&& policy != EnvironmentPolicy::Auto
                &&& !(policy == EnvironmentPolicy::Inherit && explicit@.len() == 0)
                &&& entries_of(env@) == layered(
                    if policy == EnvironmentPolicy::Clear {
                        Seq::empty()
                    } else {
                        entries_of(base@)
                    },
                    entries_of(explicit@),
                    ignore_case,
                )
            },
            Err(_) => policy == EnvironmentPolicy::Auto,
        },
{
    if policy == EnvironmentPolicy::Inherit && explicit.len() == 0 {
        return Ok(None);
    }
    let mut env: Vec<(String, String)> = match policy {
        EnvironmentPolicy::Inherit | EnvironmentPolicy::UserBaseline => base,
        EnvironmentPolicy::Clear => Vec::new(),
        EnvironmentPolicy::Auto => {
            return Err(UnresolvedPolicy {  });
        },
    };
    let ghost start = entries_of(env@);
    let ghost all = entries_of(explicit@);
    assert(policy == EnvironmentPolicy::Clear ==> start =~= Seq::empty());
    let mut i: usize = 0;
    assert(all.take(0) =~= Seq::empty());
    while i < explicit.len()
        invariant
            i <= explicit@.len(),
            all == entries_of(explicit@),
            entries_of(env@) == layered(start, all.take(i as int), ignore_case),
        decreases explicit@.len() - i,
    {
        proof {
            assert(all.take(i as int + 1).drop_last() =~= all.take(i as int));
            assert(all.take(i as int + 1).last() == (explicit@[i as int].0@, explicit@[i as int].1@));
        }
        set_entry(&mut env, explicit[i].0.as_str(), explicit[i].1.as_str(), ignore_case);
        i = i + 1;
    }
    assert(all.take(all.len() as int) =~= all);
    Ok(Some(env))
}

/// An explicit entry wins: its variable has its value and its spelling, and no
/// other variable changes.
pub proof fn law_explicit_entries_win(
    env: Seq<(Seq<char>, Seq<char>)>,
    key: Seq<char>,
    value: Seq<char>,
    ignore_case: bool,
)
    ensures
        ({
            let after = with_entry(env, key, value, ignore_case);
            &&& first_entry(after, key, ignore_case) matches Some(i) && after[i] == (key, value)
            &&& forall|j: int|
                0 <= j < env.len() && !same_variable((#[trigger] env[j]).0, key, ignore_case)
                    ==> after[j] == env[j]
            &&& after.len() == env.len() || (after.len() == env.len() + 1 && first_entry(
                env,
                key,
                ignore_case,
            ) is None)
        }),
{
    let after = with_entry(env, key, value, ignore_case);
    lemma_first_entry(env, key, ignore_case);
    lemma_first_entry(after, key, ignore_case);
    match first_entry(env, key, ignore_case) {
        Some(i) => {
            assert(after[i] == (key, value));
            assert(same_variable(after[i].0, key, ignore_case));
            let k = first_entry(after, key, ignore_case).unwrap();
            if k < i {
                assert(after[k] == env[k]);
            }
        },
        None => {
            let last = env.len() as int;
            assert(after[last] == (key, value));
            assert(same_variable(after[last].0, key, ignore_case));
            let k = first_entry(after, key, ignore_case).unwrap();
            if k < last {
                assert(after[k] == env[k]);
            }
        },
    }
}

/// Names are the same variable where they are spelled alike, letter case apart where the
/// host ignores it; being the same is mutual and passes on.
pub proof fn law_same_variables(a: Seq<char>, b: Seq<char>, c: Seq<char>, ignore_case: bool)
    ensures
        same_variable(a, a, ignore_case),
        same_variable(a, b, ignore_case) ==> same_variable(b, a, ignore_case),
        same_variable(a, b, ignore_case) && same_variable(b, c, ignore_case) ==> same_variable(
            a,
            c,
            ignore_case,
        ),
        same_variable(a, b, false) <==> a == b,
        same_variable(a, b, true) <==> ascii_lowercase(a) == ascii_lowercase(b),
        same_variable(a, b, false) ==> same_variable(a, b, true),
{
}

/// The environment that explicit entries are put on.
pub open spec fn starting_environment(
    policy: EnvironmentPolicy,
    base: Seq<(Seq<char>, Seq<char>)>,
) -> Seq<(Seq<char>, Seq<char>)> {
    if policy == EnvironmentPolicy::Clear {
        Seq::empty()
    } else {
        base
    }
}

/// Explicit entries are put on what the policy calls for, one after the other: none
/// leaves it as it is, a cleared environment holds nothing else, and the last explicit
/// entry for a variable is the one that is there.
pub proof fn law_explicit_entries_are_layered(
    policy: EnvironmentPolicy,
    base: Seq<(Seq<char>, Seq<char>)>,
    explicit: Seq<(Seq<char>, Seq<char>)>,
    key: Seq<char>,
    value: Seq<char>,
    ignore_case: bool,
)
    ensures
        policy != EnvironmentPolicy::Clear ==> layered(
            starting_environment(policy, base),
            Seq::empty(),
            ignore_case,
        ) == base,
        policy == EnvironmentPolicy::Clear ==> layered(
            starting_environment(policy, base),
            Seq::empty(),
            ignore_case,
        ).len() == 0,
        ({
            let env = layered(
                starting_environment(policy, base),
                explicit.push((key, value)),
                ignore_case,
            );
            first_entry(env, key, ignore_case) matches Some(i) && env[i].0 == key && env[i].1
                == value
        }),
        layered(starting_environment(policy, base), explicit, ignore_case).len()
            <= starting_environment(policy, base).len() + explicit.len(),
    decreases explicit.len(),
{
    let start = starting_environment(policy, base);
    assert(explicit.push((key, value)).drop_last() =~= explicit);
    law_explicit_entries_win(layered(start, explicit, ignore_case), key, value, ignore_case);
    if explicit.len() > 0 {
        law_explicit_entries_are_layered(
            policy,
            base,
            explicit.drop_last(),
            key,
            value,
            ignore_case,
        );
        law_explicit_entries_win(
            layered(start, explicit.drop_last(), ignore_case),
            explicit.last().0,
            explicit.last().1,
            ignore_case,
        );
    }
}

/// A variable that no explicit entry names stays as the base has it.
pub proof fn law_unnamed_variables_stay(
    base: Seq<(Seq<char>, Seq<char>)>,
    explicit: Seq<(Seq<char>, Seq<char>)>,
    ignore_case: bool,
    i: int,
)
    requires
        0 <= i < base.len(),
        forall|j: int|
            0 <= j < explicit.len() ==> !same_variable(
                base[i].0,
                (#[trigger] explicit[j]).0,
                ignore_case,
            ),
    ensures
        layered(base, explicit, ignore_case).len() >= base.len(),
        layered(base, explicit, ignore_case)[i] == base[i],
    decreases explicit.len(),
{
    if explicit.len() > 0 {
        let front = explicit.drop_last();
        assert forall|j: int| 0 <= j < front.len() implies !same_variable(
            base[i].0,
            (#[trigger] front[j]).0,
            ignore_case,
        ) by {
            assert(front[j] == explicit[j]);
        }
        law_unnamed_variables_stay(base, front, ignore_case, i);
        law_explicit_entries_win(
            layered(base, front, ignore_case),
            explicit.last().0,
            explicit.last().1,
            ignore_case,
        );
        assert(explicit.last() == explicit[explicit.len() - 1]);
    }
}

} // verus!
