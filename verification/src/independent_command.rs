//! From a configured command to a launch request: environment snapshot and
//! edits, working directory, and the checks on the owner-private artifacts that
//! carry a request.

use crate::errors::ErrorKind;
use crate::independent_transport::{
    edits_view, launchable, list_view, optional_view, request_error, LaunchRequest,
    LaunchRequestError, Platform, RequestModel, MAX_REQUEST_BYTES,
};
use crate::text::{append_decimal, decimal};
use crate::unix_path::absolute;
use crate::wire::copy_bytes;
use vstd::prelude::*;
use vstd::string::*;

verus! {

/// Byte-wise lexicographic order.
pub open spec fn bytes_less(a: Seq<u8>, b: Seq<u8>) -> bool
    decreases b.len(),
{
    if b.len() == 0 {
        false
    } else if a.len() == 0 {
        true
    } else if a[0] != b[0] {
        a[0] < b[0]
    } else {
        bytes_less(a.skip(1), b.skip(1))
    }
}

proof fn lemma_bytes_less_trans(a: Seq<u8>, b: Seq<u8>, c: Seq<u8>)
    requires
        bytes_less(a, b),
        bytes_less(b, c),
    ensures
        bytes_less(a, c),
    decreases c.len(),
{
    if a.len() > 0 && b.len() > 0 && c.len() > 0 && a[0] == b[0] && b[0] == c[0] {
        lemma_bytes_less_trans(a.skip(1), b.skip(1), c.skip(1));
    }
}

proof fn lemma_bytes_less_irreflexive(a: Seq<u8>)
    ensures
        !bytes_less(a, a),
    decreases a.len(),
{
    if a.len() > 0 {
        lemma_bytes_less_irreflexive(a.skip(1));
    }
}

proof fn lemma_bytes_less_total(a: Seq<u8>, b: Seq<u8>)
    ensures
        !bytes_less(a, b) && !bytes_less(b, a) ==> a == b,
        !(bytes_less(a, b) && bytes_less(b, a)),
        !bytes_less(a, a),
    decreases a.len() + b.len(),
{
    lemma_bytes_less_irreflexive(a);
    if a.len() > 0 && b.len() > 0 && a[0] == b[0] {
        lemma_bytes_less_total(a.skip(1), b.skip(1));
        if !bytes_less(a, b) && !bytes_less(b, a) {
            assert(a =~= seq![a[0]] + a.skip(1));
            assert(b =~= seq![b[0]] + b.skip(1));
        }
    } else if a.len() == 0 && b.len() == 0 {
        assert(a =~= b);
    }
}

/// Decides [`bytes_less`].
pub fn is_bytes_less(a: &[u8], b: &[u8]) -> (r: bool)
    ensures
        r == bytes_less(a@, b@),
{
    let mut i: usize = 0;
    assert(a@.skip(0) =~= a@);
    assert(b@.skip(0) =~= b@);
    while i < a.len() && i < b.len()
        invariant
            i <= a.len(),
            i <= b.len(),
            bytes_less(a@, b@) == bytes_less(a@.skip(i as int), b@.skip(i as int)),
        decreases a.len() - i,
    {
        if a[i] != b[i] {
            return a[i] < b[i];
        }
        proof {
            assert(a@.skip(i as int).skip(1) =~= a@.skip(i as int + 1));
            assert(b@.skip(i as int).skip(1) =~= b@.skip(i as int + 1));
        }
        i = i + 1;
    }
    i < b.len()
}

/// The pairs of a list of variables.
pub open spec fn pairs_view(list: Seq<(Vec<u8>, Vec<u8>)>) -> Seq<(Seq<u8>, Seq<u8>)> {
    list.map_values(|e: (Vec<u8>, Vec<u8>)| (e.0@, e.1@))
}

/// Whether `list` holds exactly the variables of `m`, in increasing key order.
pub open spec fn is_listing(
    list: Seq<(Seq<u8>, Seq<u8>)>,
    m: Map<Seq<u8>, Seq<u8>>,
) -> bool {
    &&& forall|i: int, j: int|
        0 <= i < j < list.len() ==> bytes_less(#[trigger] list[i].0, #[trigger] list[j].0)
    &&& forall|i: int|
        0 <= i < list.len() ==> m.dom().contains(#[trigger] list[i].0) && m[list[i].0]
            == list[i].1
    &&& forall|k: Seq<u8>| #[trigger]
        m.dom().contains(k) ==> exists|i: int| 0 <= i < list.len() && #[trigger] list[i].0 == k
}

/// The variables after some edits: a value sets its key, `None` removes it.
pub open spec fn edited(
    m: Map<Seq<u8>, Seq<u8>>,
    edits: Seq<(Seq<u8>, Option<Seq<u8>>)>,
) -> Map<Seq<u8>, Seq<u8>>
    decreases edits.len(),
{
    if edits.len() == 0 {
        m
    } else {
        let before = edited(m, edits.drop_last());
        match edits.last().1 {
            Some(v) => before.insert(edits.last().0, v),
            None => before.remove(edits.last().0),
        }
    }
}

/// The edits that set every pair of `list`.
pub open spec fn settings(list: Seq<(Seq<u8>, Seq<u8>)>) -> Seq<(Seq<u8>, Option<Seq<u8>>)> {
    list.map_values(|e: (Seq<u8>, Seq<u8>)| (e.0, Some(e.1)))
}

/// The position at which `key` stands or would be put.
fn position_of(list: &Vec<(Vec<u8>, Vec<u8>)>, key: &[u8], Ghost(m): Ghost<Map<Seq<u8>, Seq<u8>>>) -> (r: (
    usize,
    bool,
))
    requires
        is_listing(pairs_view(list@), m),
    ensures
        r.0 <= list@.len(),
        r.1 == m.dom().contains(key@),
        r.1 ==> r.0 < list@.len() && pairs_view(list@)[r.0 as int].0 == key@,
        forall|j: int| 0 <= j < r.0 ==> bytes_less(#[trigger] pairs_view(list@)[j].0, key@),
        !r.1 ==> forall|j: int|
            r.0 <= j < list@.len() ==> bytes_less(key@, #[trigger] pairs_view(list@)[j].0),
{
    let ghost view = pairs_view(list@);
    let mut i: usize = 0;
    while i < list.len() && is_bytes_less(&list[i].0, key)
        invariant
            i <= list.len(),
            view == pairs_view(list@),
            forall|j: int| 0 <= j < i ==> bytes_less(#[trigger] view[j].0, key@),
        decreases list.len() - i,
    {
        assert(view[i as int].0 == list@[i as int].0@);
        i = i + 1;
    }
    let found: bool = if i < list.len() {
        !is_bytes_less(key, &list[i].0)
    } else {
        false
    };
    proof {
        if i < list.len() {
            assert(view[i as int].0 == list@[i as int].0@);
            lemma_bytes_less_total(key@, view[i as int].0);
        }
        if !found {
            assert forall|j: int| i <= j < list@.len() implies bytes_less(
                key@,
                #[trigger] view[j].0,
            ) by {
                if j > i {
                    lemma_bytes_less_trans(key@, view[i as int].0, view[j].0);
                }
            }
            if m.dom().contains(key@) {
                let j = choose|j: int| 0 <= j < view.len() && #[trigger] view[j].0 == key@;
                lemma_bytes_less_total(key@, key@);
                assert(false);
            }
        }
    }
    (i, found)
}

/// Applies one edit to a sorted list of variables.
fn apply_edit(
    list: &mut Vec<(Vec<u8>, Vec<u8>)>,
    key: &[u8],
    value: &Option<Vec<u8>>,
    Ghost(m): Ghost<Map<Seq<u8>, Seq<u8>>>,
)
    requires
        is_listing(pairs_view(old(list)@), m),
    ensures
        is_listing(
            pairs_view(final(list)@),
            match optional_view(*value) {
                Some(v) => m.insert(key@, v),
                None => m.remove(key@),
            },
        ),
{
    let ghost before = pairs_view(list@);
    let (at, found) = position_of(list, key, Ghost(m));
    let ghost after = match optional_view(*value) {
        Some(v) => m.insert(key@, v),
        None => m.remove(key@),
    };
    match value {
        Some(v) => {
            let item = (copy_bytes(key), copy_bytes(v));
            if found {
                list.set(at, item);
                proof {
                    let now = pairs_view(list@);
                    assert(now =~= before.update(at as int, (key@, v@)));
                    assert forall|i: int| 0 <= i < now.len() implies after.dom().contains(
                        #[trigger] now[i].0,
                    ) && after[now[i].0] == now[i].1 by {
                        if i != at {
                            assert(before[i].0 == now[i].0);
                            lemma_bytes_less_total(before[i].0, before[at as int].0);
                        }
                    }
                    assert forall|k: Seq<u8>| #[trigger] after.dom().contains(k) implies exists|i: int|
                        0 <= i < now.len() && #[trigger] now[i].0 == k by {
                        if k == key@ {
                            assert(now[at as int].0 == k);
                        } else {
                            assert(m.dom().contains(k));
                            let i = choose|i: int| 0 <= i < before.len() && #[trigger] before[i].0 == k;
                            assert(now[i].0 == k);
                        }
                    }
                    assert forall|i: int, j: int| 0 <= i < j < now.len() implies bytes_less(
                        #[trigger] now[i].0,
                        #[trigger] now[j].0,
                    ) by {
                        assert(now[i].0 == before[i].0 && now[j].0 == before[j].0);
                    }
                }
            } else {
                list.insert(at, item);
                proof {
                    let now = pairs_view(list@);
                    assert(now =~= before.insert(at as int, (key@, v@)));
                    assert forall|i: int, j: int| 0 <= i < j < now.len() implies bytes_less(
                        #[trigger] now[i].0,
                        #[trigger] now[j].0,
                    ) by {
                        if i < at {
                            assert(now[i] == before[i]);
                        } else if i > at {
                            assert(now[i] == before[i - 1]);
                        }
                        if j < at {
                            assert(now[j] == before[j]);
                        } else if j > at {
                            assert(now[j] == before[j - 1]);
                        }
                    }
                    assert forall|i: int| 0 <= i < now.len() implies after.dom().contains(
                        #[trigger] now[i].0,
                    ) && after[now[i].0] == now[i].1 by {
                        if i < at {
                            assert(now[i] == before[i]);
                        } else if i > at {
                            assert(now[i] == before[i - 1]);
                        }
                    }
                    assert forall|k: Seq<u8>| #[trigger] after.dom().contains(k) implies exists|i: int|
                        0 <= i < now.len() && #[trigger] now[i].0 == k by {
                        if k == key@ {
                            assert(now[at as int].0 == k);
                        } else {
                            assert(m.dom().contains(k));
                            let i = choose|i: int| 0 <= i < before.len() && #[trigger] before[i].0 == k;
                            if i < at {
                                assert(now[i].0 == k);
                            } else {
                                assert(now[i + 1].0 == k);
                            }
                        }
                    }
                }
            }
        },
        None => if found {
            list.remove(at);
            proof {
                let now = pairs_view(list@);
                assert(now =~= before.remove(at as int));
                assert forall|i: int, j: int| 0 <= i < j < now.len() implies bytes_less(
                    #[trigger] now[i].0,
                    #[trigger] now[j].0,
                ) by {
                    assert(now[i] == before[if i < at { i } else { i + 1 }]);
                    assert(now[j] == before[if j < at { j } else { j + 1 }]);
                }
                assert forall|i: int| 0 <= i < now.len() implies after.dom().contains(
                    #[trigger] now[i].0,
                ) && after[now[i].0] == now[i].1 by {
                    let k = if i < at { i } else { i + 1 };
                    assert(now[i] == before[k]);
                    lemma_bytes_less_total(before[k].0, before[at as int].0);
                }
                assert forall|k: Seq<u8>| #[trigger] after.dom().contains(k) implies exists|i: int|
                    0 <= i < now.len() && #[trigger] now[i].0 == k by {
                    assert(m.dom().contains(k));
                    let i = choose|i: int| 0 <= i < before.len() && #[trigger] before[i].0 == k;
                    if i < at {
                        assert(now[i].0 == k);
                    } else {
                        assert(now[i - 1].0 == k);
                    }
                }
            }
        } else {
            assert(after =~= m);
        },
    }
}

/// The sorted variables that edits leave, applied to an inherited list whose
/// later entries win.
pub fn merge_environment(
    inherited: &Vec<(Vec<u8>, Vec<u8>)>,
    overrides: &Vec<(Vec<u8>, Option<Vec<u8>>)>,
) -> (list: Vec<(Vec<u8>, Vec<u8>)>)
    ensures
        is_listing(
            pairs_view(list@),
            edited(
                edited(Map::empty(), settings(pairs_view(inherited@))),
                edits_view(overrides@),
            ),
        ),
{
    let ghost base = settings(pairs_view(inherited@));
    let ghost edits = edits_view(overrides@);
    let mut list: Vec<(Vec<u8>, Vec<u8>)> = Vec::new();
    let mut i: usize = 0;
    assert(base.take(0) =~= Seq::<(Seq<u8>, Option<Seq<u8>>)>::empty());
    while i < inherited.len()
        invariant
            i <= inherited.len(),
            base == settings(pairs_view(inherited@)),
            is_listing(pairs_view(list@), edited(Map::empty(), base.take(i as int))),
        decreases inherited.len() - i,
    {
        let (key, value) = &inherited[i];
        let setting: Option<Vec<u8>> = Some(copy_bytes(value));
        apply_edit(&mut list, key, &setting, Ghost(edited(Map::empty(), base.take(i as int))));
        proof {
            let next = base.take(i as int + 1);
            assert(next.drop_last() =~= base.take(i as int));
            assert(next.last() == (key@, Some(value@)));
        }
        i = i + 1;
    }
    assert(base.take(base.len() as int) =~= base);
    let ghost start = edited(Map::empty(), base);
    let mut j: usize = 0;
    assert(edits.take(0) =~= Seq::<(Seq<u8>, Option<Seq<u8>>)>::empty());
    while j < overrides.len()
        invariant
            j <= overrides.len(),
            edits == edits_view(overrides@),
            is_listing(pairs_view(list@), edited(start, edits.take(j as int))),
        decreases overrides.len() - j,
    {
        let (key, value) = &overrides[j];
        apply_edit(&mut list, key, value, Ghost(edited(start, edits.take(j as int))));
        proof {
            let next = edits.take(j as int + 1);
            assert(next.drop_last() =~= edits.take(j as int));
            assert(next.last() == (key@, optional_view(*value)));
        }
        j = j + 1;
    }
    assert(edits.take(edits.len() as int) =~= edits);
    list
}

/// A Unix path resolved against a directory.
pub open spec fn joined(directory: Seq<u8>, path: Seq<u8>) -> Seq<u8> {
    if absolute(path) {
        path
    } else if directory.len() > 0 && directory.last() != 47 {
        directory.push(47) + path
    } else {
        directory + path
    }
}

/// Resolves a Unix path against a directory.
pub fn join_path(directory: &[u8], path: &[u8]) -> (out: Vec<u8>)
    ensures
        out@ == joined(directory@, path@),
{
    if path.len() > 0 && path[0] == 47 {
        return copy_bytes(path);
    }
    let mut out = copy_bytes(directory);
    if directory.len() > 0 && directory[directory.len() - 1] != 47 {
        out.push(47);
    }
    crate::wire::append_bytes(&mut out, path);
    out
}

/// What a configured command carries: everything that a launch request takes
/// from it.
#[derive(Clone, Debug, PartialEq, Eq)]
pub struct CommandImage {
    /// Program to run.
    pub program: Vec<u8>,
    /// Arguments, without the program name.
    pub args: Vec<Vec<u8>>,
    /// Working directory that was set, if any.
    pub current_dir: Option<Vec<u8>>,
    /// Environment edits that were made; `None` removes the key.
    pub envs: Vec<(Vec<u8>, Option<Vec<u8>>)>,
}

/// The variables a launched Unix command starts with.
pub open spec fn launch_environment(
    command: CommandImage,
    inherit: bool,
    snapshot: Seq<(Vec<u8>, Vec<u8>)>,
) -> Map<Seq<u8>, Seq<u8>> {
    let base = if inherit {
        edited(Map::empty(), settings(pairs_view(snapshot)))
    } else {
        Map::empty()
    };
    edited(base, edits_view(command.envs@))
}

/// The Unix request for a command whose variables are `list`.
pub open spec fn unix_request(
    command: CommandImage,
    caller_directory: Seq<u8>,
    list: Seq<(Seq<u8>, Seq<u8>)>,
) -> RequestModel {
    RequestModel {
        program: command.program@,
        args: list_view(command.args@),
        cwd: Some(
            match optional_view(command.current_dir) {
                Some(path) => joined(caller_directory, path),
                None => caller_directory,
            },
        ),
        environment: settings(list),
    }
}

/// The Windows request for a command: the snapshot, then the edits in order, so
/// that the command builder resolves keys without regard to case.
pub open spec fn windows_request(
    command: CommandImage,
    inherit: bool,
    snapshot: Seq<(Vec<u8>, Vec<u8>)>,
    cwd: Seq<u8>,
) -> RequestModel {
    RequestModel {
        program: command.program@,
        args: list_view(command.args@),
        cwd: Some(cwd),
        environment: (if inherit {
            settings(pairs_view(snapshot))
        } else {
            Seq::empty()
        }) + edits_view(command.envs@),
    }
}

fn copy_list(list: &Vec<Vec<u8>>) -> (out: Vec<Vec<u8>>)
    ensures
        list_view(out@) == list_view(list@),
{
    let mut out: Vec<Vec<u8>> = Vec::new();
    let mut i: usize = 0;
    while i < list.len()
        invariant
            i <= list.len(),
            list_view(out@) == list_view(list@).take(i as int),
        decreases list.len() - i,
    {
        let ghost before = list_view(out@);
        out.push(copy_bytes(&list[i]));
        proof {
            assert(list_view(out@) =~= before.push(list@[i as int]@));
            assert(list_view(list@).take(i as int + 1) =~= list_view(list@).take(i as int).push(
                list@[i as int]@,
            ));
        }
        i = i + 1;
    }
    assert(list_view(list@).take(list@.len() as int) =~= list_view(list@));
    out
}

/// Appends pairs as settings.
fn append_settings(
    out: &mut Vec<(Vec<u8>, Option<Vec<u8>>)>,
    list: &Vec<(Vec<u8>, Vec<u8>)>,
)
    ensures
        edits_view(final(out)@) == edits_view(old(out)@) + settings(pairs_view(list@)),
{
    let ghost goal = settings(pairs_view(list@));
    let mut i: usize = 0;
    assert(edits_view(out@) =~= edits_view(old(out)@) + goal.take(0));
    while i < list.len()
        invariant
            i <= list.len(),
            goal == settings(pairs_view(list@)),
            edits_view(out@) == edits_view(old(out)@) + goal.take(i as int),
        decreases list.len() - i,
    {
        let ghost before = edits_view(out@);
        let (key, value) = &list[i];
        let ghost item = (key@, Some(value@));
        out.push((copy_bytes(key), Some(copy_bytes(value))));
        proof {
            assert(edits_view(out@) =~= before.push(item));
            assert(goal[i as int] == item);
            assert(edits_view(out@) =~= edits_view(old(out)@) + goal.take(i as int + 1));
        }
        i = i + 1;
    }
    assert(goal.take(goal.len() as int) =~= goal);
}

/// Appends edits.
fn append_edits(
    out: &mut Vec<(Vec<u8>, Option<Vec<u8>>)>,
    list: &Vec<(Vec<u8>, Option<Vec<u8>>)>,
)
    ensures
        edits_view(final(out)@) == edits_view(old(out)@) + edits_view(list@),
{
    let ghost goal = edits_view(list@);
    let mut i: usize = 0;
    assert(edits_view(out@) =~= edits_view(old(out)@) + goal.take(0));
    while i < list.len()
        invariant
            i <= list.len(),
            goal == edits_view(list@),
            edits_view(out@) == edits_view(old(out)@) + goal.take(i as int),
        decreases list.len() - i,
    {
        let ghost before = edits_view(out@);
        let (key, value) = &list[i];
        let copy: Option<Vec<u8>> = match value {
            Some(v) => Some(copy_bytes(v)),
            None => None,
        };
        let ghost item = (key@, optional_view(copy));
        out.push((copy_bytes(key), copy));
        proof {
            assert(edits_view(out@) =~= before.push(item));
            assert(goal[i as int] == item);
            assert(edits_view(out@) =~= edits_view(old(out)@) + goal.take(i as int + 1));
        }
        i = i + 1;
    }
    assert(goal.take(goal.len() as int) =~= goal);
}

impl LaunchRequest {
    /// Builds the request for a Unix command. The environment starts from the
    /// snapshot when it is inherited, takes the command's edits, and is listed
    /// in key order. A relative or missing working directory is resolved
    /// against the caller's.
    pub fn from_command(
        command: &CommandImage,
        inherit_environment: bool,
        snapshot: &Vec<(Vec<u8>, Vec<u8>)>,
        caller_directory: &[u8],
    ) -> (r: Result<LaunchRequest, LaunchRequestError>)
        ensures
            exists|list: Seq<(Seq<u8>, Seq<u8>)>|
                #![trigger unix_request(*command, caller_directory@, list)]
                {
                    let model = unix_request(*command, caller_directory@, list);
                    &&& is_listing(
                        list,
                        launch_environment(*command, inherit_environment, snapshot@),
                    )
                    &&& match r {
                        Ok(v) => v@ == model && request_error(Platform::Unix, model) is None,
                        Err(e) => request_error(Platform::Unix, model) == Some(e),
                    }
                },
    {
        let none: Vec<(Vec<u8>, Vec<u8>)> = Vec::new();
        proof {
            assert(settings(pairs_view(none@)) =~= Seq::<(Seq<u8>, Option<Seq<u8>>)>::empty());
        }
        let list = if inherit_environment {
            merge_environment(snapshot, &command.envs)
        } else {
            merge_environment(&none, &command.envs)
        };
        let cwd: Vec<u8> = match &command.current_dir {
            Some(path) => join_path(caller_directory, path),
            None => copy_bytes(caller_directory),
        };
        let mut environment: Vec<(Vec<u8>, Option<Vec<u8>>)> = Vec::new();
        append_settings(&mut environment, &list);
        let request = LaunchRequest {
            program: copy_bytes(&command.program),
            args: copy_list(&command.args),
            cwd: Some(cwd),
            environment,
        };
        let ghost model = unix_request(*command, caller_directory@, pairs_view(list@));
        assert(request@ =~= model);
        request.validate(Platform::Unix)?;
        Ok(request)
    }

    /// Builds the request for a Windows command. `cwd` is the working directory
    /// after resolution against the caller's.
    pub fn from_windows_command(
        command: &CommandImage,
        inherit_environment: bool,
        snapshot: &Vec<(Vec<u8>, Vec<u8>)>,
        cwd: &[u8],
    ) -> (r: Result<LaunchRequest, LaunchRequestError>)
        ensures
            ({
                let model = windows_request(*command, inherit_environment, snapshot@, cwd@);
                match r {
                    Ok(v) => v@ == model && request_error(Platform::Windows, model) is None,
                    Err(e) => request_error(Platform::Windows, model) == Some(e),
                }
            }),
    {
        let mut environment: Vec<(Vec<u8>, Option<Vec<u8>>)> = Vec::new();
        if inherit_environment {
            append_settings(&mut environment, snapshot);
        }
        append_edits(&mut environment, &command.envs);
        let request = LaunchRequest {
            program: copy_bytes(&command.program),
            args: copy_list(&command.args),
            cwd: Some(copy_bytes(cwd)),
            environment,
        };
        let ghost model = windows_request(*command, inherit_environment, snapshot@, cwd@);
        assert(request@ =~= model);
        request.validate(Platform::Windows)?;
        Ok(request)
    }
}

/// What the operating system reports of an artifact.
#[derive(Clone, Copy, Debug, PartialEq, Eq, Structural)]
pub struct ArtifactFacts {
    /// It is a directory.
    pub is_dir: bool,
    /// It is a regular file.
    pub is_file: bool,
    /// It is a symbolic link.
    pub is_symlink: bool,
    /// User that owns it.
    pub owner: u32,
    /// Its mode bits.
    pub mode: u32,
    /// Number of names that it has.
    pub links: u64,
    /// Its length in bytes.
    pub length: u64,
}

/// Why an artifact was refused.
#[derive(Clone, Copy, Debug, PartialEq, Eq, Structural)]
pub enum ArtifactError {
    /// The directory that holds the request is open to others.
    DirectoryNotPrivate,
    /// The request is not a private regular file.
    FileNotPrivate,
    /// The directory that was just created is not the owner's.
    CreatedDirectoryNotPrivate,
    /// The request file is larger than a request can be.
    TooLarge,
    /// The request file does not decode.
    Malformed(LaunchRequestError),
}

impl ArtifactError {
    /// The class of this error.
    pub open spec fn spec_kind(self) -> ErrorKind {
        match self {
            ArtifactError::TooLarge => ErrorKind::InvalidData,
            ArtifactError::Malformed(e) => e.spec_kind(),
            _ => ErrorKind::PermissionDenied,
        }
    }

    /// The class of this error.
    pub fn kind(&self) -> (k: ErrorKind)
        ensures
            k == self.spec_kind(),
    {
        match self {
            ArtifactError::TooLarge => ErrorKind::InvalidData,
            ArtifactError::Malformed(e) => e.kind(),
            _ => ErrorKind::PermissionDenied,
        }
    }

    /// The text of this error.
    pub open spec fn spec_message(self) -> Seq<char> {
        match self {
            ArtifactError::DirectoryNotPrivate => "request directory is not owner-private"@,
            ArtifactError::FileNotPrivate => "request is not an owner-private regular file"@,
            ArtifactError::CreatedDirectoryNotPrivate =>
                "independent request directory is not owner-private"@,
            ArtifactError::TooLarge => "independent request exceeds 16 MiB"@,
            ArtifactError::Malformed(e) => e.spec_message(),
        }
    }

    /// The text of this error.
    pub fn message(&self) -> (m: &'static str)
        ensures
            m@ == self.spec_message(),
    {
        match self {
            ArtifactError::DirectoryNotPrivate => "request directory is not owner-private",
            ArtifactError::FileNotPrivate => "request is not an owner-private regular file",
            ArtifactError::CreatedDirectoryNotPrivate =>
                "independent request directory is not owner-private",
            ArtifactError::TooLarge => "independent request exceeds 16 MiB",
            ArtifactError::Malformed(e) => e.message(),
        }
    }
}

/// Whether mode bits grant anything to group or others.
pub open spec fn open_to_others(mode: u32) -> bool {
    mode & 0o077 != 0
}

/// Whether a directory may hold a request of `user`.
pub open spec fn private_directory(facts: ArtifactFacts, user: u32) -> bool {
    facts.is_dir && facts.owner == user && !open_to_others(facts.mode)
}

/// Whether a file may be read as a request of `user`.
pub open spec fn private_file(facts: ArtifactFacts, user: u32) -> bool {
    facts.is_file && facts.owner == user && !open_to_others(facts.mode) && facts.links == 1
}

/// Checks the directory that holds a request, before the request is opened.
pub fn check_request_directory(facts: &ArtifactFacts, user: u32) -> (r: Result<(), ArtifactError>)
    ensures
        r == (if private_directory(*facts, user) {
            Ok::<(), ArtifactError>(())
        } else {
            Err(ArtifactError::DirectoryNotPrivate)
        }),
{
    if !facts.is_dir || facts.owner != user || facts.mode & 0o077 != 0 {
        return Err(ArtifactError::DirectoryNotPrivate);
    }
    Ok(())
}

/// Checks an opened request file, before it is read.
pub fn check_request_file(facts: &ArtifactFacts, user: u32) -> (r: Result<(), ArtifactError>)
    ensures
        r == (if !private_file(*facts, user) {
            Err::<(), ArtifactError>(ArtifactError::FileNotPrivate)
        } else if facts.length > MAX_REQUEST_BYTES {
            Err(ArtifactError::TooLarge)
        } else {
            Ok(())
        }),
{
    if !facts.is_file || facts.owner != user || facts.mode & 0o077 != 0 || facts.links != 1 {
        return Err(ArtifactError::FileNotPrivate);
    }
    if facts.length > MAX_REQUEST_BYTES as u64 {
        return Err(ArtifactError::TooLarge);
    }
    Ok(())
}

/// Checks a directory that was just created for a request.
pub fn check_created_directory(facts: &ArtifactFacts, user: u32) -> (r: Result<(), ArtifactError>)
    ensures
        r == (if facts.is_dir && !facts.is_symlink && facts.owner == user {
            Ok::<(), ArtifactError>(())
        } else {
            Err(ArtifactError::CreatedDirectoryNotPrivate)
        }),
{
    if !facts.is_dir || facts.is_symlink || facts.owner != user {
        return Err(ArtifactError::CreatedDirectoryNotPrivate);
    }
    Ok(())
}

/// Accepts or refuses a request that was found on disk: the directory, then the
/// file, then its bytes.
pub fn read_private_request(
    directory: &ArtifactFacts,
    file: &ArtifactFacts,
    user: u32,
    bytes: &[u8],
) -> (r: Result<LaunchRequest, ArtifactError>)
    ensures
        match r {
            Ok(v) => private_directory(*directory, user) && private_file(*file, user) && file.length
                <= MAX_REQUEST_BYTES && crate::independent_transport::parse_request(
                Platform::Unix,
                bytes@,
            ) == Ok::<RequestModel, LaunchRequestError>(v@),
            Err(ArtifactError::DirectoryNotPrivate) => !private_directory(*directory, user),
            Err(ArtifactError::FileNotPrivate) => private_directory(*directory, user)
                && !private_file(*file, user),
            Err(ArtifactError::TooLarge) => private_directory(*directory, user) && private_file(
                *file,
                user,
            ) && file.length > MAX_REQUEST_BYTES,
            Err(ArtifactError::Malformed(e)) => private_directory(*directory, user) && private_file(
                *file,
                user,
            ) && file.length <= MAX_REQUEST_BYTES && crate::independent_transport::parse_request(
                Platform::Unix,
                bytes@,
            ) == Err::<RequestModel, LaunchRequestError>(e),
            Err(ArtifactError::CreatedDirectoryNotPrivate) => false,
        },
{
    check_request_directory(directory, user)?;
    check_request_file(file, user)?;
    match LaunchRequest::decode(Platform::Unix, bytes) {
        Ok(request) => Ok(request),
        Err(e) => Err(ArtifactError::Malformed(e)),
    }
}

/// The bytes to put into a new request file; nothing is created for a request
/// that cannot be launched.
pub fn write_private_request(request: &LaunchRequest) -> (r: Result<Vec<u8>, LaunchRequestError>)
    ensures
        match r {
            Ok(bytes) => request_error(Platform::Unix, request@) is None && bytes@
                == crate::independent_transport::encoding(Platform::Unix, request@),
            Err(e) => request_error(Platform::Unix, request@) == Some(e),
        },
{
    request.validate(Platform::Unix)?;
    Ok(request.encode(Platform::Unix))
}

/// What [`write_private_request`] gives is what [`read_private_request`] accepts,
/// and the request comes back unchanged.
pub proof fn law_written_request_reads_back(
    request: RequestModel,
    directory: ArtifactFacts,
    file: ArtifactFacts,
    user: u32,
)
    requires
        request_error(Platform::Unix, request) is None,
        private_directory(directory, user),
        private_file(file, user),
        file.length == crate::independent_transport::encoding(Platform::Unix, request).len(),
    ensures
        file.length <= MAX_REQUEST_BYTES,
        crate::independent_transport::parse_request(
            Platform::Unix,
            crate::independent_transport::encoding(Platform::Unix, request),
        ) == Ok::<RequestModel, LaunchRequestError>(request),
{
    crate::independent_transport::law_decode_inverts_encode(Platform::Unix, request);
}

/// Name of the directory that holds one request.
pub open spec fn request_directory(pid: nat, nonce: nat) -> Seq<char> {
    "running-process-independent-"@ + decimal(pid) + "-"@ + decimal(nonce)
}

/// Renders [`request_directory`].
pub fn request_directory_name(pid: u32, nonce: u128) -> (out: String)
    ensures
        out@ == request_directory(pid as nat, nonce as nat),
{
    let mut out: String = String::new();
    out.append("running-process-independent-");
    append_decimal(&mut out, pid as u128);
    out.append("-");
    append_decimal(&mut out, nonce);
    assert(out@ =~= request_directory(pid as nat, nonce as nat));
    out
}

/// Why bytes are not a Windows string.
#[derive(Clone, Copy, Debug, PartialEq, Eq, Structural)]
pub enum WindowsStringError {
    /// The bytes do not pair up into code units.
    OddLength,
    /// A code unit is zero.
    Nul,
}

/// The little-endian bytes of code units.
pub open spec fn unit_bytes(units: Seq<u16>) -> Seq<u8> {
    Seq::new(
        2 * units.len(),
        |i: int|
            if i % 2 == 0 {
                (units[i / 2] % 256) as u8
            } else {
                (units[i / 2] / 256) as u8
            },
    )
}

/// The code units of little-endian bytes.
pub open spec fn byte_units(bytes: Seq<u8>) -> Seq<u16> {
    Seq::new(
        bytes.len() / 2,
        |i: int| crate::independent_transport::code_unit(bytes, i),
    )
}

/// Lays code units out as little-endian bytes.
pub fn windows_string_bytes(units: &[u16]) -> (out: Vec<u8>)
    ensures
        out@ == unit_bytes(units@),
{
    let mut out: Vec<u8> = Vec::new();
    let mut i: usize = 0;
    assert(unit_bytes(units@).take(0) =~= Seq::<u8>::empty());
    while i < units.len()
        invariant
            i <= units.len(),
            out@ == unit_bytes(units@).take(2 * i),
        decreases units.len() - i,
    {
        out.push((units[i] % 256) as u8);
        out.push((units[i] / 256) as u8);
        assert(out@ =~= unit_bytes(units@).take(2 * (i + 1)));
        i = i + 1;
    }
    assert(unit_bytes(units@).take(2 * units@.len() as int) =~= unit_bytes(units@));
    out
}

/// Reads code units from little-endian bytes; a zero unit is refused.
pub fn windows_string_from_bytes(value: &[u8]) -> (r: Result<Vec<u16>, WindowsStringError>)
    ensures
        match r {
            Ok(units) => launchable(Platform::Windows, value@) && units@ == byte_units(value@),
            Err(WindowsStringError::OddLength) => value@.len() % 2 != 0,
            Err(WindowsStringError::Nul) => value@.len() % 2 == 0 && !launchable(
                Platform::Windows,
                value@,
            ),
        },
{
    if value.len() % 2 != 0 {
        return Err(WindowsStringError::OddLength);
    }
    let mut units: Vec<u16> = Vec::new();
    let mut zero: bool = false;
    let count: usize = value.len() / 2;
    let mut i: usize = 0;
    while i < count
        invariant
            i <= count,
            count == value@.len() / 2,
            value@.len() % 2 == 0,
            units@ == byte_units(value@).take(i as int),
            zero == exists|j: int|
                0 <= j < i && #[trigger] crate::independent_transport::code_unit(value@, j) == 0,
        decreases count - i,
    {
        let _len: usize = value.len();
        let unit: u16 = value[2 * i] as u16 + 256 * (value[2 * i + 1] as u16);
        assert(unit == crate::independent_transport::code_unit(value@, i as int));
        units.push(unit);
        assert(units@ =~= byte_units(value@).take(i as int + 1));
        if unit == 0 {
            zero = true;
        }
        i = i + 1;
    }
    assert(byte_units(value@).take(count as int) =~= byte_units(value@));
    if zero {
        return Err(WindowsStringError::Nul);
    }
    Ok(units)
}

/// Code units survive the way through bytes and back, isolated surrogates
/// included.
pub proof fn law_windows_string_round_trip(units: Seq<u16>)
    requires
        !units.contains(0u16),
    ensures
        launchable(Platform::Windows, unit_bytes(units)),
        byte_units(unit_bytes(units)) == units,
{
    let bytes = unit_bytes(units);
    assert forall|i: int| 0 <= i < units.len() implies #[trigger] crate::independent_transport::code_unit(
        bytes,
        i,
    ) == units[i] by {
        assert(bytes[2 * i] == (units[i] % 256) as u8);
        assert(bytes[2 * i + 1] == (units[i] / 256) as u8);
    }
    assert(byte_units(bytes) =~= units);
}

/// An absolute path stays as it is. A relative one is put behind the directory, with one
/// slash between them.
pub proof fn law_joined_paths(directory: Seq<u8>, path: Seq<u8>)
    ensures
        path.len() > 0 && path[0] == '/' as u8 ==> joined(directory, path) == path,
        !(path.len() > 0 && path[0] == '/' as u8) ==> {
            let whole = joined(directory, path);
            let slash: int = if directory.len() > 0 && directory.last() != '/' as u8 {
                1
            } else {
                0
            };
            &&& whole.len() == directory.len() + slash + path.len()
            &&& directory.is_prefix_of(whole)
            &&& path.is_suffix_of(whole)
            &&& slash == 1 ==> whole[directory.len() as int] == '/' as u8
        },
{
    if !absolute(path) {
        let whole = joined(directory, path);
        assert(whole.subrange(0, directory.len() as int) =~= directory);
        assert(whole.subrange(whole.len() - path.len(), whole.len() as int) =~= path);
    }
}

/// The last edit of a key decides: a value sets it, none removes it, and every other key
/// stays as it was.
pub proof fn law_last_edit_decides(
    m: Map<Seq<u8>, Seq<u8>>,
    edits: Seq<(Seq<u8>, Option<Seq<u8>>)>,
    key: Seq<u8>,
    value: Seq<u8>,
    other: Seq<u8>,
)
    requires
        other != key,
    ensures
        edited(m, Seq::empty()) == m,
        edited(m, edits.push((key, Some(value)))).dom().contains(key),
        edited(m, edits.push((key, Some(value))))[key] == value,
        !edited(m, edits.push((key, None))).dom().contains(key),
        edited(m, edits.push((key, Some(value)))).dom().contains(other) == edited(
            m,
            edits,
        ).dom().contains(other),
        edited(m, edits.push((key, None))).dom().contains(other) == edited(m, edits).dom().contains(
            other,
        ),
        edited(m, edits).dom().contains(other) ==> edited(m, edits.push((key, Some(value))))[other]
            == edited(m, edits)[other] && edited(m, edits.push((key, None)))[other] == edited(
            m,
            edits,
        )[other],
{
    assert(edits.push((key, Some(value))).drop_last() =~= edits);
    assert(edits.push((key, None)).drop_last() =~= edits);
}

proof fn lemma_unedited(
    m: Map<Seq<u8>, Seq<u8>>,
    edits: Seq<(Seq<u8>, Option<Seq<u8>>)>,
    key: Seq<u8>,
)
    requires
        forall|i: int| 0 <= i < edits.len() ==> (#[trigger] edits[i]).0 != key,
    ensures
        edited(m, edits).dom().contains(key) == m.dom().contains(key),
        m.dom().contains(key) ==> edited(m, edits)[key] == m[key],
    decreases edits.len(),
{
    if edits.len() > 0 {
        assert(edits.last().0 != key);
        lemma_unedited(m, edits.drop_last(), key);
    }
}

proof fn lemma_edited_last(
    m: Map<Seq<u8>, Seq<u8>>,
    edits: Seq<(Seq<u8>, Option<Seq<u8>>)>,
    i: int,
)
    requires
        0 <= i < edits.len(),
        forall|j: int| i < j < edits.len() ==> (#[trigger] edits[j]).0 != edits[i].0,
    ensures
        match edits[i].1 {
            Some(v) => edited(m, edits).dom().contains(edits[i].0) && edited(m, edits)[edits[i].0]
                == v,
            None => !edited(m, edits).dom().contains(edits[i].0),
        },
    decreases edits.len(),
{
    if i < edits.len() - 1 {
        let front = edits.drop_last();
        assert(edits.last().0 != edits[i].0);
        assert(front[i] == edits[i]);
        lemma_edited_last(m, front, i);
    }
}

/// A launched command starts with its own edits on top of the caller's environment, or
/// of nothing where that is not inherited: the last edit of a key decides, and a key
/// that no edit names is inherited with its last value or not there at all.
pub proof fn law_launch_environment(
    command: CommandImage,
    inherit: bool,
    snapshot: Seq<(Vec<u8>, Vec<u8>)>,
    key: Seq<u8>,
    i: int,
)
    ensures
        ({
            let env = launch_environment(command, inherit, snapshot);
            let edits = edits_view(command.envs@);
            let base = pairs_view(snapshot);
            &&& 0 <= i < edits.len() && (forall|j: int|
                i < j < edits.len() ==> (#[trigger] edits[j]).0 != edits[i].0) ==> match edits[i].1 {
                Some(value) => env.dom().contains(edits[i].0) && env[edits[i].0] == value,
                None => !env.dom().contains(edits[i].0),
            }
            &&& (forall|j: int| 0 <= j < edits.len() ==> (#[trigger] edits[j]).0 != key) ==> {
                &&& !inherit ==> !env.dom().contains(key)
                &&& inherit && 0 <= i < base.len() && base[i].0 == key && (forall|j: int|
                    i < j < base.len() ==> (#[trigger] base[j]).0 != key) ==> env.dom().contains(
                    key,
                ) && env[key] == base[i].1
                &&& inherit && (forall|j: int| 0 <= j < base.len() ==> (#[trigger] base[j]).0 != key)
                    ==> !env.dom().contains(key)
            }
        }),
{
    let edits = edits_view(command.envs@);
    let list = settings(pairs_view(snapshot));
    let base = pairs_view(snapshot);
    let start = if inherit {
        edited(Map::empty(), list)
    } else {
        Map::empty()
    };
    if 0 <= i < edits.len() && (forall|j: int|
        i < j < edits.len() ==> (#[trigger] edits[j]).0 != edits[i].0) {
        lemma_edited_last(start, edits, i);
    }
    if forall|j: int| 0 <= j < edits.len() ==> (#[trigger] edits[j]).0 != key {
        lemma_unedited(start, edits, key);
        if inherit && 0 <= i < base.len() && base[i].0 == key && (forall|j: int|
            i < j < base.len() ==> (#[trigger] base[j]).0 != key) {
            assert forall|j: int| i < j < list.len() implies (#[trigger] list[j]).0 != list[i].0 by {
                assert(list[j].0 == base[j].0);
            }
            lemma_edited_last(Map::empty(), list, i);
        }
        if inherit && (forall|j: int| 0 <= j < base.len() ==> (#[trigger] base[j]).0 != key) {
            assert forall|j: int| 0 <= j < list.len() implies (#[trigger] list[j]).0 != key by {
                assert(list[j].0 == base[j].0);
            }
            lemma_unedited(Map::empty(), list, key);
        }
    }
}

/// A request runs the program with its arguments, in the directory that was set or else
/// in the caller's. A Windows request lists what is inherited before the edits.
pub proof fn law_requests_run_the_command(
    command: CommandImage,
    caller_directory: Seq<u8>,
    list: Seq<(Seq<u8>, Seq<u8>)>,
    inherit: bool,
    snapshot: Seq<(Vec<u8>, Vec<u8>)>,
)
    ensures
        ({
            let unix = unix_request(command, caller_directory, list);
            let windows = windows_request(command, inherit, snapshot, caller_directory);
            &&& unix.program == command.program@
            &&& windows.program == command.program@
            &&& unix.args == list_view(command.args@)
            &&& windows.args == list_view(command.args@)
            &&& command.current_dir is None ==> unix.cwd == Some(caller_directory)
            &&& command.current_dir matches Some(path) ==> unix.cwd == Some(
                joined(caller_directory, path@),
            )
            &&& windows.cwd == Some(caller_directory)
            &&& unix.environment.len() == list.len()
            &&& forall|i: int|
                0 <= i < list.len() ==> (#[trigger] unix.environment[i]).0 == list[i].0
                    && unix.environment[i].1 == Some(list[i].1)
            &&& !inherit ==> windows.environment == edits_view(command.envs@)
            &&& inherit ==> windows.environment == settings(pairs_view(snapshot)) + edits_view(
                command.envs@,
            )
        }),
{
    assert(Seq::<(Seq<u8>, Option<Seq<u8>>)>::empty() + edits_view(command.envs@) =~= edits_view(
        command.envs@,
    ));
}

/// Keys are ordered by the first byte in which they differ, and a key comes before every
/// longer key that begins with it.
pub proof fn law_keys_are_ordered_by_their_bytes(front: Seq<u8>, x: u8, y: u8, a: Seq<u8>, b: Seq<u8>)
    ensures
        x < y ==> bytes_less(front + seq![x] + a, front + seq![y] + b),
        bytes_less(front, front + seq![x] + a),
        !bytes_less(front, front),
    decreases front.len(),
{
    lemma_bytes_less_irreflexive(front);
    let s = front + seq![x] + a;
    let t = front + seq![y] + b;
    if front.len() > 0 {
        law_keys_are_ordered_by_their_bytes(front.skip(1), x, y, a, b);
        assert(s.skip(1) =~= front.skip(1) + seq![x] + a);
        assert(t.skip(1) =~= front.skip(1) + seq![y] + b);
    }
}

/// A request is kept only where nobody but its owner can get at it: in a directory, and
/// as a regular file with one name, of this user, without any right for the group or
/// others.
pub proof fn law_requests_are_kept_private(facts: ArtifactFacts, user: u32)
    ensures
        ({
            let closed = facts.mode & 0o040 == 0 && facts.mode & 0o020 == 0 && facts.mode & 0o010
                == 0 && facts.mode & 0o004 == 0 && facts.mode & 0o002 == 0 && facts.mode & 0o001
                == 0;
            &&& private_directory(facts, user) <==> facts.is_dir && facts.owner == user && closed
            &&& private_file(facts, user) <==> facts.is_file && facts.owner == user && closed
                && facts.links == 1
        }),
{
    let mode = facts.mode;
    assert((mode & 0o077 == 0) <==> (mode & 0o040 == 0 && mode & 0o020 == 0 && mode & 0o010 == 0
        && mode & 0o004 == 0 && mode & 0o002 == 0 && mode & 0o001 == 0)) by (bit_vector);
}

/// A listing shows every variable once, under its key and with its value, and nothing
/// else, and the keys grow from one to the next.
pub proof fn law_listings_show_every_variable(
    list: Seq<(Seq<u8>, Seq<u8>)>,
    m: Map<Seq<u8>, Seq<u8>>,
    key: Seq<u8>,
    i: int,
    j: int,
)
    requires
        is_listing(list, m),
    ensures
        0 <= i < list.len() ==> m.dom().contains(list[i].0) && m[list[i].0] == list[i].1,
        0 <= i < j < list.len() ==> bytes_less(list[i].0, list[j].0),
        m.dom().contains(key) ==> exists|at: int|
            0 <= at < list.len() && (#[trigger] list[at]).0 == key && list[at].1 == m[key],
{
    if m.dom().contains(key) {
        let at = choose|at: int| 0 <= at < list.len() && #[trigger] list[at].0 == key;
        assert(list[at].0 == key && list[at].1 == m[key]);
    }
}

} // verus!
