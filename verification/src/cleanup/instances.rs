//! Broker instances in the local endpoint namespace.

use crate::native_path::{below, lossy_text, NativePath};
use crate::text::{chars_of, json_escape, json_escaped, string_of};
use vstd::prelude::*;
use vstd::slice::slice_subrange;
use vstd::string::*;

verus! {

/// A broker instance.
#[derive(Clone, Debug, PartialEq, Eq)]
pub struct BrokerInstance {
    /// Path of its endpoint, as it is shown.
    pub path: String,
}

/// The last part of a path in a directory.
pub open spec fn name_part(path: Seq<char>) -> Seq<char>
    decreases path.len(),
{
    if path.len() == 0 || path.last() == '/' {
        Seq::empty()
    } else {
        name_part(path.drop_last()).push(path.last())
    }
}

/// Whether a name is the endpoint of a broker.
pub open spec fn instance_name(name: Seq<char>) -> bool {
    "rpb-v1-"@.is_prefix_of(name) && ".sock"@.is_suffix_of(name)
}

/// The paths in a listing that are endpoints of brokers, in order.
pub open spec fn instance_paths(paths: Seq<Seq<char>>) -> Seq<Seq<char>>
    decreases paths.len(),
{
    if paths.len() == 0 {
        Seq::empty()
    } else {
        let front = instance_paths(paths.drop_last());
        if instance_name(name_part(paths.last())) {
            front.push(paths.last())
        } else {
            front
        }
    }
}

/// The paths of some instances.
pub open spec fn paths_of(instances: Seq<BrokerInstance>) -> Seq<Seq<char>> {
    instances.map_values(|i: BrokerInstance| i.path@)
}

/// The texts that are shown for some paths.
pub open spec fn shown_of(paths: Seq<NativePath>) -> Seq<Seq<char>> {
    paths.map_values(|p: NativePath| lossy_text(p@))
}

/// The bytes of some paths.
pub open spec fn bytes_of(paths: Seq<NativePath>) -> Seq<Seq<u8>> {
    paths.map_values(|p: NativePath| p@)
}

proof fn lemma_name_part(path: Seq<char>, at: int)
    requires
        0 <= at <= path.len(),
        at == 0 || path[at - 1] == '/',
        forall|j: int| at <= j < path.len() ==> path[j] != '/',
    ensures
        name_part(path) == path.skip(at),
    decreases path.len(),
{
    if path.len() == at {
        assert(path.skip(at) =~= Seq::empty());
    } else {
        lemma_name_part(path.drop_last(), at);
        assert(path.skip(at) =~= path.drop_last().skip(at).push(path.last()));
    }
}

fn file_name(path: &str) -> (name: Vec<char>)
    ensures
        name@ == name_part(path@),
{
    let chars = chars_of(path);
    let mut at: usize = chars.len();
    while at > 0 && chars[at - 1] != '/'
        invariant
            at <= chars@.len(),
            chars@ == path@,
            forall|j: int| at <= j < chars@.len() ==> chars@[j] != '/',
        ensures
            at <= chars@.len(),
            at == 0 || chars@[at - 1] == '/',
            forall|j: int| at <= j < chars@.len() ==> chars@[j] != '/',
        decreases at,
    {
        at = at - 1;
    }
    proof {
        lemma_name_part(path@, at as int);
        assert(chars@.subrange(at as int, chars@.len() as int) =~= path@.skip(at as int));
    }
    let name = string_of(slice_subrange(chars.as_slice(), at, chars.len()));
    chars_of(name.as_str())
}

fn begins_with(chars: &Vec<char>, prefix: &str) -> (b: bool)
    ensures
        b == prefix@.is_prefix_of(chars@),
{
    let p = chars_of(prefix);
    if chars.len() < p.len() {
        return false;
    }
    let mut i: usize = 0;
    while i < p.len()
        invariant
            i <= p@.len() <= chars@.len(),
            p@ == prefix@,
            forall|j: int| 0 <= j < i ==> p@[j] == chars@[j],
        decreases p@.len() - i,
    {
        if chars[i] != p[i] {
            assert(prefix@[i as int] != chars@.subrange(0, p@.len() as int)[i as int]);
            return false;
        }
        i = i + 1;
    }
    assert(p@ =~= chars@.subrange(0, p@.len() as int));
    true
}

fn ends_with(chars: &Vec<char>, suffix: &str) -> (b: bool)
    ensures
        b == suffix@.is_suffix_of(chars@),
{
    let p = chars_of(suffix);
    if chars.len() < p.len() {
        return false;
    }
    let start: usize = chars.len() - p.len();
    let mut i: usize = 0;
    while i < p.len()
        invariant
            i <= p@.len() <= chars@.len(),
            start == chars@.len() - p@.len(),
            p@ == suffix@,
            forall|j: int| 0 <= j < i ==> p@[j] == chars@[start + j],
        decreases p@.len() - i,
    {
        if chars[chars.len() - p.len() + i] != p[i] {
            assert(suffix@[i as int] != chars@.subrange(
                start as int,
                chars@.len() as int,
            )[i as int]);
            return false;
        }
        i = i + 1;
    }
    assert(p@ =~= chars@.subrange(start as int, chars@.len() as int));
    true
}

/// The instances in a listing of paths.
pub fn list(paths: &Vec<NativePath>) -> (instances: Vec<BrokerInstance>)
    ensures
        paths_of(instances@) == instance_paths(shown_of(paths@)),
{
    let mut instances: Vec<BrokerInstance> = Vec::new();
    let ghost all = shown_of(paths@);
    let mut i: usize = 0;
    assert(paths_of(instances@) =~= instance_paths(all.take(0)));
    while i < paths.len()
        invariant
            i <= paths@.len(),
            all == shown_of(paths@),
            paths_of(instances@) == instance_paths(all.take(i as int)),
        decreases paths@.len() - i,
    {
        let ghost before = paths_of(instances@);
        proof {
            assert(all.take(i as int + 1).drop_last() =~= all.take(i as int));
            assert(all.take(i as int + 1).last() == lossy_text(paths@[i as int]@));
        }
        let path = paths[i].shown();
        let name = file_name(path.as_str());
        if begins_with(&name, "rpb-v1-") && ends_with(&name, ".sock") {
            instances.push(BrokerInstance { path });
            assert(paths_of(instances@) =~= before.push(lossy_text(paths@[i as int]@)));
        }
        i = i + 1;
    }
    assert(all.take(all.len() as int) =~= all);
    instances
}

/// The instances as JSON objects, separated by commas.
pub open spec fn instance_objects(paths: Seq<Seq<char>>) -> Seq<char>
    decreases paths.len(),
{
    if paths.len() == 0 {
        Seq::empty()
    } else {
        let front = instance_objects(paths.drop_last());
        let separator = if paths.len() == 1 {
            Seq::empty()
        } else {
            ","@
        };
        front + separator + ("{\"path\":\""@ + json_escaped(paths.last()) + "\"}"@)
    }
}

/// Renders instances as JSON.
pub fn render_json(instances: &Vec<BrokerInstance>) -> (s: String)
    ensures
        s@ == "{\"schema_version\":1,\"instances\":["@ + instance_objects(paths_of(instances@))
            + "]}"@,
{
    let mut s: String = "{\"schema_version\":1,\"instances\":[".to_owned();
    let ghost head = s@;
    let ghost all = paths_of(instances@);
    let mut i: usize = 0;
    assert(s@ =~= head + instance_objects(all.take(0)));
    while i < instances.len()
        invariant
            i <= instances@.len(),
            all == paths_of(instances@),
            s@ == head + instance_objects(all.take(i as int)),
        decreases instances@.len() - i,
    {
        let ghost before = s@;
        let ghost shorter = instance_objects(all.take(i as int));
        proof {
            assert(all.take(i as int + 1).drop_last() =~= all.take(i as int));
            assert(all.take(i as int + 1).last() == instances@[i as int].path@);
        }
        if i > 0 {
            s.append(",");
        }
        s.append("{\"path\":\"");
        let path = json_escape(instances[i].path.as_str());
        s.append(path.as_str());
        s.append("\"}");
        assert(s@ =~= head + instance_objects(all.take(i as int + 1)));
        i = i + 1;
    }
    assert(all.take(all.len() as int) =~= all);
    s.append("]}");
    s
}

/// The directories in which a broker endpoint may live.
pub fn instance_dirs(runtime_dir: Option<&NativePath>, temp_dir: &NativePath) -> (dirs: Vec<
    NativePath,
>)
    ensures
        bytes_of(dirs@) == (match runtime_dir {
            Some(dir) => seq![
                below(below(dir@, "running-process"@), "broker"@),
                temp_dir@,
            ],
            None => seq![temp_dir@],
        }),
{
    let mut dirs: Vec<NativePath> = Vec::new();
    match runtime_dir {
        Some(dir) => {
            dirs.push(dir.join("running-process").join("broker"));
            dirs.push(temp_dir.copied());
            assert(bytes_of(dirs@) =~= seq![
                below(below(dir@, "running-process"@), "broker"@),
                temp_dir@,
            ]);
        },
        None => {
            dirs.push(temp_dir.copied());
            assert(bytes_of(dirs@) =~= seq![temp_dir@]);
        },
    }
    dirs
}

proof fn lemma_instance_paths_append(a: Seq<Seq<char>>, b: Seq<Seq<char>>)
    ensures
        instance_paths(a + b) == instance_paths(a) + instance_paths(b),
    decreases b.len(),
{
    if b.len() == 0 {
        assert(a + b =~= a);
        assert(instance_paths(b) =~= Seq::empty());
        assert(instance_paths(a) + instance_paths(b) =~= instance_paths(a));
    } else {
        lemma_instance_paths_append(a, b.drop_last());
        assert((a + b).drop_last() =~= a + b.drop_last());
        assert((a + b).last() == b.last());
        assert(instance_paths(a + b) =~= instance_paths(a) + instance_paths(b));
    }
}

/// A listing gives the endpoints of brokers in it and nothing else: a path is listed
/// exactly if the part after its last slash begins with `rpb-v1-` and ends with
/// `.sock`, and what is listed of two listings is listed of both together, in order.
pub proof fn law_exactly_the_endpoints_are_listed(
    directory: Seq<char>,
    name: Seq<char>,
    before: Seq<Seq<char>>,
    after: Seq<Seq<char>>,
)
    requires
        !name.contains('/'),
    ensures
        ({
            let path = directory.push('/') + name;
            let endpoint = "rpb-v1-"@.is_prefix_of(name) && ".sock"@.is_suffix_of(name);
            &&& endpoint ==> instance_paths(before.push(path) + after) == instance_paths(
                before,
            ).push(path) + instance_paths(after)
            &&& !endpoint ==> instance_paths(before.push(path) + after) == instance_paths(before)
                + instance_paths(after)
        }),
        instance_paths(Seq::empty()).len() == 0,
{
    let path = directory.push('/') + name;
    let at = directory.len() as int + 1;
    assert forall|j: int| at <= j < path.len() implies path[j] != '/' by {
        assert(path[j] == name[j - at]);
        assert(name.contains(name[j - at]));
    }
    lemma_name_part(path, at);
    assert(path.skip(at) =~= name);
    lemma_instance_paths_append(before.push(path), after);
    assert(before.push(path).drop_last() =~= before);
}

/// A list is rendered as the objects of its instances with commas between them, each
/// with the path of the instance.
pub proof fn law_objects_are_separated(a: Seq<Seq<char>>, b: Seq<Seq<char>>, path: Seq<char>)
    ensures
        instance_objects(Seq::empty()).len() == 0,
        instance_objects(seq![path]) == "{\"path\":\""@ + json_escaped(path) + "\"}"@,
        a.len() > 0 && b.len() > 0 ==> instance_objects(a + b) == instance_objects(a) + ","@
            + instance_objects(b),
    decreases b.len(),
{
    let one = seq![path];
    assert(one.drop_last() =~= Seq::empty());
    assert(instance_objects(one.drop_last()) =~= Seq::empty());
    assert(instance_objects(one) =~= "{\"path\":\""@ + json_escaped(path) + "\"}"@);
    if a.len() > 0 && b.len() > 0 {
        assert((a + b).drop_last() =~= a + b.drop_last());
        assert((a + b).last() == b.last());
        if b.len() == 1 {
            assert(a + b.drop_last() =~= a);
            assert(instance_objects(b.drop_last()) =~= Seq::empty());
        } else {
            law_objects_are_separated(a, b.drop_last(), path);
        }
        assert(instance_objects(a + b) =~= instance_objects(a) + ","@ + instance_objects(b));
    }
}

} // verus!
