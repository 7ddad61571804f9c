//! Unix paths as byte strings: components, equality up to redundant separators,
//! and the final name.

use crate::wire::{bytes_equal, copy_bytes};
use vstd::prelude::*;

verus! {

/// Whether a path is absolute.
pub open spec fn absolute(path: Seq<u8>) -> bool {
    path.len() > 0 && path[0] == 47
}

/// The runs of bytes between slashes.
pub open spec fn segments(path: Seq<u8>) -> Seq<Seq<u8>>
    decreases path.len(),
{
    if path.len() == 0 {
        seq![Seq::empty()]
    } else {
        let parts = segments(path.drop_last());
        if path.last() == 47 {
            parts.push(Seq::empty())
        } else {
            parts.drop_last().push(parts.last().push(path.last()))
        }
    }
}

/// Whether a segment is no component: it is empty, or a dot that does not lead
/// a relative path.
pub open spec fn redundant(segment: Seq<u8>, leads_relative: bool) -> bool {
    segment.len() == 0 || (segment == seq![46u8] && !leads_relative)
}

/// The segments that are components.
pub open spec fn kept(parts: Seq<Seq<u8>>, relative: bool) -> Seq<Seq<u8>>
    decreases parts.len(),
{
    if parts.len() == 0 {
        Seq::empty()
    } else {
        let front = kept(parts.drop_last(), relative);
        if redundant(parts.last(), relative && parts.len() == 1) {
            front
        } else {
            front.push(parts.last())
        }
    }
}

/// The components of a path, after its root.
pub open spec fn components(path: Seq<u8>) -> Seq<Seq<u8>> {
    kept(segments(path), !absolute(path))
}

/// Whether two paths have the same root and the same components.
pub open spec fn same_path(a: Seq<u8>, b: Seq<u8>) -> bool {
    absolute(a) == absolute(b) && components(a) == components(b)
}

/// The last component, unless it is a dot or two dots.
pub open spec fn file_name(path: Seq<u8>) -> Option<Seq<u8>> {
    let parts = components(path);
    if parts.len() == 0 || parts.last() == seq![46u8] || parts.last() == seq![46u8, 46u8] {
        None
    } else {
        Some(parts.last())
    }
}

/// The bytes of a list of byte strings.
pub open spec fn views(list: Seq<Vec<u8>>) -> Seq<Seq<u8>> {
    list.map_values(|v: Vec<u8>| v@)
}

/// The components of a path, after its root.
pub fn path_components(path: &[u8]) -> (parts: Vec<Vec<u8>>)
    ensures
        views(parts@) == components(path@),
{
    let relative: bool = !(path.len() > 0 && path[0] == 47);
    let mut parts: Vec<Vec<u8>> = Vec::new();
    let mut current: Vec<u8> = Vec::new();
    let mut first: bool = true;
    let mut i: usize = 0;
    proof {
        assert(path@.take(0) =~= Seq::<u8>::empty());
        assert(segments(path@.take(0)).drop_last() =~= Seq::<Seq<u8>>::empty());
        assert(views(parts@) =~= Seq::<Seq<u8>>::empty());
    }
    while i < path.len()
        invariant
            i <= path@.len(),
            ({
                let parts_so_far = segments(path@.take(i as int));
                &&& parts_so_far.len() > 0
                &&& current@ == parts_so_far.last()
                &&& views(parts@) == kept(parts_so_far.drop_last(), relative)
                &&& first == (parts_so_far.len() == 1)
            }),
        decreases path@.len() - i,
    {
        let ghost before = segments(path@.take(i as int));
        let ghost kept_before = views(parts@);
        proof {
            assert(path@.take(i as int + 1).drop_last() =~= path@.take(i as int));
        }
        if path[i] == 47 {
            let ghost last = current@;
            if !is_redundant(&current, relative && first) {
                parts.push(current);
                assert(views(parts@) =~= kept_before.push(last));
            }
            proof {
                assert(before.push(Seq::empty()).drop_last() =~= before);
            }
            current = Vec::new();
            first = false;
            assert(current@ =~= Seq::<u8>::empty());
        } else {
            current.push(path[i]);
            proof {
                let now = before.drop_last().push(before.last().push(path@[i as int]));
                assert(now.drop_last() =~= before.drop_last());
            }
        }
        i = i + 1;
    }
    assert(path@.take(path@.len() as int) =~= path@);
    let ghost kept_before = views(parts@);
    let ghost last = current@;
    if !is_redundant(&current, relative && first) {
        parts.push(current);
        assert(views(parts@) =~= kept_before.push(last));
    }
    parts
}

fn is_redundant(segment: &Vec<u8>, leads_relative: bool) -> (b: bool)
    ensures
        b == redundant(segment@, leads_relative),
{
    let dot: bool = segment.len() == 1 && segment[0] == 46;
    assert(dot == (segment@ =~= seq![46u8]));
    segment.len() == 0 || (dot && !leads_relative)
}

/// Decides [`same_path`].
pub fn is_same_path(a: &[u8], b: &[u8]) -> (r: bool)
    ensures
        r == same_path(a@, b@),
{
    let a_root: bool = a.len() > 0 && a[0] == 47;
    let b_root: bool = b.len() > 0 && b[0] == 47;
    if a_root != b_root {
        return false;
    }
    let a_parts = path_components(a);
    let b_parts = path_components(b);
    if a_parts.len() != b_parts.len() {
        assert(components(a@).len() != components(b@).len());
        return false;
    }
    let mut i: usize = 0;
    while i < a_parts.len()
        invariant
            i <= a_parts@.len(),
            a_parts@.len() == b_parts@.len(),
            views(a_parts@) == components(a@),
            views(b_parts@) == components(b@),
            forall|j: int| 0 <= j < i ==> #[trigger] views(a_parts@)[j] == views(b_parts@)[j],
        decreases a_parts@.len() - i,
    {
        assert(views(a_parts@)[i as int] == a_parts@[i as int]@);
        assert(views(b_parts@)[i as int] == b_parts@[i as int]@);
        if !bytes_equal(&a_parts[i], &b_parts[i]) {
            return false;
        }
        i = i + 1;
    }
    assert(components(a@) =~= components(b@));
    true
}

/// The last component of a path, unless it is a dot or two dots.
pub fn path_file_name(path: &[u8]) -> (r: Option<Vec<u8>>)
    ensures
        match r {
            Some(name) => file_name(path@) == Some(name@),
            None => file_name(path@) is None,
        },
{
    let parts = path_components(path);
    if parts.len() == 0 {
        return None;
    }
    let last: &Vec<u8> = &parts[parts.len() - 1];
    assert(components(path@).last() == last@);
    let dot: bool = last.len() == 1 && last[0] == 46;
    assert(dot == (last@ =~= seq![46u8]));
    let dots: bool = last.len() == 2 && last[0] == 46 && last[1] == 46;
    assert(dots == (last@ =~= seq![46u8, 46u8]));
    if dot || dots {
        return None;
    }
    Some(copy_bytes(last))
}

proof fn lemma_plain_segment(word: Seq<u8>)
    requires
        forall|i: int| 0 <= i < word.len() ==> #[trigger] word[i] != 47,
    ensures
        segments(word) == seq![word],
    decreases word.len(),
{
    if word.len() == 0 {
        assert(word =~= Seq::<u8>::empty());
        assert(segments(word) =~= seq![word]);
    } else {
        let front = word.drop_last();
        assert(word[word.len() - 1] != 47);
        assert forall|i: int| 0 <= i < front.len() implies #[trigger] front[i] != 47 by {
            assert(front[i] == word[i]);
        }
        lemma_plain_segment(front);
        assert(front.push(word.last()) =~= word);
        assert(segments(word) =~= seq![word]);
    }
}

proof fn lemma_segments_cut(a: Seq<u8>, b: Seq<u8>)
    ensures
        segments(a).len() > 0,
        segments(a + seq![47u8] + b) == segments(a) + segments(b),
    decreases a.len() + b.len(),
{
    if a.len() > 0 {
        lemma_segments_cut(a.drop_last(), Seq::empty());
    }
    let whole = a + seq![47u8] + b;
    if b.len() == 0 {
        assert(whole.drop_last() =~= a);
        assert(segments(whole) =~= segments(a) + segments(b));
    } else {
        lemma_segments_cut(a, b.drop_last());
        lemma_segments_cut(b.drop_last(), Seq::empty());
        assert(whole.drop_last() =~= a + seq![47u8] + b.drop_last());
        assert(segments(whole) =~= segments(a) + segments(b));
    }
}

/// The components of a directory and a name behind it are those of the directory and
/// the name; redundant slashes and dots behind it do not count.
pub proof fn law_names_follow_their_directory(directory: Seq<u8>, name: Seq<u8>)
    requires
        directory.len() > 0,
        name.len() > 0,
        name != seq![46u8],
        forall|i: int| 0 <= i < name.len() ==> #[trigger] name[i] != '/' as u8,
    ensures
        ({
            let path = directory + seq!['/' as u8] + name;
            &&& components(path) == components(directory).push(name)
            &&& components(directory + seq!['/' as u8]) == components(directory)
            &&& same_path(directory + seq!['/' as u8], directory)
            &&& absolute(path) == absolute(directory)
            &&& name != seq![46u8, 46u8] ==> file_name(path) == Some(name)
            &&& name == seq![46u8, 46u8] ==> file_name(path) is None
        }),
{
    let path = directory + seq![47u8] + name;
    let relative = !absolute(directory);
    lemma_segments_cut(directory, name);
    lemma_segments_cut(directory, Seq::empty());
    lemma_plain_segment(name);
    assert(path[0] == directory[0]);
    assert((directory + seq![47u8])[0] == directory[0]);
    let parts = segments(path);
    assert(parts.drop_last() =~= segments(directory));
    assert(parts.last() == name);
    assert(components(path) =~= components(directory).push(name));
    assert(directory + seq![47u8] + Seq::<u8>::empty() =~= directory + seq![47u8]);
    let trailing = segments(directory + seq![47u8]);
    assert(segments(Seq::<u8>::empty()) =~= seq![Seq::<u8>::empty()]);
    assert(trailing.drop_last() =~= segments(directory));
    assert(trailing.last() =~= Seq::<u8>::empty());
}

/// A name alone is its own only component and its own final name, and a path is absolute
/// exactly if it begins with a slash.
pub proof fn law_plain_names(name: Seq<u8>, path: Seq<u8>)
    requires
        name.len() > 0,
        name != seq![46u8],
        name != seq![46u8, 46u8],
        forall|i: int| 0 <= i < name.len() ==> #[trigger] name[i] != '/' as u8,
    ensures
        components(name) == seq![name],
        file_name(name) == Some(name),
        absolute(path) <==> path.len() > 0 && path[0] == '/' as u8,
        components(Seq::empty()).len() == 0,
        file_name(Seq::empty()) is None,
{
    lemma_plain_segment(name);
    assert(name[0] != 47);
    assert(seq![name].drop_last() =~= Seq::<Seq<u8>>::empty());
    reveal_with_fuel(kept, 2);
    assert(components(name) =~= seq![name]);
    lemma_plain_segment(Seq::empty());
    assert(seq![Seq::<u8>::empty()].drop_last() =~= Seq::<Seq<u8>>::empty());
}

/// Being the same path is mutual and passes on, and the same paths have the same name.
pub proof fn law_same_paths(a: Seq<u8>, b: Seq<u8>, c: Seq<u8>)
    ensures
        same_path(a, a),
        same_path(a, b) ==> same_path(b, a),
        same_path(a, b) && same_path(b, c) ==> same_path(a, c),
        same_path(a, b) ==> file_name(a) == file_name(b) && absolute(a) == absolute(b)
            && components(a) == components(b),
        absolute(a) == absolute(b) && components(a) == components(b) ==> same_path(a, b),
{
}

} // verus!
