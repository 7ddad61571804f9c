//! Lists of entries with distinct keys, read as maps.

use vstd::prelude::*;

verus! {

/// Whether no key occurs twice.
pub open spec fn distinct_keys<K, V>(entries: Seq<(K, V)>) -> bool {
    forall|i: int, j: int|
        0 <= i < j < entries.len() ==> (#[trigger] entries[i]).0 != (#[trigger] entries[j]).0
}

/// Whether a key occurs.
pub open spec fn has_key<K, V>(entries: Seq<(K, V)>, key: K) -> bool {
    exists|i: int| 0 <= i < entries.len() && (#[trigger] entries[i]).0 == key
}

/// The map that a list of entries stands for.
pub open spec fn contents<K, V>(entries: Seq<(K, V)>) -> Map<K, V>
    decreases entries.len(),
{
    if entries.len() == 0 {
        Map::empty()
    } else {
        contents(entries.drop_last()).insert(entries.last().0, entries.last().1)
    }
}

/// A key is in the map where an entry has it.
pub proof fn lemma_contents_domain<K, V>(entries: Seq<(K, V)>, key: K)
    ensures
        contents(entries).dom().contains(key) <==> has_key(entries, key),
    decreases entries.len(),
{
    if entries.len() > 0 {
        let front = entries.drop_last();
        lemma_contents_domain(front, key);
        if has_key(front, key) {
            let i = choose|i: int| 0 <= i < front.len() && (#[trigger] front[i]).0 == key;
            assert(entries[i].0 == key);
        }
        if has_key(entries, key) && entries.last().0 != key {
            let i = choose|i: int| 0 <= i < entries.len() && (#[trigger] entries[i]).0 == key;
            assert(front[i].0 == key);
        }
        assert(entries[entries.len() - 1] == entries.last());
    }
}

/// Each entry is in the map.
pub proof fn lemma_contents_at<K, V>(entries: Seq<(K, V)>, i: int)
    requires
        distinct_keys(entries),
        0 <= i < entries.len(),
    ensures
        contents(entries).dom().contains(entries[i].0),
        contents(entries)[entries[i].0] == entries[i].1,
    decreases entries.len(),
{
    let front = entries.drop_last();
    if i < entries.len() - 1 {
        lemma_contents_at(front, i);
        assert(front[i] == entries[i]);
        assert(entries[entries.len() - 1].0 != entries[i].0);
    }
}

/// Another entry at the end.
pub proof fn lemma_contents_push<K, V>(entries: Seq<(K, V)>, key: K, value: V)
    requires
        distinct_keys(entries),
        !has_key(entries, key),
    ensures
        distinct_keys(entries.push((key, value))),
        contents(entries.push((key, value))) == contents(entries).insert(key, value),
{
    let more = entries.push((key, value));
    assert(more.drop_last() =~= entries);
    assert forall|i: int, j: int| 0 <= i < j < more.len() implies (#[trigger] more[i]).0 != (
    #[trigger] more[j]).0 by {
        assert(more[i] == entries[i]);
        if j < entries.len() {
            assert(more[j] == entries[j]);
        }
    }
}

/// Two lists with the same entries stand for the same map.
proof fn lemma_contents_equal<K, V>(a: Seq<(K, V)>, m: Map<K, V>)
    requires
        distinct_keys(a),
        forall|i: int|
            0 <= i < a.len() ==> m.dom().contains((#[trigger] a[i]).0) && m[a[i].0] == a[i].1,
        forall|k: K| #[trigger] m.dom().contains(k) ==> has_key(a, k),
    ensures
        contents(a) == m,
{
    assert forall|k: K| contents(a).dom().contains(k) <==> #[trigger] m.dom().contains(k) by {
        lemma_contents_domain(a, k);
    }
    assert forall|k: K| contents(a).dom().contains(k) implies contents(a)[k] == #[trigger] m[k] by {
        lemma_contents_domain(a, k);
        let i = choose|i: int| 0 <= i < a.len() && (#[trigger] a[i]).0 == k;
        lemma_contents_at(a, i);
    }
    assert(contents(a) =~= m);
}

/// One entry less.
pub proof fn lemma_contents_remove<K, V>(entries: Seq<(K, V)>, at: int)
    requires
        distinct_keys(entries),
        0 <= at < entries.len(),
    ensures
        distinct_keys(entries.remove(at)),
        contents(entries.remove(at)) == contents(entries).remove(entries[at].0),
{
    let less = entries.remove(at);
    let key = entries[at].0;
    assert forall|i: int, j: int| 0 <= i < j < less.len() implies (#[trigger] less[i]).0 != (
    #[trigger] less[j]).0 by {
        let a = if i < at { i } else { i + 1 };
        let b = if j < at { j } else { j + 1 };
        assert(less[i] == entries[a] && less[j] == entries[b]);
    }
    let m = contents(entries).remove(key);
    assert forall|i: int| 0 <= i < less.len() implies m.dom().contains((#[trigger] less[i]).0)
        && m[less[i].0] == less[i].1 by {
        let a = if i < at { i } else { i + 1 };
        assert(less[i] == entries[a]);
        lemma_contents_at(entries, a);
        assert(entries[a].0 != entries[at].0);
    }
    assert forall|k: K| #[trigger] m.dom().contains(k) implies has_key(less, k) by {
        lemma_contents_domain(entries, k);
        let a = choose|a: int| 0 <= a < entries.len() && (#[trigger] entries[a]).0 == k;
        let i = if a < at { a } else { a - 1 };
        assert(less[i] == entries[a]);
    }
    lemma_contents_equal(less, m);
}

/// Another value for one key.
pub proof fn lemma_contents_update<K, V>(entries: Seq<(K, V)>, at: int, value: V)
    requires
        distinct_keys(entries),
        0 <= at < entries.len(),
    ensures
        distinct_keys(entries.update(at, (entries[at].0, value))),
        contents(entries.update(at, (entries[at].0, value))) == contents(entries).insert(
            entries[at].0,
            value,
        ),
{
    let key = entries[at].0;
    let changed = entries.update(at, (key, value));
    assert forall|i: int| 0 <= i < changed.len() implies (#[trigger] changed[i]).0
        == entries[i].0 by {}
    let m = contents(entries).insert(key, value);
    assert forall|i: int| 0 <= i < changed.len() implies m.dom().contains((#[trigger] changed[i]).0)
        && m[changed[i].0] == changed[i].1 by {
        lemma_contents_at(entries, i);
        if i != at {
            assert(entries[i].0 != entries[at].0);
        }
    }
    assert forall|k: K| #[trigger] m.dom().contains(k) implies has_key(changed, k) by {
        lemma_contents_domain(entries, k);
        if k == key {
            assert(changed[at].0 == k);
        } else {
            let a = choose|a: int| 0 <= a < entries.len() && (#[trigger] entries[a]).0 == k;
            assert(changed[a].0 == k);
        }
    }
    assert forall|i: int, j: int| 0 <= i < j < changed.len() implies (#[trigger] changed[i]).0 != (
    #[trigger] changed[j]).0 by {
        assert(entries[i].0 != entries[j].0);
    }
    lemma_contents_equal(changed, m);
}

/// Other values for all keys.
pub proof fn lemma_contents_map<K, V>(
    entries: Seq<(K, V)>,
    changed: Seq<(K, V)>,
    f: spec_fn(V) -> V,
)
    requires
        distinct_keys(entries),
        changed.len() == entries.len(),
        forall|i: int|
            0 <= i < entries.len() ==> (#[trigger] changed[i]) == (entries[i].0, f(entries[i].1)),
    ensures
        distinct_keys(changed),
        contents(changed) == contents(entries).map_values(f),
{
    let m = contents(entries).map_values(f);
    assert forall|i: int, j: int| 0 <= i < j < changed.len() implies (#[trigger] changed[i]).0 != (
    #[trigger] changed[j]).0 by {
        assert(entries[i].0 != entries[j].0);
    }
    assert forall|i: int| 0 <= i < changed.len() implies m.dom().contains((#[trigger] changed[i]).0)
        && m[changed[i].0] == changed[i].1 by {
        lemma_contents_at(entries, i);
    }
    assert forall|k: K| #[trigger] m.dom().contains(k) implies has_key(changed, k) by {
        assert(contents(entries).dom().contains(k));
        lemma_contents_domain(entries, k);
        let a = choose|a: int| 0 <= a < entries.len() && (#[trigger] entries[a]).0 == k;
        assert(changed[a].0 == k);
    }
    lemma_contents_equal(changed, m);
}

/// The map has as many keys as there are entries.
pub proof fn lemma_contents_len<K, V>(entries: Seq<(K, V)>)
    requires
        distinct_keys(entries),
    ensures
        contents(entries).dom().finite(),
        contents(entries).len() == entries.len(),
    decreases entries.len(),
{
    if entries.len() > 0 {
        let front = entries.drop_last();
        lemma_contents_len(front);
        lemma_contents_domain(front, entries.last().0);
        if has_key(front, entries.last().0) {
            let i = choose|i: int|
                0 <= i < front.len() && (#[trigger] front[i]).0 == entries.last().0;
            assert(entries[i].0 == entries[entries.len() - 1].0);
        }
    }
}

} // verus!
