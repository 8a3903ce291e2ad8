//! A sequence of key/value entries with unique keys, read as a map.
use vstd::prelude::*;

verus! {

pub open spec fn keys_unique<K, V>(s: Seq<(K, V)>) -> bool {
    forall|i: int, j: int| 0 <= i < s.len() && 0 <= j < s.len() && i != j ==> s[i].0 != s[j].0
}

pub open spec fn has_key<K, V>(s: Seq<(K, V)>, k: K) -> bool {
    exists|i: int| 0 <= i < s.len() && s[i].0 == k
}

/// The map that the entries describe; a later entry wins over an earlier one.
pub open spec fn entries_map<K, V>(s: Seq<(K, V)>) -> Map<K, V>
    decreases s.len(),
{
    if s.len() == 0 {
        Map::empty()
    } else {
        entries_map(s.drop_last()).insert(s.last().0, s.last().1)
    }
}

pub proof fn lemma_entries_push<K, V>(s: Seq<(K, V)>, e: (K, V))
    ensures
        entries_map(s.push(e)) == entries_map(s).insert(e.0, e.1),
{
    assert(s.push(e).drop_last() =~= s);
}

pub proof fn lemma_entries_take_next<K, V>(s: Seq<(K, V)>, i: int)
    requires
        0 <= i < s.len(),
    ensures
        entries_map(s.take(i + 1)) == entries_map(s.take(i)).insert(s[i].0, s[i].1),
{
    assert(s.take(i + 1).drop_last() =~= s.take(i));
}

pub proof fn lemma_entries_dom<K, V>(s: Seq<(K, V)>, k: K)
    ensures
        entries_map(s).contains_key(k) == has_key(s, k),
    decreases s.len(),
{
    if s.len() > 0 {
        lemma_entries_dom(s.drop_last(), k);
        if has_key(s, k) && s.last().0 != k {
            let i = choose|i: int| 0 <= i < s.len() && s[i].0 == k;
            assert(s.drop_last()[i].0 == k);
        }
        if has_key(s.drop_last(), k) {
            let i = choose|i: int| 0 <= i < s.drop_last().len() && s.drop_last()[i].0 == k;
            assert(s[i].0 == k);
        }
    }
}

pub proof fn lemma_entries_index<K, V>(s: Seq<(K, V)>, i: int)
    requires
        keys_unique(s),
        0 <= i < s.len(),
    ensures
        entries_map(s).contains_key(s[i].0),
        entries_map(s)[s[i].0] == s[i].1,
    decreases s.len(),
{
    if i < s.len() - 1 {
        lemma_entries_index(s.drop_last(), i);
    }
}

/// Replacing entry `i` by `e`, whose key no other entry has.
pub proof fn lemma_entries_update<K, V>(s: Seq<(K, V)>, i: int, e: (K, V))
    requires
        keys_unique(s),
        0 <= i < s.len(),
        forall|j: int| 0 <= j < s.len() && j != i ==> s[j].0 != e.0,
    ensures
        entries_map(s.update(i, e)) == entries_map(s).remove(s[i].0).insert(e.0, e.1),
        keys_unique(s.update(i, e)),
    decreases s.len(),
{
    let dl = s.drop_last();
    if i == s.len() - 1 {
        assert(s.update(i, e).drop_last() =~= dl);
        lemma_entries_dom(dl, s[i].0);
        assert(entries_map(dl).remove(s[i].0) =~= entries_map(dl));
        assert(entries_map(s.update(i, e)) =~= entries_map(s).remove(s[i].0).insert(e.0, e.1));
    } else {
        assert(s.update(i, e).drop_last() =~= dl.update(i, e));
        lemma_entries_update(dl, i, e);
        assert(entries_map(s.update(i, e)) =~= entries_map(s).remove(s[i].0).insert(e.0, e.1));
    }
}

/// Removing entry `i` by moving the last entry into its place.
pub proof fn lemma_entries_swap_remove<K, V>(s: Seq<(K, V)>, i: int)
    requires
        keys_unique(s),
        0 <= i < s.len(),
    ensures
        entries_map(s.update(i, s.last()).drop_last()) == entries_map(s).remove(s[i].0),
        keys_unique(s.update(i, s.last()).drop_last()),
{
    let dl = s.drop_last();
    let r = s.update(i, s.last()).drop_last();
    lemma_entries_dom(dl, s.last().0);
    if i == s.len() - 1 {
        assert(r =~= dl);
        assert(entries_map(dl) =~= entries_map(s).remove(s[i].0));
    } else {
        assert(r =~= dl.update(i, s.last()));
        lemma_entries_update(dl, i, s.last());
        assert(entries_map(r) =~= entries_map(s).remove(s[i].0));
    }
}

} // verus!
