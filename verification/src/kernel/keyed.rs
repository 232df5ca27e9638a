//! Tables kept as sequences of `(key, value)` pairs with distinct keys,
//! read as maps.

use vstd::prelude::*;

verus! {

/// Keys of `s` are pairwise distinct.
pub open spec fn keys_unique<K, V>(s: Seq<(K, V)>) -> bool {
    forall|i: int, j: int| 0 <= i < j < s.len() ==> (#[trigger] s[i]).0 != (#[trigger] s[j]).0
}

/// The table as a map; a later pair wins over an earlier one.
pub open spec fn table_map<K, V>(s: Seq<(K, V)>) -> Map<K, V>
    decreases s.len(),
{
    if s.len() == 0 {
        Map::empty()
    } else {
        table_map(s.drop_last()).insert(s.last().0, s.last().1)
    }
}

pub proof fn lemma_unique_prefix<K, V>(s: Seq<(K, V)>)
    requires
        keys_unique(s),
        s.len() > 0,
    ensures
        keys_unique(s.drop_last()),
{
    let t = s.drop_last();
    assert forall|a: int, b: int| 0 <= a < b < t.len() implies (#[trigger] t[a]).0 != (#[trigger] t[b]).0 by {
        assert(s[a].0 != s[b].0);
    }
}

/// Pair `i` is what the map holds for its key.
pub proof fn lemma_table_lookup<K, V>(s: Seq<(K, V)>, i: int)
    requires
        keys_unique(s),
        0 <= i < s.len(),
    ensures
        table_map(s).contains_key(s[i].0),
        table_map(s)[s[i].0] == s[i].1,
    decreases s.len(),
{
    if i < s.len() - 1 {
        lemma_unique_prefix(s);
        lemma_table_lookup(s.drop_last(), i);
        assert(s[i].0 != s.last().0);
    }
}

/// A key that no pair has is not in the map.
pub proof fn lemma_table_absent<K, V>(s: Seq<(K, V)>, k: K)
    requires
        forall|i: int| 0 <= i < s.len() ==> (#[trigger] s[i]).0 != k,
    ensures
        !table_map(s).contains_key(k),
    decreases s.len(),
{
    if s.len() > 0 {
        lemma_table_absent(s.drop_last(), k);
    }
}

/// Replacing the value of pair `i` updates the map at its key.
pub proof fn lemma_table_update<K, V>(s: Seq<(K, V)>, i: int, v: V)
    requires
        keys_unique(s),
        0 <= i < s.len(),
    ensures
        keys_unique(s.update(i, (s[i].0, v))),
        table_map(s.update(i, (s[i].0, v))) == table_map(s).insert(s[i].0, v),
    decreases s.len(),
{
    let t = s.update(i, (s[i].0, v));
    assert forall|a: int, b: int| 0 <= a < b < t.len() implies (#[trigger] t[a]).0 != (#[trigger] t[b]).0 by {
        assert(s[a].0 != s[b].0);
    }
    lemma_unique_prefix(s);
    if i == s.len() - 1 {
        assert(t.drop_last() =~= s.drop_last());
        assert(table_map(t) =~= table_map(s).insert(s[i].0, v));
    } else {
        lemma_table_update(s.drop_last(), i, v);
        assert(t.drop_last() =~= s.drop_last().update(i, (s[i].0, v)));
        assert(s[i].0 != s.last().0);
        assert(table_map(t) =~= table_map(s).insert(s[i].0, v));
    }
}

/// Appending a pair with a new key inserts it into the map.
pub proof fn lemma_table_push<K, V>(s: Seq<(K, V)>, k: K, v: V)
    requires
        keys_unique(s),
        forall|i: int| 0 <= i < s.len() ==> (#[trigger] s[i]).0 != k,
    ensures
        keys_unique(s.push((k, v))),
        table_map(s.push((k, v))) == table_map(s).insert(k, v),
{
    let t = s.push((k, v));
    assert forall|a: int, b: int| 0 <= a < b < t.len() implies (#[trigger] t[a]).0 != (#[trigger] t[b]).0 by {
        if b < s.len() {
            assert(s[a].0 != s[b].0);
        } else {
            assert(t[a] == s[a]);
        }
    }
    assert(t.drop_last() =~= s);
}

/// The map has as many keys as the table has pairs.
pub proof fn lemma_table_len<K, V>(s: Seq<(K, V)>)
    requires
        keys_unique(s),
    ensures
        table_map(s).dom().finite(),
        table_map(s).dom().len() == s.len(),
    decreases s.len(),
{
    if s.len() > 0 {
        lemma_unique_prefix(s);
        lemma_table_len(s.drop_last());
        lemma_table_absent(s.drop_last(), s.last().0);
    }
}

} // verus!
