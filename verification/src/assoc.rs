//! Association lists: sequences of key and value pairs read as maps, a
//! later pair of a key replacing an earlier one.

use vstd::prelude::*;

verus! {

/// The value of the last entry with key `k`.
pub open spec fn assoc_get<K, V>(s: Seq<(K, V)>, k: K) -> Option<V>
    decreases s.len(),
{
    if s.len() == 0 {
        None
    } else if s.last().0 == k {
        Some(s.last().1)
    } else {
        assoc_get(s.drop_last(), k)
    }
}

/// The map an association list stands for.
pub open spec fn assoc_map<K, V>(s: Seq<(K, V)>) -> Map<K, V> {
    Map::new(|k: K| assoc_get(s, k) is Some, |k: K| assoc_get(s, k).unwrap())
}

/// The entries whose key is not `k`, in order.
pub open spec fn without_key<K, V>(s: Seq<(K, V)>, k: K) -> Seq<(K, V)>
    decreases s.len(),
{
    if s.len() == 0 {
        s
    } else if s.last().0 == k {
        without_key(s.drop_last(), k)
    } else {
        without_key(s.drop_last(), k).push(s.last())
    }
}

proof fn lemma_without_key<K, V>(s: Seq<(K, V)>, k: K, j: K)
    ensures
        assoc_get(without_key(s, k), j) == (if j == k {
            None
        } else {
            assoc_get(s, j)
        }),
    decreases s.len(),
{
    if s.len() > 0 {
        lemma_without_key(s.drop_last(), k, j);
        if s.last().0 != k {
            assert(without_key(s, k).drop_last() =~= without_key(s.drop_last(), k));
        }
    }
}

/// Replacing the entry of `k` by `(k, v)` puts `v` at `k` in the map.
pub proof fn lemma_replace<K, V>(s: Seq<(K, V)>, k: K, v: V)
    ensures
        assoc_map(without_key(s, k).push((k, v))) == assoc_map(s).insert(k, v),
{
    let t = without_key(s, k).push((k, v));
    assert forall|j: K| #[trigger] assoc_get(t, j) == (if j == k {
        Some(v)
    } else {
        assoc_get(s, j)
    }) by {
        lemma_without_key(s, k, j);
        assert(t.drop_last() =~= without_key(s, k));
    }
    assert(assoc_map(t) =~= assoc_map(s).insert(k, v));
}

/// No key occurs twice.
pub open spec fn keys_distinct<K, V>(s: Seq<(K, V)>) -> bool {
    forall|i: int, j: int| 0 <= i < j < s.len() ==> s[i].0 != s[j].0
}

/// Whether some entry has key `k`.
pub open spec fn has_entry<K, V>(s: Seq<(K, V)>, k: K) -> bool {
    exists|i: int| 0 <= i < s.len() && #[trigger] s[i].0 == k
}

proof fn lemma_get_some<K, V>(s: Seq<(K, V)>, k: K)
    ensures
        assoc_get(s, k) is Some <==> has_entry(s, k),
    decreases s.len(),
{
    if s.len() > 0 {
        lemma_get_some(s.drop_last(), k);
        if has_entry(s.drop_last(), k) {
            let i = choose|i: int| 0 <= i < s.drop_last().len() && #[trigger] s.drop_last()[i].0 == k;
            assert(s[i].0 == k);
        }
        if has_entry(s, k) && s.last().0 != k {
            let i = choose|i: int| 0 <= i < s.len() && #[trigger] s[i].0 == k;
            assert(s.drop_last()[i].0 == k);
        }
        if s.last().0 == k {
            assert(s[s.len() - 1].0 == k);
        }
    }
}

/// With distinct keys, the map has as many keys as the list has entries.
pub proof fn lemma_distinct_dom_len<K, V>(s: Seq<(K, V)>)
    requires
        keys_distinct(s),
    ensures
        assoc_map(s).dom().finite(),
        assoc_map(s).dom().len() == s.len(),
    decreases s.len(),
{
    if s.len() == 0 {
        assert(assoc_map(s).dom() =~= Set::<K>::empty());
    } else {
        let t = s.drop_last();
        let k = s.last().0;
        assert(keys_distinct(t));
        lemma_distinct_dom_len(t);
        assert(assoc_map(s).dom() =~= assoc_map(t).dom().insert(k));
        lemma_get_some(t, k);
        if has_entry(t, k) {
            let i = choose|i: int| 0 <= i < t.len() && #[trigger] t[i].0 == k;
            assert(s[i].0 == s[s.len() - 1].0);
        }
    }
}

proof fn lemma_without_key_entries<K, V>(s: Seq<(K, V)>, k: K)
    ensures
        forall|i: int|
            0 <= i < without_key(s, k).len() ==> (#[trigger] without_key(s, k)[i]).0 != k
                && has_entry(s, without_key(s, k)[i].0),
        keys_distinct(s) ==> keys_distinct(without_key(s, k)),
    decreases s.len(),
{
    if s.len() > 0 {
        let t = s.drop_last();
        lemma_without_key_entries(t, k);
        let w = without_key(t, k);
        assert forall|i: int| 0 <= i < w.len() implies has_entry(s, #[trigger] w[i].0) by {
            let j = choose|j: int| 0 <= j < t.len() && #[trigger] t[j].0 == w[i].0;
            assert(s[j].0 == w[i].0);
        }
        if s.last().0 != k {
            let x = s.last();
            assert(s[s.len() - 1].0 == x.0);
            if keys_distinct(s) {
                assert forall|i: int| 0 <= i < w.len() implies (#[trigger] w[i]).0 != x.0 by {
                    let j = choose|j: int| 0 <= j < t.len() && #[trigger] t[j].0 == w[i].0;
                    assert(s[j].0 == t[j].0);
                }
                assert(keys_distinct(t));
            }
        } else if keys_distinct(s) {
            assert(keys_distinct(t));
        }
    }
}

/// Replacing the entry of `k` keeps the keys distinct.
pub proof fn lemma_replace_distinct<K, V>(s: Seq<(K, V)>, k: K, v: V)
    requires
        keys_distinct(s),
    ensures
        keys_distinct(without_key(s, k).push((k, v))),
{
    lemma_without_key_entries(s, k);
    let w = without_key(s, k);
    let t = w.push((k, v));
    assert forall|i: int, j: int| 0 <= i < j < t.len() implies t[i].0 != t[j].0 by {
        if j == t.len() - 1 {
            assert(w[i].0 != k);
        } else {
            assert(t[i] == w[i] && t[j] == w[j]);
        }
    }
}

/// With distinct keys, every key of the map is the key of an entry, and
/// maps to that entry's value.
pub proof fn lemma_map_entry<K, V>(s: Seq<(K, V)>, k: K)
    requires
        keys_distinct(s),
        assoc_map(s).dom().contains(k),
    ensures
        exists|i: int| 0 <= i < s.len() && s[i].0 == k && assoc_map(s)[k] == s[i].1,
{
    lemma_get_some(s, k);
    let i = choose|i: int| 0 <= i < s.len() && #[trigger] s[i].0 == k;
    lemma_get_distinct(s, i);
}

/// With distinct keys, each entry's key maps to its value.
pub proof fn lemma_get_distinct<K, V>(s: Seq<(K, V)>, i: int)
    requires
        keys_distinct(s),
        0 <= i < s.len(),
    ensures
        assoc_get(s, s[i].0) == Some(s[i].1),
    decreases s.len(),
{
    if i < s.len() - 1 {
        let t = s.drop_last();
        assert(t[i] == s[i]);
        assert(keys_distinct(t));
        lemma_get_distinct(t, i);
        assert(s[i].0 != s[s.len() - 1].0);
    }
}

} // verus!
