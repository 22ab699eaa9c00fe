//! Lists of key/value pairs read as maps.
//!
//! The store keeps its indexes as vectors of pairs with distinct keys; these
//! spec functions and lemmas say which map such a vector stands for and how
//! that map changes when the vector is pushed to, updated, shortened or
//! filtered.
use vstd::prelude::*;

verus! {

/// The map that a list of pairs stands for (a later pair wins).
pub open spec fn pairs_to_map<K, V>(s: Seq<(K, V)>) -> Map<K, V>
    decreases s.len(),
{
    if s.len() == 0 {
        Map::empty()
    } else {
        pairs_to_map(s.drop_last()).insert(s.last().0, s.last().1)
    }
}

/// No key occurs twice in the list.
pub open spec fn keys_unique<K, V>(s: Seq<(K, V)>) -> bool {
    forall|i: int, j: int| 0 <= i < s.len() && 0 <= j < s.len() && s[i].0 == s[j].0 ==> i == j
}

/// Some pair of the list has key `k`.
pub open spec fn has_key<K, V>(s: Seq<(K, V)>, k: K) -> bool {
    exists|i: int| 0 <= i < s.len() && s[i].0 == k
}

/// The pairs of `s` whose value is not `v`, in their order.
pub open spec fn drop_value<K, V>(s: Seq<(K, V)>, v: V) -> Seq<(K, V)>
    decreases s.len(),
{
    if s.len() == 0 {
        Seq::empty()
    } else {
        let rest = drop_value(s.drop_last(), v);
        if s.last().1 == v {
            rest
        } else {
            rest.push(s.last())
        }
    }
}

/// The entries of `m` whose value is not `v`.
pub open spec fn without_value<K, V>(m: Map<K, V>, v: V) -> Map<K, V> {
    Map::new(|k: K| m.contains_key(k) && m[k] != v, |k: K| m[k])
}

/// A key is in the map exactly when some pair carries it.
pub proof fn lemma_dom<K, V>(s: Seq<(K, V)>, k: K)
    ensures
        pairs_to_map(s).contains_key(k) <==> has_key(s, k),
    decreases s.len(),
{
    if s.len() > 0 {
        lemma_dom(s.drop_last(), k);
        if has_key(s.drop_last(), k) {
            let i = choose|i: int| 0 <= i < s.drop_last().len() && s.drop_last()[i].0 == k;
            assert(s[i].0 == k);
        }
        if has_key(s, k) && s.last().0 != k {
            let i = choose|i: int| 0 <= i < s.len() && s[i].0 == k;
            assert(s.drop_last()[i].0 == k);
        }
    }
}

/// With distinct keys, the map gives each pair's value for its key.
pub proof fn lemma_index<K, V>(s: Seq<(K, V)>, i: int)
    requires
        keys_unique(s),
        0 <= i < s.len(),
    ensures
        pairs_to_map(s).contains_key(s[i].0),
        pairs_to_map(s)[s[i].0] == s[i].1,
    decreases s.len(),
{
    if i < s.len() - 1 {
        let d = s.drop_last();
        assert(keys_unique(d));
        lemma_index(d, i);
        assert(d[i] == s[i]);
        assert(s[i].0 != s.last().0);
    }
}

/// Pushing a pair with a new key inserts it and keeps the keys distinct.
pub proof fn lemma_push<K, V>(s: Seq<(K, V)>, k: K, v: V)
    requires
        keys_unique(s),
        !has_key(s, k),
    ensures
        keys_unique(s.push((k, v))),
        pairs_to_map(s.push((k, v))) == pairs_to_map(s).insert(k, v),
{
    let t = s.push((k, v));
    assert(t.drop_last() =~= s);
    assert forall|i: int, j: int| 0 <= i < t.len() && 0 <= j < t.len() && t[i].0 == t[j].0 implies i
        == j by {
        if i < s.len() && j == s.len() {
            assert(s[i].0 == k);
        }
        if j < s.len() && i == s.len() {
            assert(s[j].0 == k);
        }
    }
}

/// Replacing the value of one pair replaces that key's value in the map.
pub proof fn lemma_update<K, V>(s: Seq<(K, V)>, i: int, v: V)
    requires
        keys_unique(s),
        0 <= i < s.len(),
    ensures
        keys_unique(s.update(i, (s[i].0, v))),
        pairs_to_map(s.update(i, (s[i].0, v))) == pairs_to_map(s).insert(s[i].0, v),
    decreases s.len(),
{
    let t = s.update(i, (s[i].0, v));
    assert forall|a: int, b: int| 0 <= a < t.len() && 0 <= b < t.len() && t[a].0 == t[b].0 implies a
        == b by {
        assert(t[a].0 == s[a].0 && t[b].0 == s[b].0);
    }
    if i == s.len() - 1 {
        assert(t.drop_last() =~= s.drop_last());
        assert(pairs_to_map(t) =~= pairs_to_map(s).insert(s[i].0, v));
    } else {
        let d = s.drop_last();
        assert(keys_unique(d));
        lemma_update(d, i, v);
        assert(t.drop_last() =~= d.update(i, (s[i].0, v)));
        assert(s[i].0 != s.last().0);
        assert(t.last() == s.last());
        assert(pairs_to_map(t) =~= pairs_to_map(s).insert(s[i].0, v));
    }
}

/// Removing one pair removes its key from the map and keeps the keys distinct.
pub proof fn lemma_remove<K, V>(s: Seq<(K, V)>, i: int)
    requires
        keys_unique(s),
        0 <= i < s.len(),
    ensures
        keys_unique(s.remove(i)),
        pairs_to_map(s.remove(i)) == pairs_to_map(s).remove(s[i].0),
    decreases s.len(),
{
    let t = s.remove(i);
    assert forall|a: int, b: int| 0 <= a < t.len() && 0 <= b < t.len() && t[a].0 == t[b].0 implies a
        == b by {
        let a2 = if a < i { a } else { a + 1 };
        let b2 = if b < i { b } else { b + 1 };
        assert(t[a] == s[a2] && t[b] == s[b2]);
    }
    let d = s.drop_last();
    assert(keys_unique(d));
    if i == s.len() - 1 {
        assert(t =~= d);
        if has_key(d, s[i].0) {
            let j = choose|j: int| 0 <= j < d.len() && d[j].0 == s[i].0;
            assert(s[j].0 == s[i].0);
        }
        lemma_dom(d, s[i].0);
        assert(pairs_to_map(t) =~= pairs_to_map(s).remove(s[i].0));
    } else {
        lemma_remove(d, i);
        assert(t.drop_last() =~= d.remove(i));
        assert(t.last() == s.last());
        assert(s[i].0 != s.last().0);
        assert(pairs_to_map(t) =~= pairs_to_map(s).remove(s[i].0));
    }
}

/// Every key of `drop_value(s, v)` is a key of `s`.
pub proof fn lemma_drop_value_keys<K, V>(s: Seq<(K, V)>, v: V, k: K)
    ensures
        has_key(drop_value(s, v), k) ==> has_key(s, k),
    decreases s.len(),
{
    if s.len() > 0 {
        let d = s.drop_last();
        lemma_drop_value_keys(d, v, k);
        let r = drop_value(s, v);
        if has_key(r, k) {
            let j = choose|j: int| 0 <= j < r.len() && r[j].0 == k;
            if j < drop_value(d, v).len() {
                assert(drop_value(d, v)[j].0 == k);
                let m = choose|m: int| 0 <= m < d.len() && d[m].0 == k;
                assert(s[m].0 == k);
            } else {
                assert(s[s.len() - 1].0 == k);
            }
        }
    }
}

/// Filtering out a value keeps the keys distinct and drops exactly the
/// entries with that value from the map.
pub proof fn lemma_drop_value<K, V>(s: Seq<(K, V)>, v: V)
    requires
        keys_unique(s),
    ensures
        keys_unique(drop_value(s, v)),
        pairs_to_map(drop_value(s, v)) == without_value(pairs_to_map(s), v),
    decreases s.len(),
{
    if s.len() == 0 {
        assert(pairs_to_map(drop_value(s, v)) =~= without_value(pairs_to_map(s), v));
    } else {
        let d = s.drop_last();
        let e = s.last();
        assert(keys_unique(d));
        lemma_drop_value(d, v);
        let r = drop_value(d, v);
        if has_key(d, e.0) {
            let j = choose|j: int| 0 <= j < d.len() && d[j].0 == e.0;
            assert(s[j].0 == s[s.len() - 1].0);
        }
        lemma_dom(d, e.0);
        if e.1 == v {
            assert(pairs_to_map(drop_value(s, v)) =~= without_value(pairs_to_map(s), v));
        } else {
            lemma_drop_value_keys(d, v, e.0);
            lemma_push(r, e.0, e.1);
            assert(pairs_to_map(drop_value(s, v)) =~= without_value(pairs_to_map(s), v));
        }
    }
}

} // verus!
