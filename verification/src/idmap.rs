//! Association vectors keyed by a numeric identifier, with a `Map` view.
//!
//! Positions, their alerts and their analytics are stored per position
//! identifier as `Vec<(u64, V)>` with pairwise distinct identifiers; the model
//! of such a vector is the map from identifier to value.

use vstd::prelude::*;

verus! {

/// The identifiers of an association sequence are pairwise distinct.
pub open spec fn distinct_ids<V>(s: Seq<(u64, V)>) -> bool {
    forall|i: int, j: int| 0 <= i < s.len() && 0 <= j < s.len() && i != j ==> s[i].0 != s[j].0
}

/// The map that an association sequence stands for.
pub open spec fn id_map<V>(s: Seq<(u64, V)>) -> Map<u64, V>
    decreases s.len(),
{
    if s.len() == 0 {
        Map::empty()
    } else {
        id_map(s.drop_last()).insert(s.last().0, s.last().1)
    }
}

pub proof fn lemma_id_map_dom<V>(s: Seq<(u64, V)>, k: u64)
    ensures
        id_map(s).dom().contains(k) <==> exists|i: int| 0 <= i < s.len() && s[i].0 == k,
    decreases s.len(),
{
    if s.len() > 0 {
        lemma_id_map_dom(s.drop_last(), k);
        if id_map(s.drop_last()).dom().contains(k) {
            let i = choose|i: int| 0 <= i < s.drop_last().len() && s.drop_last()[i].0 == k;
            assert(s[i].0 == k);
        }
        if exists|i: int| 0 <= i < s.len() && s[i].0 == k {
            let i = choose|i: int| 0 <= i < s.len() && s[i].0 == k;
            if i < s.len() - 1 {
                assert(s.drop_last()[i].0 == k);
            }
        }
    }
}

pub proof fn lemma_id_map_value<V>(s: Seq<(u64, V)>, i: int)
    requires
        distinct_ids(s),
        0 <= i < s.len(),
    ensures
        id_map(s).dom().contains(s[i].0),
        id_map(s)[s[i].0] == s[i].1,
    decreases s.len(),
{
    if i < s.len() - 1 {
        let t = s.drop_last();
        assert(t[i] == s[i]);
        assert(distinct_ids(t));
        lemma_id_map_value(t, i);
        assert(s.last().0 != s[i].0);
    }
}

/// Appending an entry under a fresh identifier inserts it into the map.
pub proof fn lemma_id_push<V>(s: Seq<(u64, V)>, k: u64, v: V)
    requires
        distinct_ids(s),
        !id_map(s).dom().contains(k),
    ensures
        distinct_ids(s.push((k, v))),
        id_map(s.push((k, v))) == id_map(s).insert(k, v),
{
    let t = s.push((k, v));
    assert(t.drop_last() =~= s);
    assert forall|i: int| 0 <= i < s.len() implies s[i].0 != k by {
        lemma_id_map_value(s, i);
    }
}

/// Replacing the value at an index keeps the identifiers and updates the map.
pub proof fn lemma_id_update<V>(s: Seq<(u64, V)>, i: int, v: V)
    requires
        distinct_ids(s),
        0 <= i < s.len(),
    ensures
        distinct_ids(s.update(i, (s[i].0, v))),
        id_map(s.update(i, (s[i].0, v))) == id_map(s).insert(s[i].0, v),
    decreases s.len(),
{
    let k = s[i].0;
    let t = s.update(i, (k, v));
    assert forall|a: int, b: int| 0 <= a < t.len() && 0 <= b < t.len() && a != b implies t[a].0 != t[b].0 by {
        assert(t[a].0 == s[a].0);
        assert(t[b].0 == s[b].0);
    }
    if i == s.len() - 1 {
        assert(t.drop_last() =~= s.drop_last());
    } else {
        assert(t.drop_last() =~= s.drop_last().update(i, (k, v)));
        assert(distinct_ids(s.drop_last()));
        lemma_id_update(s.drop_last(), i, v);
        assert(s.last().0 != k);
        assert(id_map(t) =~= id_map(s).insert(k, v));
    }
}

/// Position of the entry with identifier `k`, if there is one.
pub fn find_id<V>(v: &Vec<(u64, V)>, k: u64) -> (r: Option<usize>)
    requires
        distinct_ids(v@),
    ensures
        match r {
            Some(i) => {
                &&& i < v@.len()
                &&& v@[i as int].0 == k
                &&& id_map(v@).dom().contains(k)
                &&& id_map(v@)[k] == v@[i as int].1
            },
            None => !id_map(v@).dom().contains(k),
        },
{
    let mut i: usize = 0;
    while i < v.len()
        invariant
            i <= v@.len(),
            distinct_ids(v@),
            forall|j: int| 0 <= j < i ==> v@[j].0 != k,
        decreases v@.len() - i,
    {
        if v[i].0 == k {
            proof {
                lemma_id_map_value(v@, i as int);
            }
            return Some(i);
        }
        i = i + 1;
    }
    proof {
        lemma_id_map_dom(v@, k);
    }
    None
}

/// Set the value stored under `k`, adding the identifier when it is new.
pub fn upsert_id<V>(v: &mut Vec<(u64, V)>, k: u64, val: V)
    requires
        distinct_ids(old(v)@),
    ensures
        distinct_ids(final(v)@),
        id_map(final(v)@) == id_map(old(v)@).insert(k, val),
{
    match find_id(v, k) {
        Some(i) => {
            proof {
                lemma_id_update(v@, i as int, val);
            }
            v.set(i, (k, val));
        },
        None => {
            proof {
                lemma_id_push(v@, k, val);
            }
            v.push((k, val));
        },
    }
}

} // verus!
