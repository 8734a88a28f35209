//! String-keyed association vectors with a `Map` view.
//!
//! Several stores in this crate are keyed by an asset or adapter identifier.
//! They are held as `Vec<(String, V)>` with pairwise distinct keys; the
//! mathematical model of such a vector is the map from each key's characters
//! to its value.

use vstd::prelude::*;

verus! {

/// The keys of an association sequence are pairwise distinct.
pub open spec fn distinct_keys<V>(s: Seq<(String, V)>) -> bool {
    forall|i: int, j: int| 0 <= i < s.len() && 0 <= j < s.len() && i != j ==> s[i].0@ != s[j].0@
}

/// The map that an association sequence stands for.
pub open spec fn to_map<V>(s: Seq<(String, V)>) -> Map<Seq<char>, V>
    decreases s.len(),
{
    if s.len() == 0 {
        Map::empty()
    } else {
        to_map(s.drop_last()).insert(s.last().0@, s.last().1)
    }
}

/// Index of the entry holding key `k` (meaningful only when one exists).
pub open spec fn key_index<V>(s: Seq<(String, V)>, k: Seq<char>) -> int {
    choose|i: int| 0 <= i < s.len() && s[i].0@ == k
}

pub proof fn lemma_to_map_dom<V>(s: Seq<(String, V)>, k: Seq<char>)
    ensures
        to_map(s).dom().contains(k) <==> exists|i: int| 0 <= i < s.len() && s[i].0@ == k,
    decreases s.len(),
{
    if s.len() > 0 {
        lemma_to_map_dom(s.drop_last(), k);
        if to_map(s.drop_last()).dom().contains(k) {
            let i = choose|i: int| 0 <= i < s.drop_last().len() && s.drop_last()[i].0@ == k;
            assert(s[i].0@ == k);
        }
        if exists|i: int| 0 <= i < s.len() && s[i].0@ == k {
            let i = choose|i: int| 0 <= i < s.len() && s[i].0@ == k;
            if i < s.len() - 1 {
                assert(s.drop_last()[i].0@ == k);
            }
        }
    }
}

pub proof fn lemma_to_map_value<V>(s: Seq<(String, V)>, i: int)
    requires
        distinct_keys(s),
        0 <= i < s.len(),
    ensures
        to_map(s).dom().contains(s[i].0@),
        to_map(s)[s[i].0@] == s[i].1,
    decreases s.len(),
{
    if i < s.len() - 1 {
        let t = s.drop_last();
        assert(t[i] == s[i]);
        assert(distinct_keys(t));
        lemma_to_map_value(t, i);
        assert(s.last().0@ != s[i].0@);
    }
}

pub proof fn lemma_to_map_finite<V>(s: Seq<(String, V)>)
    ensures
        to_map(s).dom().finite(),
        to_map(s).dom().len() <= s.len(),
    decreases s.len(),
{
    if s.len() > 0 {
        lemma_to_map_finite(s.drop_last());
    }
}

pub proof fn lemma_to_map_len<V>(s: Seq<(String, V)>)
    requires
        distinct_keys(s),
    ensures
        to_map(s).dom().len() == s.len(),
    decreases s.len(),
{
    if s.len() > 0 {
        let t = s.drop_last();
        assert(distinct_keys(t));
        lemma_to_map_len(t);
        lemma_to_map_finite(t);
        lemma_to_map_dom(t, s.last().0@);
        if to_map(t).dom().contains(s.last().0@) {
            let i = choose|i: int| 0 <= i < t.len() && t[i].0@ == s.last().0@;
            assert(s[i].0@ == s[s.len() - 1].0@);
        }
    }
}

/// Appending an entry under a fresh key inserts it into the map.
pub proof fn lemma_push<V>(s: Seq<(String, V)>, k: String, v: V)
    requires
        distinct_keys(s),
        !to_map(s).dom().contains(k@),
    ensures
        distinct_keys(s.push((k, v))),
        to_map(s.push((k, v))) == to_map(s).insert(k@, v),
{
    let t = s.push((k, v));
    assert(t.drop_last() =~= s);
    assert forall|i: int| 0 <= i < s.len() implies s[i].0@ != k@ by {
        lemma_to_map_value(s, i);
    }
}

/// Replacing the value at an index keeps the keys and updates the map.
pub proof fn lemma_update<V>(s: Seq<(String, V)>, i: int, k: String, v: V)
    requires
        distinct_keys(s),
        0 <= i < s.len(),
        s[i].0@ == k@,
    ensures
        distinct_keys(s.update(i, (k, v))),
        to_map(s.update(i, (k, v))) == to_map(s).insert(k@, v),
    decreases s.len(),
{
    let t = s.update(i, (k, v));
    assert forall|a: int, b: int| 0 <= a < t.len() && 0 <= b < t.len() && a != b implies t[a].0@
        != t[b].0@ by {
        assert(t[a].0@ == s[a].0@);
        assert(t[b].0@ == s[b].0@);
    }
    if i == s.len() - 1 {
        assert(t.drop_last() =~= s.drop_last());
    } else {
        assert(t.drop_last() =~= s.drop_last().update(i, (k, v)));
        assert(distinct_keys(s.drop_last()));
        lemma_update(s.drop_last(), i, k, v);
        assert(s.last().0@ != k@);
        assert(to_map(t) =~= to_map(s).insert(k@, v));
    }
}

/// Removing the entry at an index removes its key from the map.
pub proof fn lemma_remove<V>(s: Seq<(String, V)>, i: int)
    requires
        distinct_keys(s),
        0 <= i < s.len(),
    ensures
        distinct_keys(s.remove(i)),
        to_map(s.remove(i)) == to_map(s).remove(s[i].0@),
    decreases s.len(),
{
    let t = s.remove(i);
    assert forall|a: int, b: int| 0 <= a < t.len() && 0 <= b < t.len() && a != b implies t[a].0@
        != t[b].0@ by {
        let a2 = if a < i { a } else { a + 1 };
        let b2 = if b < i { b } else { b + 1 };
        assert(t[a] == s[a2]);
        assert(t[b] == s[b2]);
    }
    if i == s.len() - 1 {
        assert(t =~= s.drop_last());
        lemma_to_map_dom(s.drop_last(), s[i].0@);
        if to_map(s.drop_last()).dom().contains(s[i].0@) {
            let j = choose|j: int| 0 <= j < s.drop_last().len() && s.drop_last()[j].0@ == s[i].0@;
            assert(s[j].0@ == s[i].0@);
        }
        assert(to_map(t) =~= to_map(s).remove(s[i].0@));
    } else {
        assert(t.drop_last() =~= s.drop_last().remove(i));
        assert(t.last() == s.last());
        assert(distinct_keys(s.drop_last()));
        lemma_remove(s.drop_last(), i);
        assert(s.last().0@ != s[i].0@);
        assert(to_map(t) =~= to_map(s).remove(s[i].0@));
    }
}

/// Position of the entry with key `k`, if there is one.
pub fn find_key<V>(v: &Vec<(String, V)>, k: &str) -> (r: Option<usize>)
    requires
        distinct_keys(v@),
    ensures
        match r {
            Some(i) => {
                &&& i < v@.len()
                &&& v@[i as int].0@ == k@
                &&& to_map(v@).dom().contains(k@)
                &&& to_map(v@)[k@] == v@[i as int].1
            },
            None => !to_map(v@).dom().contains(k@),
        },
{
    let key = String::from_str(k);
    let mut i: usize = 0;
    while i < v.len()
        invariant
            i <= v@.len(),
            key@ == k@,
            distinct_keys(v@),
            forall|j: int| 0 <= j < i ==> v@[j].0@ != k@,
        decreases v@.len() - i,
    {
        if v[i].0 == key {
            proof {
                lemma_to_map_value(v@, i as int);
            }
            return Some(i);
        }
        i = i + 1;
    }
    proof {
        lemma_to_map_dom(v@, k@);
    }
    None
}

/// Set the value stored under `k`, adding the key when it is new.
pub fn upsert<V>(v: &mut Vec<(String, V)>, k: &str, val: V)
    requires
        distinct_keys(old(v)@),
    ensures
        distinct_keys(final(v)@),
        to_map(final(v)@) == to_map(old(v)@).insert(k@, val),
{
    let key = String::from_str(k);
    match find_key(v, k) {
        Some(i) => {
            proof {
                lemma_update(v@, i as int, key, val);
            }
            v.set(i, (key, val));
        },
        None => {
            proof {
                lemma_push(v@, key, val);
            }
            v.push((key, val));
        },
    }
}

/// Remove the entry stored under `k`, if any.
pub fn remove_key<V>(v: &mut Vec<(String, V)>, k: &str)
    requires
        distinct_keys(old(v)@),
    ensures
        distinct_keys(final(v)@),
        to_map(final(v)@) == to_map(old(v)@).remove(k@),
{
    match find_key(v, k) {
        Some(i) => {
            proof {
                lemma_remove(v@, i as int);
            }
            let _ = v.remove(i);
        },
        None => {
            assert(to_map(v@) =~= to_map(v@).remove(k@));
        },
    }
}

/// The key views of a keyed sequence, in order.
pub open spec fn key_views<V>(s: Seq<(String, V)>) -> Seq<Seq<char>> {
    s.map_values(|p: (String, V)| p.0@)
}

/// The keys of a keyed vector, in order.
pub fn keys_of<V>(v: &Vec<(String, V)>) -> (r: Vec<String>)
    requires
        distinct_keys(v@),
    ensures
        r@.map_values(|s: String| s@) == key_views(v@),
        key_views(v@).no_duplicates(),
        forall|a: Seq<char>| key_views(v@).contains(a) <==> to_map(v@).dom().contains(a),
{
    let mut r: Vec<String> = Vec::new();
    let mut i: usize = 0;
    while i < v.len()
        invariant
            i <= v@.len(),
            r@.len() == i,
            forall|j: int| 0 <= j < i ==> #[trigger] r@[j]@ == v@[j].0@,
        decreases v@.len() - i,
    {
        r.push(v[i].0.clone());
        i = i + 1;
    }
    proof {
        assert(r@.map_values(|s: String| s@) =~= key_views(v@));
        assert forall|a: Seq<char>| key_views(v@).contains(a) <==> to_map(v@).dom().contains(a) by {
            lemma_to_map_dom(v@, a);
            if key_views(v@).contains(a) {
                let j = choose|j: int| 0 <= j < key_views(v@).len() && key_views(v@)[j] == a;
                assert(v@[j].0@ == a);
            }
            if to_map(v@).dom().contains(a) {
                let j = choose|j: int| 0 <= j < v@.len() && v@[j].0@ == a;
                assert(key_views(v@)[j] == a);
            }
        }
    }
    r
}

/// `k` lists every element of `s` exactly once.
pub open spec fn enumerates(k: Seq<Seq<char>>, s: Set<Seq<char>>) -> bool {
    &&& k.no_duplicates()
    &&& forall|a: Seq<char>| k.contains(a) <==> s.contains(a)
}

/// `r` lists the values of `m`, one per key, in some order.
pub open spec fn lists_values<V>(r: Seq<V>, m: Map<Seq<char>, V>) -> bool {
    exists|k: Seq<Seq<char>>|
        #[trigger] enumerates(k, m.dom()) && r.len() == k.len() && forall|i: int| 0 <= i < k.len() ==> r[i] == m[k[i]]
}

/// The value stored under `k`, or 0 when there is none.
pub open spec fn value_or_zero(m: Map<Seq<char>, u64>, k: Seq<char>) -> u64 {
    if m.dom().contains(k) {
        m[k]
    } else {
        0
    }
}

/// The value stored under `k`, or 0 when there is none.
pub fn get_or_zero(v: &Vec<(String, u64)>, k: &str) -> (r: u64)
    requires
        distinct_keys(v@),
    ensures
        r == value_or_zero(to_map(v@), k@),
{
    match find_key(v, k) {
        Some(i) => v[i].1,
        None => 0,
    }
}

/// References to the values of a keyed vector, in order.
pub fn values_of<V>(v: &Vec<(String, V)>) -> (r: Vec<&V>)
    requires
        distinct_keys(v@),
    ensures
        lists_values(r@.map_values(|x: &V| *x), to_map(v@)),
{
    let mut r: Vec<&V> = Vec::new();
    let mut i: usize = 0;
    while i < v.len()
        invariant
            i <= v@.len(),
            r@.len() == i,
            forall|j: int| 0 <= j < i ==> *#[trigger] r@[j] == v@[j].1,
        decreases v@.len() - i,
    {
        r.push(&v[i].1);
        i = i + 1;
    }
    proof {
        let k = key_views(v@);
        let rv = r@.map_values(|x: &V| *x);
        assert forall|a: Seq<char>| k.contains(a) <==> to_map(v@).dom().contains(a) by {
            lemma_to_map_dom(v@, a);
            if k.contains(a) {
                let j = choose|j: int| 0 <= j < k.len() && k[j] == a;
                assert(v@[j].0@ == a);
            }
            if to_map(v@).dom().contains(a) {
                let j = choose|j: int| 0 <= j < v@.len() && v@[j].0@ == a;
                assert(k[j] == a);
            }
        }
        assert(k.no_duplicates()) by {
            assert forall|a: int, b: int| 0 <= a < k.len() && 0 <= b < k.len() && a != b implies k[a] != k[b] by {
                assert(k[a] == v@[a].0@);
                assert(k[b] == v@[b].0@);
            }
        }
        assert forall|j: int| 0 <= j < k.len() implies rv[j] == to_map(v@)[k[j]] by {
            lemma_to_map_value(v@, j);
        }
        assert(enumerates(k, to_map(v@).dom()));
    }
    r
}

/// Replace the value stored at position `i`, keeping its key.
pub fn replace_at<V>(v: &mut Vec<(String, V)>, i: usize, val: V)
    requires
        distinct_keys(old(v)@),
        i < old(v)@.len(),
    ensures
        distinct_keys(final(v)@),
        to_map(final(v)@) == to_map(old(v)@).insert(old(v)@[i as int].0@, val),
{
    let ghost s0 = v@;
    let (k, _old_val) = v.remove(i);
    proof {
        assert(v@ == s0.remove(i as int));
        lemma_update(s0, i as int, k, val);
    }
    v.insert(i, (k, val));
    proof {
        assert(v@ =~= s0.update(i as int, (k, val)));
    }
}

} // verus!
