//! Keyed sequences: sequences of `(key, value)` pairs read as finite maps,
//! which is how sorted vectors stand for ordered maps in this crate.

use vstd::prelude::*;

use crate::text::{key_lt, chars_of, chars_less, chars_equal, lemma_key_lt_irreflexive, lemma_key_lt_total, lemma_key_lt_transitive};

verus! {

/// The map a keyed sequence stands for (a later pair wins over an earlier
/// pair with the same key).
pub open spec fn keyed_map<K, V>(s: Seq<(K, V)>) -> Map<K, V>
    decreases s.len(),
{
    if s.len() == 0 {
        Map::empty()
    } else {
        keyed_map(s.drop_last()).insert(s.last().0, s.last().1)
    }
}

/// No key occurs twice.
pub open spec fn keys_distinct<K, V>(s: Seq<(K, V)>) -> bool {
    forall|i: int, j: int| 0 <= i < s.len() && 0 <= j < s.len() && i != j ==> s[i].0 != s[j].0
}

/// Keys strictly ascending in the key order of character sequences.
pub open spec fn sorted_keys<V>(s: Seq<(Seq<char>, V)>) -> bool {
    forall|i: int, j: int| 0 <= i < j < s.len() ==> key_lt(#[trigger] s[i].0, #[trigger] s[j].0)
}

/// Strictly sorted keys are distinct.
pub proof fn lemma_sorted_keys_distinct<V>(s: Seq<(Seq<char>, V)>)
    requires
        sorted_keys(s),
    ensures
        keys_distinct(s),
{
    assert forall|i: int, j: int| 0 <= i < s.len() && 0 <= j < s.len() && i != j implies s[i].0 != s[j].0 by {
        if i < j {
            assert(key_lt(s[i].0, s[j].0));
            lemma_key_lt_irreflexive(s[i].0);
        } else {
            assert(key_lt(s[j].0, s[i].0));
            lemma_key_lt_irreflexive(s[j].0);
        }
    }
}

/// The domain of the map is the set of keys.
pub proof fn lemma_keyed_map_dom<K, V>(s: Seq<(K, V)>, k: K)
    ensures
        keyed_map(s).contains_key(k) <==> exists|i: int| 0 <= i < s.len() && #[trigger] s[i].0 == k,
    decreases s.len(),
{
    if s.len() > 0 {
        lemma_keyed_map_dom(s.drop_last(), k);
        if keyed_map(s).contains_key(k) && k != s.last().0 {
            let i = choose|i: int| 0 <= i < s.drop_last().len() && #[trigger] s.drop_last()[i].0 == k;
            assert(s[i].0 == k);
        }
        if exists|i: int| 0 <= i < s.len() && #[trigger] s[i].0 == k {
            let i = choose|i: int| 0 <= i < s.len() && #[trigger] s[i].0 == k;
            if i < s.len() - 1 {
                assert(s.drop_last()[i].0 == k);
            }
        }
    }
}

/// With distinct keys, each pair is in the map.
pub proof fn lemma_keyed_map_index<K, V>(s: Seq<(K, V)>, i: int)
    requires
        keys_distinct(s),
        0 <= i < s.len(),
    ensures
        keyed_map(s).contains_key(s[i].0),
        keyed_map(s)[s[i].0] == s[i].1,
    decreases s.len(),
{
    if i < s.len() - 1 {
        lemma_keyed_map_index(s.drop_last(), i);
    }
}

/// The map binds a key to its last occurrence.
pub proof fn lemma_keyed_map_last<K, V>(s: Seq<(K, V)>, i: int)
    requires
        0 <= i < s.len(),
        forall|j: int| i < j < s.len() ==> #[trigger] s[j].0 != s[i].0,
    ensures
        keyed_map(s).contains_key(s[i].0),
        keyed_map(s)[s[i].0] == s[i].1,
    decreases s.len(),
{
    if i < s.len() - 1 {
        lemma_keyed_map_last(s.drop_last(), i);
    }
}

/// Inserting a pair with a new key anywhere adds it to the map.
pub proof fn lemma_keyed_map_insert<K, V>(s: Seq<(K, V)>, p: int, e: (K, V))
    requires
        0 <= p <= s.len(),
        forall|j: int| 0 <= j < s.len() ==> #[trigger] s[j].0 != e.0,
    ensures
        keyed_map(s.insert(p, e)) == keyed_map(s).insert(e.0, e.1),
    decreases s.len(),
{
    if p == s.len() {
        assert(s.insert(p, e) =~= s.push(e));
        assert(s.push(e).drop_last() =~= s);
    } else {
        lemma_keyed_map_insert(s.drop_last(), p, e);
        let t = s.insert(p, e);
        assert(t.drop_last() =~= s.drop_last().insert(p, e));
        assert(t.last() == s.last());
        assert(keyed_map(t) =~= keyed_map(s).insert(e.0, e.1));
    }
}

/// Replacing the pair at a key's position rebinds that key.
pub proof fn lemma_keyed_map_update<K, V>(s: Seq<(K, V)>, p: int, e: (K, V))
    requires
        keys_distinct(s),
        0 <= p < s.len(),
        s[p].0 == e.0,
    ensures
        keyed_map(s.update(p, e)) == keyed_map(s).insert(e.0, e.1),
    decreases s.len(),
{
    let t = s.update(p, e);
    if p == s.len() - 1 {
        assert(t.drop_last() =~= s.drop_last());
        assert(keyed_map(t) =~= keyed_map(s).insert(e.0, e.1));
    } else {
        lemma_keyed_map_update(s.drop_last(), p, e);
        assert(t.drop_last() =~= s.drop_last().update(p, e));
        assert(s.last().0 != e.0);
        assert(keyed_map(t) =~= keyed_map(s).insert(e.0, e.1));
    }
}


/// Sortedness depends on the keys alone.
pub proof fn lemma_sorted_keys_same_keys<V, W>(a: Seq<(Seq<char>, V)>, b: Seq<(Seq<char>, W)>)
    requires
        sorted_keys(a),
        a.len() == b.len(),
        forall|i: int| 0 <= i < a.len() ==> #[trigger] a[i].0 == b[i].0,
    ensures
        sorted_keys(b),
{
    assert forall|i: int, j: int| 0 <= i < j < b.len() implies key_lt(#[trigger] b[i].0, #[trigger] b[j].0) by {
        assert(a[i].0 == b[i].0 && a[j].0 == b[j].0);
    }
}

/// Inserting a key at the position where it belongs keeps the keys sorted.
pub proof fn lemma_sorted_keys_insert<V>(s: Seq<(Seq<char>, V)>, p: int, e: (Seq<char>, V))
    requires
        sorted_keys(s),
        0 <= p <= s.len(),
        forall|j: int| 0 <= j < p ==> key_lt(#[trigger] s[j].0, e.0),
        forall|j: int| p <= j < s.len() ==> key_lt(e.0, #[trigger] s[j].0),
    ensures
        sorted_keys(s.insert(p, e)),
{
    let t = s.insert(p, e);
    assert forall|i: int, j: int| 0 <= i < j < t.len() implies key_lt(#[trigger] t[i].0, #[trigger] t[j].0) by {
        if i < p && j < p {
            assert(t[i] == s[i] && t[j] == s[j]);
        } else if i < p && j == p {
            assert(t[i] == s[i]);
        } else if i < p {
            assert(t[i] == s[i] && t[j] == s[j - 1]);
        } else if i == p {
            assert(t[j] == s[j - 1]);
        } else {
            assert(t[i] == s[i - 1] && t[j] == s[j - 1]);
        }
    }
}

/// Replacing a pair by one with the same key keeps the keys sorted.
pub proof fn lemma_sorted_keys_update<V>(s: Seq<(Seq<char>, V)>, p: int, e: (Seq<char>, V))
    requires
        sorted_keys(s),
        0 <= p < s.len(),
        s[p].0 == e.0,
    ensures
        sorted_keys(s.update(p, e)),
{
    let t = s.update(p, e);
    assert forall|i: int, j: int| 0 <= i < j < t.len() implies key_lt(#[trigger] t[i].0, #[trigger] t[j].0) by {
        assert(t[i].0 == s[i].0 && t[j].0 == s[j].0);
    }
}

/// Where `key` belongs in a vector sorted by key: every earlier key is
/// below it, and either the key is at that position or every later key is
/// above it.
pub fn find_slot<V>(v: &Vec<(String, V)>, key: &str) -> (r: (usize, bool))
    requires
        sorted_keys(v@.map_values(|e: (String, V)| (e.0@, e.1))),
    ensures
        r.0 <= v@.len(),
        forall|j: int| 0 <= j < r.0 ==> key_lt(#[trigger] v@[j].0@, key@),
        r.1 ==> r.0 < v@.len() && v@[r.0 as int].0@ == key@,
        !r.1 ==> forall|j: int| r.0 <= j < v@.len() ==> key_lt(key@, #[trigger] v@[j].0@),
{
    let ghost s = v@.map_values(|e: (String, V)| (e.0@, e.1));
    let k = chars_of(key);
    let n = v.len();
    let mut i: usize = 0;
    while i < n
        invariant
            n == v@.len(),
            s == v@.map_values(|e: (String, V)| (e.0@, e.1)),
            sorted_keys(s),
            k@ == key@,
            i <= n,
            forall|j: int| 0 <= j < i ==> key_lt(#[trigger] v@[j].0@, key@),
        decreases n - i,
    {
        let c = chars_of(v[i].0.as_str());
        if chars_equal(&c, &k) {
            return (i, true);
        }
        if chars_less(&k, &c) {
            assert forall|j: int| i <= j < v@.len() implies key_lt(key@, #[trigger] v@[j].0@) by {
                if j > i {
                    assert(key_lt(s[i as int].0, s[j].0));
                    lemma_key_lt_transitive(key@, v@[i as int].0@, v@[j].0@);
                }
            }
            return (i, false);
        }
        proof {
            lemma_key_lt_total(c@, k@);
        }
        i = i + 1;
    }
    (i, false)
}

} // verus!
