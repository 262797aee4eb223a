//! Why the canonical bytes do not depend on the order in which object
//! members were built: the sort is insensitive to reordering members with
//! distinct keys, at the top level and at every depth.

use vstd::prelude::*;

use crate::canonical::writer::{
    canonical, canonical_items, insert_by_key, lemma_member_encodings, quoted,
    member_encodings, sort_by_key,
};
use crate::json::Json;
use crate::keyed::keys_distinct;
use crate::text::{key_lt, lemma_key_lt_irreflexive, lemma_key_lt_total, lemma_key_lt_transitive};

verus! {

/// Two neighbouring entries exchanged.
spec fn swap_adjacent<T>(s: Seq<T>, i: int) -> Seq<T> {
    s.update(i, s[i + 1]).update(i + 1, s[i])
}

/// Inserting two entries with different keys gives the same sequence in
/// either order.
proof fn lemma_insert_commute<V>(t: Seq<(Seq<char>, V)>, a: (Seq<char>, V), b: (Seq<char>, V))
    requires
        a.0 != b.0,
    ensures
        insert_by_key(insert_by_key(t, a), b) == insert_by_key(insert_by_key(t, b), a),
    decreases t.len(),
{
    lemma_key_lt_total(a.0, b.0);
    if t.len() == 0 {
        assert(seq![a].drop_last() =~= Seq::<(Seq<char>, V)>::empty());
        assert(seq![b].drop_last() =~= Seq::<(Seq<char>, V)>::empty());
        assert(insert_by_key(Seq::<(Seq<char>, V)>::empty(), a) == seq![a]);
        assert(insert_by_key(Seq::<(Seq<char>, V)>::empty(), b) == seq![b]);
    } else {
        let l = t.last();
        let tp = t.drop_last();
        lemma_key_lt_total(a.0, l.0);
        lemma_key_lt_total(b.0, l.0);
        lemma_key_lt_irreflexive(l.0);
        if key_lt(a.0, l.0) && key_lt(b.0, l.0) {
            lemma_insert_commute(tp, a, b);
            assert(insert_by_key(tp, a).push(l).drop_last() =~= insert_by_key(tp, a));
            assert(insert_by_key(tp, b).push(l).drop_last() =~= insert_by_key(tp, b));
        } else if key_lt(a.0, l.0) {
            if b.0 != l.0 {
                lemma_key_lt_transitive(a.0, l.0, b.0);
            }
            assert(t.push(b).drop_last() =~= t);
        } else if key_lt(b.0, l.0) {
            if a.0 != l.0 {
                lemma_key_lt_transitive(b.0, l.0, a.0);
            }
            assert(t.push(a).drop_last() =~= t);
        } else {
            assert(t.push(a).drop_last() =~= t);
            assert(t.push(b).drop_last() =~= t);
        }
    }
}

/// Sorting a prefix that covers the exchanged pair gives the same result
/// with or without the exchange.
proof fn lemma_sort_prefix_swap<V>(s: Seq<(Seq<char>, V)>, i: int, n: int)
    requires
        0 <= i,
        i + 2 <= n <= s.len(),
        s[i].0 != s[i + 1].0,
    ensures
        sort_by_key(swap_adjacent(s, i).take(n)) == sort_by_key(s.take(n)),
    decreases n,
{
    let w = swap_adjacent(s, i);
    if n == i + 2 {
        assert(w.take(n).drop_last() =~= s.take(i).push(s[i + 1]));
        assert(s.take(n).drop_last() =~= s.take(i).push(s[i]));
        assert(s.take(i).push(s[i + 1]).drop_last() =~= s.take(i));
        assert(s.take(i).push(s[i]).drop_last() =~= s.take(i));
        let base = sort_by_key(s.take(i));
        assert(sort_by_key(s.take(i).push(s[i + 1])) == insert_by_key(base, s[i + 1]));
        assert(sort_by_key(s.take(i).push(s[i])) == insert_by_key(base, s[i]));
        assert(w.take(n).last() == s[i]);
        assert(s.take(n).last() == s[i + 1]);
        assert(sort_by_key(w.take(n)) == insert_by_key(insert_by_key(base, s[i + 1]), s[i]));
        assert(sort_by_key(s.take(n)) == insert_by_key(insert_by_key(base, s[i]), s[i + 1]));
        lemma_insert_commute(base, s[i], s[i + 1]);
    } else {
        lemma_sort_prefix_swap(s, i, n - 1);
        assert(w.take(n).drop_last() =~= w.take(n - 1));
        assert(s.take(n).drop_last() =~= s.take(n - 1));
        assert(w.take(n).last() == s.take(n).last());
    }
}

/// Exchanging two neighbouring members with different keys does not change
/// the sorted order.
proof fn lemma_sort_swap<V>(s: Seq<(Seq<char>, V)>, i: int)
    requires
        0 <= i < s.len() - 1,
        s[i].0 != s[i + 1].0,
    ensures
        sort_by_key(swap_adjacent(s, i)) == sort_by_key(s),
{
    lemma_sort_prefix_swap(s, i, s.len() as int);
    assert(swap_adjacent(s, i).take(s.len() as int) =~= swap_adjacent(s, i));
    assert(s.take(s.len() as int) =~= s);
}

/// Moving one entry of a sequence with distinct keys to the end does not
/// change the sorted order.
proof fn lemma_sort_move_to_end<V>(s: Seq<(Seq<char>, V)>, k: int)
    requires
        0 <= k < s.len(),
        keys_distinct(s),
    ensures
        sort_by_key(s.remove(k).push(s[k])) == sort_by_key(s),
    decreases s.len() - k,
{
    if k == s.len() - 1 {
        assert(s.remove(k).push(s[k]) =~= s);
    } else {
        let t = swap_adjacent(s, k);
        lemma_sort_swap(s, k);
        assert(keys_distinct(t)) by {
            assert forall|i: int, j: int| 0 <= i < t.len() && 0 <= j < t.len() && i != j implies t[i].0 != t[j].0 by {
                let pi = if i == k { k + 1 } else if i == k + 1 { k } else { i };
                let pj = if j == k { k + 1 } else if j == k + 1 { k } else { j };
                assert(t[i] == s[pi] && t[j] == s[pj]);
            }
        }
        lemma_sort_move_to_end(t, k + 1);
        assert(t.remove(k + 1).push(t[k + 1]) =~= s.remove(k).push(s[k]));
    }
}

/// A reordering of a sequence with distinct keys has distinct keys too.
proof fn lemma_reordered_keys_distinct<V>(a: Seq<(Seq<char>, V)>, b: Seq<(Seq<char>, V)>)
    requires
        keys_distinct(a),
        a.to_multiset() == b.to_multiset(),
    ensures
        keys_distinct(b),
{
    broadcast use vstd::seq_lib::group_to_multiset_ensures;

    assert(a.no_duplicates());
    a.lemma_multiset_has_no_duplicates();
    b.lemma_multiset_has_no_duplicates_conv();
    assert forall|i: int, j: int| 0 <= i < b.len() && 0 <= j < b.len() && i != j implies b[i].0 != b[j].0 by {
        assert(b.contains(b[i]));
        assert(b.contains(b[j]));
        assert(a.to_multiset().count(b[i]) > 0);
        assert(a.to_multiset().count(b[j]) > 0);
        assert(a.contains(b[i]));
        assert(a.contains(b[j]));
        let p = choose|p: int| 0 <= p < a.len() && a[p] == b[i];
        let q = choose|q: int| 0 <= q < a.len() && a[q] == b[j];
        assert(b[i] != b[j]);
    }
}

/// Sorting the encodings of two orderings of the same members, with
/// distinct keys, gives the same result.
proof fn lemma_sort_encodings_reordered(a: Seq<(Seq<char>, Json)>, b: Seq<(Seq<char>, Json)>)
    requires
        keys_distinct(a),
        a.to_multiset() == b.to_multiset(),
    ensures
        sort_by_key(member_encodings(a)) == sort_by_key(member_encodings(b)),
    decreases a.len(),
{
    broadcast use vstd::seq_lib::group_to_multiset_ensures;

    lemma_reordered_keys_distinct(a, b);
    lemma_member_encodings(a);
    lemma_member_encodings(b);
    if a.len() == 0 {
        assert(b.len() == b.to_multiset().len());
        assert(a.len() == a.to_multiset().len());
        assert(b.len() == 0);
        assert(member_encodings(b) =~= Seq::<(Seq<char>, Seq<u8>)>::empty());
    } else {
        let e = a.last();
        let rest = a.drop_last();
        assert(rest.push(e) =~= a);
        assert(b.to_multiset().count(e) > 0);
        assert(b.contains(e));
        let k = choose|k: int| 0 <= k < b.len() && b[k] == e;
        let br = b.remove(k);
        assert(br.to_multiset() == rest.to_multiset()) by {
            assert(a.to_multiset() =~= rest.to_multiset().insert(e));
            assert(br.to_multiset() =~= b.to_multiset().remove(e));
            assert(rest.to_multiset() =~= rest.to_multiset().insert(e).remove(e));
        }
        assert(keys_distinct(rest)) by {
            assert forall|i: int, j: int| 0 <= i < rest.len() && 0 <= j < rest.len() && i != j implies rest[i].0 != rest[j].0 by {
                assert(rest[i] == a[i] && rest[j] == a[j]);
            }
        }
        lemma_sort_encodings_reordered(rest, br);
        let eb = member_encodings(b);
        lemma_member_encodings(br);
        lemma_member_encodings(rest);
        assert(keys_distinct(eb)) by {
            assert forall|i: int, j: int| 0 <= i < eb.len() && 0 <= j < eb.len() && i != j implies eb[i].0 != eb[j].0 by {
                assert(eb[i].0 == b[i].0 && eb[j].0 == b[j].0);
            }
        }
        lemma_sort_move_to_end(eb, k);
        assert(eb.remove(k).push(eb[k]) =~= member_encodings(br).push(eb[k]));
        assert(member_encodings(br).push(eb[k]).drop_last() =~= member_encodings(br));
        assert(member_encodings(a).drop_last() =~= member_encodings(rest));
        assert(member_encodings(a).last() == eb[k]);
    }
}

/// The canonical bytes of an object do not depend on the order in which
/// its members were built: any two orderings of the same members, with
/// distinct keys, are written identically.
pub proof fn lemma_canonical_member_order(a: Seq<(Seq<char>, Json)>, b: Seq<(Seq<char>, Json)>)
    requires
        keys_distinct(a),
        a.to_multiset() == b.to_multiset(),
    ensures
        canonical(Json::Object(a)) == canonical(Json::Object(b)),
{
    lemma_sort_encodings_reordered(a, b);
}

/// How a JSON value is reordered into another: the evidence that two
/// values differ only in the order in which the members of their objects
/// were built.
pub enum Reordering {
    /// The two values are equal.
    Same,
    /// Two arrays whose items are reordered pairwise.
    Items(Seq<Reordering>),
    /// Two objects: the members of the first, with the same keys in the
    /// same order and each value reordered, are the members of the second,
    /// each as often, in another order.
    Members(Seq<(Seq<char>, Json)>, Seq<Reordering>),
}

/// `w` reorders `a` into `b`, and every object whose members it reorders
/// has distinct keys.
pub open spec fn reorders(w: Reordering, a: Json, b: Json) -> bool
    decreases w,
{
    match w {
        Reordering::Same => a == b,
        Reordering::Items(ws) => match (a, b) {
            (Json::Array(x), Json::Array(y)) => items_reorder(ws, x, y),
            _ => false,
        },
        Reordering::Members(c, ws) => match (a, b) {
            (Json::Object(x), Json::Object(y)) => keys_distinct(x) && values_reorder(ws, x, c)
                && c.to_multiset() == y.to_multiset(),
            _ => false,
        },
    }
}

/// Array items reordered pairwise.
pub open spec fn items_reorder(ws: Seq<Reordering>, x: Seq<Json>, y: Seq<Json>) -> bool
    decreases ws,
{
    if ws.len() == 0 {
        x.len() == 0 && y.len() == 0
    } else {
        x.len() > 0 && y.len() > 0 && items_reorder(ws.drop_last(), x.drop_last(), y.drop_last())
            && reorders(ws.last(), x.last(), y.last())
    }
}

/// Members with the same keys in the same order, each value reordered.
pub open spec fn values_reorder(ws: Seq<Reordering>, x: Seq<(Seq<char>, Json)>, c: Seq<(Seq<char>, Json)>) -> bool
    decreases ws,
{
    if ws.len() == 0 {
        x.len() == 0 && c.len() == 0
    } else {
        x.len() > 0 && c.len() > 0 && values_reorder(ws.drop_last(), x.drop_last(), c.drop_last())
            && x.last().0 == c.last().0 && reorders(ws.last(), x.last().1, c.last().1)
    }
}

proof fn lemma_items_reorder_canonical(ws: Seq<Reordering>, x: Seq<Json>, y: Seq<Json>)
    requires
        items_reorder(ws, x, y),
    ensures
        canonical_items(x) == canonical_items(y),
    decreases ws,
{
    if ws.len() > 0 {
        lemma_items_reorder_canonical(ws.drop_last(), x.drop_last(), y.drop_last());
        lemma_reorders_canonical(ws.last(), x.last(), y.last());
    }
}

proof fn lemma_values_reorder_encodings(ws: Seq<Reordering>, x: Seq<(Seq<char>, Json)>, c: Seq<(Seq<char>, Json)>)
    requires
        values_reorder(ws, x, c),
    ensures
        member_encodings(x) == member_encodings(c),
        c.len() == x.len(),
        forall|i: int| 0 <= i < x.len() ==> #[trigger] c[i].0 == x[i].0,
    decreases ws,
{
    if ws.len() > 0 {
        lemma_values_reorder_encodings(ws.drop_last(), x.drop_last(), c.drop_last());
        lemma_reorders_canonical(ws.last(), x.last().1, c.last().1);
        assert forall|i: int| 0 <= i < x.len() implies #[trigger] c[i].0 == x[i].0 by {
            if i < x.len() - 1 {
                assert(c.drop_last()[i] == c[i] && x.drop_last()[i] == x[i]);
            }
        }
    }
}

proof fn lemma_reorders_canonical(w: Reordering, a: Json, b: Json)
    requires
        reorders(w, a, b),
    ensures
        canonical(a) == canonical(b),
    decreases w,
{
    match w {
        Reordering::Same => {},
        Reordering::Items(ws) => {
            lemma_items_reorder_canonical(ws, a->Array_0, b->Array_0);
        },
        Reordering::Members(c, ws) => {
            let x = a->Object_0;
            let y = b->Object_0;
            lemma_values_reorder_encodings(ws, x, c);
            assert(keys_distinct(c)) by {
                assert forall|i: int, j: int| 0 <= i < c.len() && 0 <= j < c.len() && i != j implies c[i].0 != c[j].0 by {
                    assert(c[i].0 == x[i].0 && c[j].0 == x[j].0);
                }
            }
            lemma_canonical_member_order(c, y);
        },
    }
}

/// The canonical bytes of a value do not depend on the order in which the
/// members of its objects were built, at any depth: whenever `w` shows
/// that `b` differs from `a` only in that order, with distinct keys in
/// every object reordered, the two are written identically.
pub proof fn lemma_canonical_ignores_member_order(w: Reordering, a: Json, b: Json)
    requires
        reorders(w, a, b),
    ensures
        canonical(a) == canonical(b),
{
    lemma_reorders_canonical(w, a, b);
}

/// Keys in ascending order: no key is below one before it.
pub open spec fn keys_ascending<V>(s: Seq<(Seq<char>, V)>) -> bool {
    forall|i: int, j: int| 0 <= i < j < s.len() ==> !key_lt(#[trigger] s[j].0, #[trigger] s[i].0)
}

proof fn lemma_insert_by_key_props<V>(t: Seq<(Seq<char>, V)>, e: (Seq<char>, V))
    requires
        keys_ascending(t),
    ensures
        keys_ascending(insert_by_key(t, e)),
        insert_by_key(t, e).to_multiset() == t.to_multiset().insert(e),
    decreases t.len(),
{
    broadcast use vstd::seq_lib::group_to_multiset_ensures;

    if t.len() == 0 {
        assert(insert_by_key(t, e) == seq![e]);
        assert(seq![e] =~= Seq::<(Seq<char>, V)>::empty().push(e));
    } else {
        let l = t.last();
        let tp = t.drop_last();
        assert(tp.push(l) =~= t);
        assert(keys_ascending(tp)) by {
            assert forall|i: int, j: int| 0 <= i < j < tp.len() implies !key_lt(#[trigger] tp[j].0, #[trigger] tp[i].0) by {
                assert(tp[i] == t[i] && tp[j] == t[j]);
            }
        }
        lemma_key_lt_total(e.0, l.0);
        if key_lt(e.0, l.0) {
            let r0 = insert_by_key(tp, e);
            lemma_insert_by_key_props(tp, e);
            let r = r0.push(l);
            assert(insert_by_key(t, e) == r);
            assert(r.to_multiset() =~= t.to_multiset().insert(e));
            assert forall|i: int, j: int| 0 <= i < j < r.len() implies !key_lt(#[trigger] r[j].0, #[trigger] r[i].0) by {
                if j < r.len() - 1 {
                    assert(r[i] == r0[i] && r[j] == r0[j]);
                } else {
                    assert(r[j] == l);
                    assert(r[i] == r0[i]);
                    assert(r0.contains(r0[i]));
                    assert(r0.to_multiset().count(r0[i]) > 0);
                    if r0[i] != e {
                        assert(tp.to_multiset().count(r0[i]) > 0);
                        assert(tp.contains(r0[i]));
                        let m = choose|m: int| 0 <= m < tp.len() && tp[m] == r0[i];
                        assert(t[m] == tp[m] && t[t.len() - 1] == l);
                    }
                }
            }
        } else {
            let r = t.push(e);
            assert(insert_by_key(t, e) == r);
            assert forall|i: int, j: int| 0 <= i < j < r.len() implies !key_lt(#[trigger] r[j].0, #[trigger] r[i].0) by {
                if j < r.len() - 1 {
                    assert(r[i] == t[i] && r[j] == t[j]);
                } else {
                    assert(r[i] == t[i]);
                    if i < t.len() - 1 {
                        assert(!key_lt(t[t.len() - 1].0, t[i].0));
                        lemma_key_lt_total(t[i].0, l.0);
                        if key_lt(e.0, t[i].0) {
                            if e.0 != l.0 {
                                lemma_key_lt_transitive(l.0, e.0, t[i].0);
                            }
                        }
                    }
                }
            }
        }
    }
}

proof fn lemma_sort_by_key_props<V>(s: Seq<(Seq<char>, V)>)
    ensures
        keys_ascending(sort_by_key(s)),
        sort_by_key(s).to_multiset() == s.to_multiset(),
    decreases s.len(),
{
    broadcast use vstd::seq_lib::group_to_multiset_ensures;

    if s.len() > 0 {
        lemma_sort_by_key_props(s.drop_last());
        lemma_insert_by_key_props(sort_by_key(s.drop_last()), s.last());
        assert(s.drop_last().push(s.last()) =~= s);
    } else {
        assert(s.to_multiset() =~= vstd::multiset::Multiset::empty());
        assert(sort_by_key(s).to_multiset() =~= vstd::multiset::Multiset::empty());
    }
}

proof fn lemma_sort_by_key_ascending<V>(s: Seq<(Seq<char>, V)>)
    requires
        keys_ascending(s),
    ensures
        sort_by_key(s) == s,
    decreases s.len(),
{
    if s.len() > 0 {
        let p = s.drop_last();
        assert(keys_ascending(p)) by {
            assert forall|i: int, j: int| 0 <= i < j < p.len() implies !key_lt(#[trigger] p[j].0, #[trigger] p[i].0) by {
                assert(p[i] == s[i] && p[j] == s[j]);
            }
        }
        lemma_sort_by_key_ascending(p);
        if p.len() == 0 {
            assert(insert_by_key(p, s.last()) == seq![s.last()]);
            assert(s =~= seq![s.last()]);
        } else {
            assert(p.last() == s[s.len() - 2]);
            assert(!key_lt(s[s.len() - 1].0, s[s.len() - 2].0));
            assert(p.push(s.last()) =~= s);
        }
    }
}

/// The key sort the writer applies to every object's members keeps every
/// member, each as often; puts the keys in ascending order; and leaves a
/// sequence whose keys are already ascending as it is, so sorting twice is
/// sorting once.
pub proof fn lemma_key_sort(s: Seq<(Seq<char>, Seq<u8>)>)
    ensures
        sort_by_key(s).to_multiset() == s.to_multiset(),
        keys_ascending(sort_by_key(s)),
        keys_ascending(s) ==> sort_by_key(s) == s,
        sort_by_key(sort_by_key(s)) == sort_by_key(s),
{
    lemma_sort_by_key_props(s);
    if keys_ascending(s) {
        lemma_sort_by_key_ascending(s);
    }
    lemma_sort_by_key_ascending(sort_by_key(s));
}

/// Sorting a sequence whose keys are already ascending leaves it as it is,
/// so sorting twice is sorting once.
proof fn lemma_sort_idempotent<V>(s: Seq<(Seq<char>, V)>)
    ensures
        sort_by_key(sort_by_key(s)) == sort_by_key(s),
        keys_ascending(sort_by_key(s)),
        sort_by_key(s).to_multiset() == s.to_multiset(),
{
    lemma_sort_by_key_props(s);
    lemma_sort_by_key_ascending(sort_by_key(s));
}

/// Changing each entry's value but not its key commutes with insertion.
proof fn lemma_insert_map<V, W>(t: Seq<(Seq<char>, V)>, e: (Seq<char>, V), f: spec_fn((Seq<char>, V)) -> (Seq<char>, W))
    requires
        forall|x: (Seq<char>, V)| #[trigger] f(x).0 == x.0,
    ensures
        insert_by_key(t.map_values(f), f(e)) == insert_by_key(t, e).map_values(f),
    decreases t.len(),
{
    let mt = t.map_values(f);
    assert(f(e).0 == e.0);
    if t.len() == 0 {
        assert(mt =~= Seq::<(Seq<char>, W)>::empty());
        assert(seq![e].map_values(f) =~= seq![f(e)]);
    } else {
        let l = t.last();
        let tp = t.drop_last();
        assert(mt.drop_last() =~= tp.map_values(f));
        assert(mt.last() == f(l));
        assert(f(l).0 == l.0);
        if key_lt(e.0, l.0) {
            lemma_insert_map(tp, e, f);
            assert(insert_by_key(tp, e).push(l).map_values(f) =~= insert_by_key(tp, e).map_values(f).push(f(l)));
        } else {
            assert(t.push(e).map_values(f) =~= mt.push(f(e)));
        }
    }
}

/// Changing each entry's value but not its key commutes with sorting.
proof fn lemma_sort_map<V, W>(s: Seq<(Seq<char>, V)>, f: spec_fn((Seq<char>, V)) -> (Seq<char>, W))
    requires
        forall|x: (Seq<char>, V)| #[trigger] f(x).0 == x.0,
    ensures
        sort_by_key(s.map_values(f)) == sort_by_key(s).map_values(f),
    decreases s.len(),
{
    if s.len() == 0 {
        assert(s.map_values(f) =~= Seq::<(Seq<char>, W)>::empty());
        assert(sort_by_key(s).map_values(f) =~= Seq::<(Seq<char>, W)>::empty());
    } else {
        lemma_sort_map(s.drop_last(), f);
        assert(s.map_values(f).drop_last() =~= s.drop_last().map_values(f));
        lemma_insert_map(sort_by_key(s.drop_last()), s.last(), f);
    }
}

/// A value with every object's members sorted by key, at every depth, and
/// arrays kept in their order: the value the canonical writer writes.
pub open spec fn key_sorted(j: Json) -> Json
    decreases j,
{
    match j {
        Json::Array(items) => Json::Array(key_sorted_items(items)),
        Json::Object(members) => Json::Object(sort_by_key(key_sorted_members(members))),
        _ => j,
    }
}

/// Each item [`key_sorted`], in order.
pub open spec fn key_sorted_items(items: Seq<Json>) -> Seq<Json>
    decreases items,
{
    if items.len() == 0 {
        Seq::empty()
    } else {
        key_sorted_items(items.drop_last()).push(key_sorted(items.last()))
    }
}

/// Each member with its key and its value [`key_sorted`], in order.
pub open spec fn key_sorted_members(members: Seq<(Seq<char>, Json)>) -> Seq<(Seq<char>, Json)>
    decreases members,
{
    if members.len() == 0 {
        Seq::empty()
    } else {
        key_sorted_members(members.drop_last()).push((members.last().0, key_sorted(members.last().1)))
    }
}

/// Keys ascending in every object, at every depth.
pub open spec fn sorted_at_every_depth(j: Json) -> bool
    decreases j,
{
    match j {
        Json::Array(items) => items_sorted_at_every_depth(items),
        Json::Object(members) => keys_ascending(members) && values_sorted_at_every_depth(members),
        _ => true,
    }
}

/// Every item is [`sorted_at_every_depth`].
pub open spec fn items_sorted_at_every_depth(items: Seq<Json>) -> bool
    decreases items,
{
    if items.len() == 0 {
        true
    } else {
        items_sorted_at_every_depth(items.drop_last()) && sorted_at_every_depth(items.last())
    }
}

/// Every member's value is [`sorted_at_every_depth`].
pub open spec fn values_sorted_at_every_depth(members: Seq<(Seq<char>, Json)>) -> bool
    decreases members,
{
    if members.len() == 0 {
        true
    } else {
        values_sorted_at_every_depth(members.drop_last()) && sorted_at_every_depth(members.last().1)
    }
}

/// The member entry with its value key-sorted.
spec fn sort_value(e: (Seq<char>, Json)) -> (Seq<char>, Json) {
    (e.0, key_sorted(e.1))
}

/// The encoding of a member, as the writer forms it.
spec fn encode_member(e: (Seq<char>, Json)) -> (Seq<char>, Seq<u8>) {
    (e.0, quoted(e.0) + seq![0x3au8] + canonical(e.1))
}

proof fn lemma_key_sorted_members_len(m: Seq<(Seq<char>, Json)>)
    ensures
        key_sorted_members(m).len() == m.len(),
        forall|i: int| 0 <= i < m.len() ==> #[trigger] key_sorted_members(m)[i] == sort_value(m[i]),
    decreases m.len(),
{
    if m.len() > 0 {
        lemma_key_sorted_members_len(m.drop_last());
    }
}

proof fn lemma_key_sorted_items_len(items: Seq<Json>)
    ensures
        key_sorted_items(items).len() == items.len(),
        forall|i: int| 0 <= i < items.len() ==> #[trigger] key_sorted_items(items)[i] == key_sorted(items[i]),
    decreases items.len(),
{
    if items.len() > 0 {
        lemma_key_sorted_items_len(items.drop_last());
    }
}

proof fn lemma_items_key_sorted_props(items: Seq<Json>)
    ensures
        canonical_items(key_sorted_items(items)) == canonical_items(items),
        key_sorted_items(key_sorted_items(items)) == key_sorted_items(items),
        items_sorted_at_every_depth(key_sorted_items(items)),
    decreases items,
{
    if items.len() > 0 {
        lemma_items_key_sorted_props(items.drop_last());
        lemma_key_sorted_props(items.last());
        let k = key_sorted_items(items);
        assert(k.drop_last() == key_sorted_items(items.drop_last()));
        assert(k.last() == key_sorted(items.last()));
    }
}

proof fn lemma_members_key_sorted_props(m: Seq<(Seq<char>, Json)>)
    ensures
        member_encodings(key_sorted_members(m)) == member_encodings(m),
        key_sorted_members(key_sorted_members(m)) == key_sorted_members(m),
        values_sorted_at_every_depth(key_sorted_members(m)),
    decreases m,
{
    if m.len() > 0 {
        lemma_members_key_sorted_props(m.drop_last());
        lemma_key_sorted_props(m.last().1);
        let k = key_sorted_members(m);
        assert(k.drop_last() == key_sorted_members(m.drop_last()));
        assert(k.last() == (m.last().0, key_sorted(m.last().1)));
    }
}

proof fn lemma_values_sorted_from_elements(m: Seq<(Seq<char>, Json)>)
    requires
        forall|i: int| 0 <= i < m.len() ==> sorted_at_every_depth(#[trigger] m[i].1),
    ensures
        values_sorted_at_every_depth(m),
    decreases m.len(),
{
    if m.len() > 0 {
        let p = m.drop_last();
        assert forall|i: int| 0 <= i < p.len() implies sorted_at_every_depth(#[trigger] p[i].1) by {
            assert(p[i] == m[i]);
        }
        lemma_values_sorted_from_elements(p);
        assert(sorted_at_every_depth(m[m.len() - 1].1));
    }
}

proof fn lemma_values_sorted_elements(m: Seq<(Seq<char>, Json)>)
    requires
        values_sorted_at_every_depth(m),
    ensures
        forall|i: int| 0 <= i < m.len() ==> sorted_at_every_depth(#[trigger] m[i].1),
    decreases m.len(),
{
    if m.len() > 0 {
        let p = m.drop_last();
        lemma_values_sorted_elements(p);
        assert forall|i: int| 0 <= i < m.len() implies sorted_at_every_depth(#[trigger] m[i].1) by {
            if i < m.len() - 1 {
                assert(p[i] == m[i]);
            }
        }
    }
}

proof fn lemma_key_sorted_props(j: Json)
    ensures
        canonical(key_sorted(j)) == canonical(j),
        key_sorted(key_sorted(j)) == key_sorted(j),
        sorted_at_every_depth(key_sorted(j)),
    decreases j,
{
    broadcast use vstd::seq_lib::group_to_multiset_ensures;

    match j {
        Json::Array(items) => {
            lemma_items_key_sorted_props(items);
        },
        Json::Object(m) => {
            let ksm = key_sorted_members(m);
            lemma_members_key_sorted_props(m);
            lemma_key_sorted_members_len(m);
            let enc = |e: (Seq<char>, Json)| encode_member(e);
            let sv = |e: (Seq<char>, Json)| sort_value(e);
            let sorted = sort_by_key(ksm);
            // The writer's bytes.
            lemma_member_encodings(sorted);
            lemma_member_encodings(ksm);
            lemma_member_encodings(m);
            assert(member_encodings(sorted) =~= sorted.map_values(enc));
            assert(member_encodings(ksm) =~= ksm.map_values(enc));
            lemma_sort_map(ksm, enc);
            lemma_sort_idempotent(member_encodings(ksm));
            assert(sort_by_key(member_encodings(sorted)) == sort_by_key(member_encodings(m)));
            // Sorting again changes nothing.
            lemma_key_sorted_members_len(sorted);
            lemma_key_sorted_members_len(ksm);
            assert(key_sorted_members(sorted) =~= sorted.map_values(sv));
            assert(key_sorted_members(ksm) =~= ksm.map_values(sv));
            lemma_sort_map(ksm, sv);
            lemma_sort_idempotent(ksm);
            assert(key_sorted(key_sorted(j)) == Json::Object(sort_by_key(key_sorted_members(sorted))));
            // Keys ascending, and every value sorted at every depth.
            lemma_values_sorted_elements(ksm);
            assert forall|i: int| 0 <= i < sorted.len() implies sorted_at_every_depth(#[trigger] sorted[i].1) by {
                assert(sorted.contains(sorted[i]));
                assert(ksm.to_multiset().count(sorted[i]) > 0);
                assert(ksm.contains(sorted[i]));
                let a = choose|a: int| 0 <= a < ksm.len() && ksm[a] == sorted[i];
            }
            lemma_values_sorted_from_elements(sorted);
        },
        _ => {},
    }
}

/// What the canonical writer's key sort promises of a whole value: the
/// key-sorted value keeps every member with its key and every array item
/// in its place (only the order of members changes), has its keys ascending
/// in every object at every depth, is written with the same canonical
/// bytes as the value, and sorting it again changes nothing.
pub proof fn lemma_key_sorted(j: Json)
    ensures
        canonical(key_sorted(j)) == canonical(j),
        sorted_at_every_depth(key_sorted(j)),
        key_sorted(key_sorted(j)) == key_sorted(j),
        j matches Json::Object(m) ==> key_sorted(j) == Json::Object(sort_by_key(key_sorted_members(m)))
            && sort_by_key(key_sorted_members(m)).to_multiset() == key_sorted_members(m).to_multiset(),
        j matches Json::Array(items) ==> key_sorted(j) == Json::Array(key_sorted_items(items))
            && key_sorted_items(items).len() == items.len(),
{
    lemma_key_sorted_props(j);
    match j {
        Json::Object(m) => {
            lemma_sort_idempotent(key_sorted_members(m));
        },
        Json::Array(items) => {
            lemma_key_sorted_items_len(items);
        },
        _ => {},
    }
}

} // verus!
