//! The volatile portion of an extraction.

use vstd::prelude::*;
use vstd::string::*;

use crate::json::{Json, JsonValue, members_view, lemma_members_view};
use crate::keyed::{
    find_slot, keyed_map, keys_distinct, lemma_keyed_map_dom, lemma_keyed_map_index,
    lemma_keyed_map_insert, lemma_keyed_map_update, lemma_sorted_keys_distinct,
    lemma_sorted_keys_insert, lemma_sorted_keys_same_keys, lemma_sorted_keys_update, sorted_keys,
};
use crate::model::kind::{EntityKind, kind_rank, snake_name_spec};
use crate::text::key_lt;

verus! {

/// The contents of a volatile section: kinds in vocabulary order, each with
/// its rows in key order, each with its paths in key order.
pub type VolatileView = Seq<(EntityKind, Seq<(Seq<char>, Seq<(Seq<char>, Json)>)>)>;

/// The view of the paths recorded for one row.
pub open spec fn paths_view(p: Seq<(String, JsonValue)>) -> Seq<(Seq<char>, Json)> {
    p.map_values(|e: (String, JsonValue)| (e.0@, e.1@))
}

/// The view of the rows recorded for one kind.
pub open spec fn rows_view(r: Seq<(String, Vec<(String, JsonValue)>)>) -> Seq<
    (Seq<char>, Seq<(Seq<char>, Json)>),
> {
    r.map_values(|e: (String, Vec<(String, JsonValue)>)| (e.0@, paths_view(e.1@)))
}

/// The view of all kinds.
pub open spec fn kinds_view(k: Seq<(EntityKind, Vec<(String, Vec<(String, JsonValue)>)>)>) -> VolatileView {
    k.map_values(|e: (EntityKind, Vec<(String, Vec<(String, JsonValue)>)>)| (e.0, rows_view(e.1@)))
}

/// Kinds strictly ascending, and rows and paths strictly ascending by key;
/// every kind listed holds a row, and every row listed holds a value.
pub open spec fn volatile_wf(v: VolatileView) -> bool {
    &&& forall|i: int, j: int| 0 <= i < j < v.len() ==> kind_rank(#[trigger] v[i].0) < kind_rank(#[trigger] v[j].0)
    &&& forall|i: int| 0 <= i < v.len() ==> sorted_keys(#[trigger] v[i].1)
    &&& forall|i: int, j: int| 0 <= i < v.len() && 0 <= j < v[i].1.len() ==> sorted_keys(#[trigger] v[i].1[j].1)
    &&& forall|i: int| 0 <= i < v.len() ==> (#[trigger] v[i].1).len() > 0
    &&& forall|i: int, j: int| 0 <= i < v.len() && 0 <= j < v[i].1.len() ==> (#[trigger] v[i].1[j].1).len() > 0
}

/// The value recorded for a row's path, if any.
pub open spec fn volatile_lookup(v: VolatileView, entity: EntityKind, row_id: Seq<char>, path: Seq<char>) -> Option<Json> {
    let kinds = keyed_map(v);
    if kinds.contains_key(entity) && keyed_map(kinds[entity]).contains_key(row_id)
        && keyed_map(keyed_map(kinds[entity])[row_id]).contains_key(path) {
        Some(keyed_map(keyed_map(kinds[entity])[row_id])[path])
    } else {
        None
    }
}

/// The row ids recorded for a kind, in key order.
pub open spec fn volatile_row_ids(v: VolatileView, entity: EntityKind) -> Seq<Seq<char>> {
    if keyed_map(v).contains_key(entity) {
        keyed_map(v)[entity].map_values(|r: (Seq<char>, Seq<(Seq<char>, Json)>)| r.0)
    } else {
        Seq::empty()
    }
}

/// The JSON form of a volatile section: an object keyed by kind (in snake
/// case), then by row id, then by path.
pub open spec fn volatile_json(v: VolatileView) -> Json {
    Json::Object(
        v.map_values(
            |k: (EntityKind, Seq<(Seq<char>, Seq<(Seq<char>, Json)>)>)|
                (
                    snake_name_spec(k.0),
                    Json::Object(
                        k.1.map_values(
                            |r: (Seq<char>, Seq<(Seq<char>, Json)>)| (r.0, Json::Object(r.1)),
                        ),
                    ),
                ),
        ),
    )
}

/// The volatile portion of an extraction.
///
/// Everything that changes on its own between runs with zero configuration
/// drift — last-login timestamps, session-derived data — lives here, never in
/// the config body. Values are keyed by entity kind, row id, then their
/// dotted path, so the completeness verifier can prove, for every existing
/// row, that its volatile fields were captured. The content hash never
/// covers this section.
#[derive(Debug, PartialEq)]
pub struct VolatileSection {
    kinds: Vec<(EntityKind, Vec<(String, Vec<(String, JsonValue)>)>)>,
}

impl View for VolatileSection {
    type V = VolatileView;

    closed spec fn view(&self) -> VolatileView {
        kinds_view(self.kinds@)
    }
}

fn find_kind(kinds: &Vec<(EntityKind, Vec<(String, Vec<(String, JsonValue)>)>)>, entity: EntityKind) -> (r: (usize, bool))
    requires
        volatile_wf(kinds_view(kinds@)),
    ensures
        r.0 <= kinds@.len(),
        forall|j: int| 0 <= j < r.0 ==> kind_rank(#[trigger] kinds@[j].0) < kind_rank(entity),
        r.1 ==> r.0 < kinds@.len() && kinds@[r.0 as int].0 == entity,
        !r.1 ==> forall|j: int| r.0 <= j < kinds@.len() ==> kind_rank(entity) < kind_rank(#[trigger] kinds@[j].0),
{
    let ghost v = kinds_view(kinds@);
    let n = kinds.len();
    let rank = entity.rank();
    let mut i: usize = 0;
    while i < n
        invariant
            n == kinds@.len(),
            v == kinds_view(kinds@),
            volatile_wf(v),
            rank == kind_rank(entity),
            i <= n,
            forall|j: int| 0 <= j < i ==> kind_rank(#[trigger] kinds@[j].0) < kind_rank(entity),
        decreases n - i,
    {
        let r = kinds[i].0.rank();
        if r == rank {
            return (i, true);
        }
        if rank < r {
            assert forall|j: int| i <= j < kinds@.len() implies kind_rank(entity) < kind_rank(#[trigger] kinds@[j].0) by {
                if j > i {
                    assert(v[i as int].0 == kinds@[i as int].0 && v[j].0 == kinds@[j].0);
                }
            }
            return (i, false);
        }
        i = i + 1;
    }
    (i, false)
}

proof fn lemma_kinds_distinct(v: VolatileView)
    requires
        volatile_wf(v),
    ensures
        keys_distinct(v),
{
    assert forall|i: int, j: int| 0 <= i < v.len() && 0 <= j < v.len() && i != j implies v[i].0 != v[j].0 by {
        if i < j {
            assert(kind_rank(v[i].0) < kind_rank(v[j].0));
        } else {
            assert(kind_rank(v[j].0) < kind_rank(v[i].0));
        }
    }
}

/// A vector's keys sorted in its view are sorted for `find_slot`.
proof fn lemma_rows_sorted(rows: Seq<(String, Vec<(String, JsonValue)>)>)
    requires
        sorted_keys(rows_view(rows)),
    ensures
        sorted_keys(rows.map_values(|e: (String, Vec<(String, JsonValue)>)| (e.0@, e.1))),
{
    lemma_sorted_keys_same_keys(rows_view(rows), rows.map_values(|e: (String, Vec<(String, JsonValue)>)| (e.0@, e.1)));
}

proof fn lemma_paths_sorted(paths: Seq<(String, JsonValue)>)
    requires
        sorted_keys(paths_view(paths)),
    ensures
        sorted_keys(paths.map_values(|e: (String, JsonValue)| (e.0@, e.1))),
{
    lemma_sorted_keys_same_keys(paths_view(paths), paths.map_values(|e: (String, JsonValue)| (e.0@, e.1)));
}

impl VolatileSection {
    #[verifier::type_invariant]
    closed spec fn inv(self) -> bool {
        volatile_wf(kinds_view(self.kinds@))
    }

    /// An empty volatile section.
    pub fn new() -> (r: Self)
        ensures
            r@ == Seq::<(EntityKind, Seq<(Seq<char>, Seq<(Seq<char>, Json)>)>)>::empty(),
            volatile_wf(r@),
    {
        let r = VolatileSection { kinds: Vec::new() };
        assert(kinds_view(r.kinds@) =~= Seq::empty());
        r
    }

    /// Whether the section carries no data for any entity.
    pub fn is_empty(&self) -> (r: bool)
        ensures
            r == (self@.len() == 0),
    {
        self.kinds.len() == 0
    }

    /// Look up a recorded volatile value.
    pub fn get(&self, entity: EntityKind, row_id: &str, path: &str) -> (r: Option<&JsonValue>)
        ensures
            r matches Some(x) ==> volatile_lookup(self@, entity, row_id@, path@) == Some(x@),
            r is None ==> volatile_lookup(self@, entity, row_id@, path@) is None,
    {
        proof {
            use_type_invariant(self);
        }
        let ghost v = kinds_view(self.kinds@);
        proof {
            lemma_kinds_distinct(v);
            lemma_keyed_map_dom(v, entity);
        }
        let (ki, kf) = find_kind(&self.kinds, entity);
        if !kf {
            assert(!keyed_map(v).contains_key(entity)) by {
                if keyed_map(v).contains_key(entity) {
                    let i = choose|i: int| 0 <= i < v.len() && #[trigger] v[i].0 == entity;
                    assert(v[i].0 == self.kinds@[i].0);
                }
            }
            return None;
        }
        let rows = &self.kinds[ki].1;
        let ghost rv = rows_view(rows@);
        proof {
            lemma_keyed_map_index(v, ki as int);
            assert(v[ki as int].1 == rv);
            assert(sorted_keys(rv));
            lemma_rows_sorted(rows@);
            lemma_sorted_keys_distinct(rv);
            lemma_keyed_map_dom(rv, row_id@);
        }
        let (ri, rf) = find_slot(rows, row_id);
        if !rf {
            assert(!keyed_map(rv).contains_key(row_id@)) by {
                if keyed_map(rv).contains_key(row_id@) {
                    let i = choose|i: int| 0 <= i < rv.len() && #[trigger] rv[i].0 == row_id@;
                    assert(rv[i].0 == rows@[i].0@);
                    if i >= ri {
                        crate::text::lemma_key_lt_irreflexive(row_id@);
                    }
                    if i < ri {
                        crate::text::lemma_key_lt_irreflexive(row_id@);
                    }
                }
            }
            return None;
        }
        let paths = &rows[ri].1;
        let ghost pv = paths_view(paths@);
        proof {
            lemma_keyed_map_index(rv, ri as int);
            assert(rv[ri as int].1 == pv);
            assert(sorted_keys(pv));
            lemma_paths_sorted(paths@);
            lemma_sorted_keys_distinct(pv);
            lemma_keyed_map_dom(pv, path@);
        }
        let (pi, pf) = find_slot(paths, path);
        if !pf {
            assert(!keyed_map(pv).contains_key(path@)) by {
                if keyed_map(pv).contains_key(path@) {
                    let i = choose|i: int| 0 <= i < pv.len() && #[trigger] pv[i].0 == path@;
                    assert(pv[i].0 == paths@[i].0@);
                    crate::text::lemma_key_lt_irreflexive(path@);
                }
            }
            return None;
        }
        proof {
            lemma_keyed_map_index(pv, pi as int);
        }
        Some(&paths[pi].1)
    }
}

/// What a lookup sees after one level-by-level rebinding.
proof fn lemma_lookup_after_insert(
    v0: VolatileView,
    v1: VolatileView,
    rv0: Seq<(Seq<char>, Seq<(Seq<char>, Json)>)>,
    rv1: Seq<(Seq<char>, Seq<(Seq<char>, Json)>)>,
    pv0: Seq<(Seq<char>, Json)>,
    pv1: Seq<(Seq<char>, Json)>,
    entity: EntityKind,
    row_id: Seq<char>,
    path: Seq<char>,
    value: Json,
)
    requires
        keyed_map(v1) == keyed_map(v0).insert(entity, rv1),
        keyed_map(rv1) == keyed_map(rv0).insert(row_id, pv1),
        keyed_map(pv1) == keyed_map(pv0).insert(path, value),
        keyed_map(v0).contains_key(entity) ==> keyed_map(v0)[entity] == rv0,
        !keyed_map(v0).contains_key(entity) ==> rv0 == Seq::<(Seq<char>, Seq<(Seq<char>, Json)>)>::empty(),
        keyed_map(rv0).contains_key(row_id) ==> keyed_map(rv0)[row_id] == pv0,
        !keyed_map(rv0).contains_key(row_id) ==> pv0 == Seq::<(Seq<char>, Json)>::empty(),
    ensures
        forall|e: EntityKind, r: Seq<char>, p: Seq<char>|
            #[trigger] volatile_lookup(v1, e, r, p) == (if e == entity && r == row_id && p == path {
                Some(value)
            } else {
                volatile_lookup(v0, e, r, p)
            }),
{
    assert forall|e: EntityKind, r: Seq<char>, p: Seq<char>|
        #[trigger] volatile_lookup(v1, e, r, p) == (if e == entity && r == row_id && p == path {
            Some(value)
        } else {
            volatile_lookup(v0, e, r, p)
        }) by {
        if e == entity && !keyed_map(v0).contains_key(entity) {
            assert(keyed_map(rv0) =~= Map::empty());
        }
        if e == entity && r == row_id && !keyed_map(rv0).contains_key(row_id) {
            assert(keyed_map(pv0) =~= Map::empty());
        }
    }
}

/// A kind-level rebinding at the kind's place keeps the section well formed.
proof fn lemma_wf_after_insert(
    v0: VolatileView,
    v1: VolatileView,
    ki: int,
    kf: bool,
    entity: EntityKind,
    rv1: Seq<(Seq<char>, Seq<(Seq<char>, Json)>)>,
)
    requires
        volatile_wf(v0),
        0 <= ki <= v0.len(),
        kf ==> ki < v0.len() && v0[ki].0 == entity && v1 == v0.update(ki, (entity, rv1)),
        !kf ==> v1 == v0.insert(ki, (entity, rv1)),
        forall|j: int| 0 <= j < ki ==> kind_rank(#[trigger] v0[j].0) < kind_rank(entity),
        !kf ==> forall|j: int| ki <= j < v0.len() ==> kind_rank(entity) < kind_rank(#[trigger] v0[j].0),
        sorted_keys(rv1),
        forall|j: int| 0 <= j < rv1.len() ==> sorted_keys(#[trigger] rv1[j].1),
        rv1.len() > 0,
        forall|j: int| 0 <= j < rv1.len() ==> (#[trigger] rv1[j].1).len() > 0,
    ensures
        volatile_wf(v1),
{
    assert forall|i: int, j: int| 0 <= i < j < v1.len() implies kind_rank(#[trigger] v1[i].0) < kind_rank(#[trigger] v1[j].0) by {
        if kf {
            assert(v1[i].0 == v0[i].0 && v1[j].0 == v0[j].0);
        } else {
            if i < ki {
                assert(v1[i].0 == v0[i].0);
            } else if i > ki {
                assert(v1[i].0 == v0[i - 1].0);
            }
            if j < ki {
                assert(v1[j].0 == v0[j].0);
            } else if j > ki {
                assert(v1[j].0 == v0[j - 1].0);
            }
        }
    }
    assert forall|i: int| 0 <= i < v1.len() implies sorted_keys(#[trigger] v1[i].1) by {
        if i != ki {
            if kf || i < ki {
                assert(v1[i] == v0[i]);
            } else {
                assert(v1[i] == v0[i - 1]);
            }
        }
    }
    assert forall|i: int, j: int| 0 <= i < v1.len() && 0 <= j < v1[i].1.len() implies sorted_keys(#[trigger] v1[i].1[j].1) by {
        if i != ki {
            if kf || i < ki {
                assert(v1[i] == v0[i]);
            } else {
                assert(v1[i] == v0[i - 1]);
            }
        }
    }
    assert forall|i: int| 0 <= i < v1.len() implies (#[trigger] v1[i].1).len() > 0 by {
        if i != ki {
            if kf || i < ki {
                assert(v1[i] == v0[i]);
            } else {
                assert(v1[i] == v0[i - 1]);
            }
        }
    }
    assert forall|i: int, j: int| 0 <= i < v1.len() && 0 <= j < v1[i].1.len() implies (#[trigger] v1[i].1[j].1).len() > 0 by {
        if i != ki {
            if kf || i < ki {
                assert(v1[i] == v0[i]);
            } else {
                assert(v1[i] == v0[i - 1]);
            }
        }
    }
}

/// A row-level rebinding keeps every row's paths sorted.
proof fn lemma_rows_after_insert(
    rv0: Seq<(Seq<char>, Seq<(Seq<char>, Json)>)>,
    rv1: Seq<(Seq<char>, Seq<(Seq<char>, Json)>)>,
    ri: int,
    rf: bool,
    re: (Seq<char>, Seq<(Seq<char>, Json)>),
)
    requires
        0 <= ri <= rv0.len(),
        rf ==> ri < rv0.len() && rv1 == rv0.update(ri, re),
        !rf ==> rv1 == rv0.insert(ri, re),
        forall|j: int| 0 <= j < rv0.len() ==> sorted_keys(#[trigger] rv0[j].1),
        forall|j: int| 0 <= j < rv0.len() ==> (#[trigger] rv0[j].1).len() > 0,
        sorted_keys(re.1),
        re.1.len() > 0,
    ensures
        forall|j: int| 0 <= j < rv1.len() ==> sorted_keys(#[trigger] rv1[j].1),
        forall|j: int| 0 <= j < rv1.len() ==> (#[trigger] rv1[j].1).len() > 0,
        rv1.len() > 0,
{
    assert forall|j: int| 0 <= j < rv1.len() implies sorted_keys(#[trigger] rv1[j].1) && rv1[j].1.len() > 0 by {
        if j != ri {
            if rf || j < ri {
                assert(rv1[j] == rv0[j]);
            } else {
                assert(rv1[j] == rv0[j - 1]);
            }
        }
    }
    assert(rv1[ri] == re);
}

impl VolatileSection {
    /// Record one volatile value for a row, replacing any value already
    /// recorded for the same entity, row and path.
    #[verifier::rlimit(30)]
    pub fn insert(&mut self, entity: EntityKind, row_id: &str, path: &str, value: JsonValue)
        ensures
            volatile_wf(final(self)@),
            forall|e: EntityKind, r: Seq<char>, p: Seq<char>|
                #[trigger] volatile_lookup(final(self)@, e, r, p) == (if e == entity && r == row_id@
                    && p == path@ {
                    Some(value@)
                } else {
                    volatile_lookup(old(self)@, e, r, p)
                }),
    {
        proof {
            use_type_invariant(&*self);
        }
        let ghost value_view = value@;
        let mut kinds: Vec<(EntityKind, Vec<(String, Vec<(String, JsonValue)>)>)> = Vec::new();
        std::mem::swap(&mut kinds, &mut self.kinds);
        let ghost k0 = kinds@;
        let ghost v0 = kinds_view(k0);
        assert(v0 == old(self)@);
        proof {
            lemma_kinds_distinct(v0);
        }
        let (ki, kf) = find_kind(&kinds, entity);
        assert(forall|j: int| 0 <= j < k0.len() ==> v0[j].0 == #[trigger] k0[j].0);
        let mut rows: Vec<(String, Vec<(String, JsonValue)>)> = if kf {
            let (_, r) = kinds.remove(ki);
            r
        } else {
            Vec::new()
        };
        let ghost rv0 = rows_view(rows@);
        proof {
            if kf {
                assert(v0[ki as int].1 == rv0);
                lemma_keyed_map_index(v0, ki as int);
            } else {
                assert(rv0 =~= Seq::empty());
                lemma_keyed_map_dom(v0, entity);
            }
            assert(sorted_keys(rv0));
            assert(forall|j: int| 0 <= j < rv0.len() ==> sorted_keys(#[trigger] rv0[j].1));
            assert(forall|j: int| 0 <= j < rv0.len() ==> (#[trigger] rv0[j].1).len() > 0);
            lemma_rows_sorted(rows@);
            lemma_sorted_keys_distinct(rv0);
        }
        let (ri, rf) = find_slot(&rows, row_id);
        assert(forall|j: int| 0 <= j < rows@.len() ==> rv0[j].0 == #[trigger] rows@[j].0@);
        let (rid, mut paths): (String, Vec<(String, JsonValue)>) = if rf {
            rows.remove(ri)
        } else {
            (String::from_str(row_id), Vec::new())
        };
        let ghost pv0 = paths_view(paths@);
        proof {
            if rf {
                assert(rv0[ri as int].1 == pv0);
                lemma_keyed_map_index(rv0, ri as int);
            } else {
                assert(pv0 =~= Seq::empty());
                lemma_keyed_map_dom(rv0, row_id@);
                crate::text::lemma_key_lt_irreflexive(row_id@);
            }
            assert(sorted_keys(pv0));
            lemma_paths_sorted(paths@);
            lemma_sorted_keys_distinct(pv0);
        }
        let (pi, pf) = find_slot(&paths, path);
        assert(forall|j: int| 0 <= j < paths@.len() ==> pv0[j].0 == #[trigger] paths@[j].0@);
        if pf {
            paths.remove(pi);
        }
        paths.insert(pi, (String::from_str(path), value));
        let ghost pv1 = paths_view(paths@);
        let ghost pe = (path@, value_view);
        proof {
            crate::text::lemma_key_lt_irreflexive(path@);
            if pf {
                assert(pv1 =~= pv0.update(pi as int, pe));
                lemma_keyed_map_update(pv0, pi as int, pe);
                lemma_sorted_keys_update(pv0, pi as int, pe);
            } else {
                assert(pv1 =~= pv0.insert(pi as int, pe));
                lemma_keyed_map_insert(pv0, pi as int, pe);
                lemma_sorted_keys_insert(pv0, pi as int, pe);
            }
        }
        rows.insert(ri, (rid, paths));
        let ghost rv1 = rows_view(rows@);
        let ghost re = (row_id@, pv1);
        proof {
            crate::text::lemma_key_lt_irreflexive(row_id@);
            if rf {
                assert(rv1 =~= rv0.update(ri as int, re));
                lemma_keyed_map_update(rv0, ri as int, re);
                lemma_sorted_keys_update(rv0, ri as int, re);
            } else {
                assert(rv1 =~= rv0.insert(ri as int, re));
                lemma_keyed_map_insert(rv0, ri as int, re);
                lemma_sorted_keys_insert(rv0, ri as int, re);
            }
            assert(pv1.len() > 0) by {
                assert(pv1[pi as int] == pe);
            }
            lemma_rows_after_insert(rv0, rv1, ri as int, rf, re);
        }
        kinds.insert(ki, (entity, rows));
        let ghost v1 = kinds_view(kinds@);
        let ghost ke = (entity, rv1);
        proof {
            if kf {
                assert(v1 =~= v0.update(ki as int, ke));
                lemma_keyed_map_update(v0, ki as int, ke);
            } else {
                assert(v1 =~= v0.insert(ki as int, ke));
                lemma_keyed_map_insert(v0, ki as int, ke);
            }
            lemma_wf_after_insert(v0, v1, ki as int, kf, entity, rv1);
            lemma_lookup_after_insert(v0, v1, rv0, rv1, pv0, pv1, entity, row_id@, path@, value_view);
        }
        self.kinds = kinds;
    }
}


fn paths_json(paths: &Vec<(String, JsonValue)>) -> (r: JsonValue)
    ensures
        r@ == Json::Object(paths_view(paths@)),
{
    let mut out: Vec<(String, JsonValue)> = Vec::new();
    let n = paths.len();
    for i in 0..n
        invariant
            n == paths@.len(),
            out@.len() == i,
            forall|j: int| 0 <= j < i ==> (#[trigger] out@[j]).0@ == paths@[j].0@ && out@[j].1@ == paths@[j].1@,
    {
        out.push((paths[i].0.clone(), paths[i].1.clone()));
    }
    proof {
        lemma_members_view(out@);
        assert(members_view(out@) =~= paths_view(paths@));
    }
    JsonValue::Object(out)
}

fn rows_json(rows: &Vec<(String, Vec<(String, JsonValue)>)>) -> (r: JsonValue)
    ensures
        r@ == Json::Object(
            rows_view(rows@).map_values(
                |r: (Seq<char>, Seq<(Seq<char>, Json)>)| (r.0, Json::Object(r.1)),
            ),
        ),
{
    let mut out: Vec<(String, JsonValue)> = Vec::new();
    let n = rows.len();
    for i in 0..n
        invariant
            n == rows@.len(),
            out@.len() == i,
            forall|j: int|
                0 <= j < i ==> (#[trigger] out@[j]).0@ == rows@[j].0@ && out@[j].1@ == Json::Object(
                    paths_view(rows@[j].1@),
                ),
    {
        out.push((rows[i].0.clone(), paths_json(&rows[i].1)));
    }
    proof {
        lemma_members_view(out@);
        assert(members_view(out@) =~= rows_view(rows@).map_values(
            |r: (Seq<char>, Seq<(Seq<char>, Json)>)| (r.0, Json::Object(r.1)),
        ));
    }
    JsonValue::Object(out)
}

/// In a well-formed section, the row ids recorded for a kind are strictly
/// ascending, and are exactly the rows holding at least one value.
proof fn lemma_row_ids_hold_values(v: VolatileView, entity: EntityKind)
    requires
        volatile_wf(v),
    ensures
        forall|i: int, j: int|
            0 <= i < j < volatile_row_ids(v, entity).len() ==> key_lt(
                #[trigger] volatile_row_ids(v, entity)[i],
                #[trigger] volatile_row_ids(v, entity)[j],
            ),
        forall|r: Seq<char>|
            #[trigger] volatile_row_ids(v, entity).contains(r) <==> exists|p: Seq<char>|
                #[trigger] volatile_lookup(v, entity, r, p) is Some,
{
    lemma_kinds_distinct(v);
    lemma_keyed_map_dom(v, entity);
    if keyed_map(v).contains_key(entity) {
        let k = choose|k: int| 0 <= k < v.len() && #[trigger] v[k].0 == entity;
        lemma_keyed_map_index(v, k);
        let rows = v[k].1;
        let ids = volatile_row_ids(v, entity);
        assert(ids == rows.map_values(|r: (Seq<char>, Seq<(Seq<char>, Json)>)| r.0));
        lemma_sorted_keys_distinct(rows);
        assert forall|r: Seq<char>| ids.contains(r) <==> exists|p: Seq<char>| #[trigger] volatile_lookup(v, entity, r, p) is Some by {
            lemma_keyed_map_dom(rows, r);
            if ids.contains(r) {
                let a = choose|a: int| 0 <= a < ids.len() && ids[a] == r;
                assert(rows[a].0 == r);
                lemma_keyed_map_index(rows, a);
                let paths = rows[a].1;
                assert(paths.len() > 0);
                assert(sorted_keys(paths));
                lemma_sorted_keys_distinct(paths);
                lemma_keyed_map_index(paths, 0);
                assert(volatile_lookup(v, entity, r, paths[0].0) is Some);
            }
            if exists|p: Seq<char>| #[trigger] volatile_lookup(v, entity, r, p) is Some {
                let a = choose|a: int| 0 <= a < rows.len() && #[trigger] rows[a].0 == r;
                assert(ids[a] == r);
            }
        }
    }
}

impl VolatileSection {
    /// All row ids recorded for an entity kind, in strictly ascending order:
    /// exactly the rows that hold at least one value.
    pub fn row_ids(&self, entity: &EntityKind) -> (r: Vec<String>)
        ensures
            r@.map_values(|s: String| s@) == volatile_row_ids(self@, *entity),
            forall|i: int, j: int| 0 <= i < j < r@.len() ==> key_lt(#[trigger] r@[i]@, #[trigger] r@[j]@),
            forall|rid: Seq<char>|
                #[trigger] volatile_row_ids(self@, *entity).contains(rid) <==> exists|p: Seq<char>|
                    #[trigger] volatile_lookup(self@, *entity, rid, p) is Some,
    {
        proof {
            use_type_invariant(self);
            lemma_row_ids_hold_values(self@, *entity);
        }
        let ghost v = kinds_view(self.kinds@);
        proof {
            lemma_kinds_distinct(v);
            lemma_keyed_map_dom(v, *entity);
        }
        let (ki, kf) = find_kind(&self.kinds, *entity);
        let mut out: Vec<String> = Vec::new();
        if !kf {
            assert(!keyed_map(v).contains_key(*entity)) by {
                if keyed_map(v).contains_key(*entity) {
                    let i = choose|i: int| 0 <= i < v.len() && #[trigger] v[i].0 == *entity;
                    assert(v[i].0 == self.kinds@[i].0);
                }
            }
            assert(out@.map_values(|s: String| s@) =~= Seq::<Seq<char>>::empty());
            return out;
        }
        proof {
            lemma_keyed_map_index(v, ki as int);
        }
        let rows = &self.kinds[ki].1;
        let n = rows.len();
        for i in 0..n
            invariant
                n == rows@.len(),
                out@.len() == i,
                forall|j: int| 0 <= j < i ==> (#[trigger] out@[j])@ == rows@[j].0@,
        {
            out.push(rows[i].0.clone());
        }
        assert(out@.map_values(|s: String| s@) =~= volatile_row_ids(v, *entity));
        assert forall|i: int, j: int| 0 <= i < j < out@.len() implies key_lt(#[trigger] out@[i]@, #[trigger] out@[j]@) by {
            assert(out@[i]@ == volatile_row_ids(v, *entity)[i]);
            assert(out@[j]@ == volatile_row_ids(v, *entity)[j]);
        }
        out
    }

    /// The section's JSON form: an object keyed by kind, row id and path.
    pub fn to_json(&self) -> (r: JsonValue)
        ensures
            r@ == volatile_json(self@),
    {
        let mut out: Vec<(String, JsonValue)> = Vec::new();
        let n = self.kinds.len();
        for i in 0..n
            invariant
                n == self.kinds@.len(),
                out@.len() == i,
                forall|j: int|
                    0 <= j < i ==> (#[trigger] out@[j]).0@ == snake_name_spec(self.kinds@[j].0)
                        && out@[j].1@ == Json::Object(
                        rows_view(self.kinds@[j].1@).map_values(
                            |r: (Seq<char>, Seq<(Seq<char>, Json)>)| (r.0, Json::Object(r.1)),
                        ),
                    ),
        {
            let name = String::from_str(self.kinds[i].0.snake_name());
            out.push((name, rows_json(&self.kinds[i].1)));
        }
        proof {
            lemma_members_view(out@);
            assert(members_view(out@) =~= match volatile_json(kinds_view(self.kinds@)) {
                Json::Object(m) => m,
                _ => Seq::empty(),
            });
        }
        JsonValue::Object(out)
    }
}

impl Default for VolatileSection {
    fn default() -> (r: Self)
        ensures
            r@ == Seq::<(EntityKind, Seq<(Seq<char>, Seq<(Seq<char>, Json)>)>)>::empty(),
    {
        VolatileSection::new()
    }
}

} // verus!
