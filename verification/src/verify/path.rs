//! Path resolution for field expectations.
//!
//! A manifest path is a dotted path against an entity's serialized row.
//! Array segments end in `[]` and match when *any* element carries the
//! remainder.

use vstd::prelude::*;

use crate::json::{Json, JsonValue, items_view, members_view, lemma_items_view, lemma_members_view};
use crate::keyed::{keyed_map, lemma_keyed_map_dom, lemma_keyed_map_last};
use crate::text::{chars_equal, chars_of, split_chars, split_on};

verus! {

/// The key named by an array segment `key[]`, if the segment is one.
pub open spec fn array_segment_key(seg: Seq<char>) -> Option<Seq<char>> {
    if seg.len() >= 2 && seg[seg.len() - 2] == '[' && seg[seg.len() - 1] == ']' {
        Some(seg.take(seg.len() - 2))
    } else {
        None
    }
}

/// Whether the path segments `segs` are present in `v`.
///
/// A plain segment needs `v` to be an object with that member, and the rest
/// present in the member. A segment `key[]` needs `v` to be an object whose
/// `key` member is an array, with the rest present in at least one element;
/// an empty array counts as present exactly when `empty_ok`. No segments at
/// all are always present. (A member is looked up as a JSON object does: the
/// last member with the key wins.)
pub open spec fn resolves(v: Json, segs: Seq<Seq<char>>, empty_ok: bool) -> bool
    decreases segs.len(), 0nat,
{
    if segs.len() == 0 {
        true
    } else {
        let head = segs[0];
        let rest = segs.drop_first();
        match v {
            Json::Object(members) => {
                let fields = keyed_map(members);
                match array_segment_key(head) {
                    Some(key) => fields.contains_key(key) && match fields[key] {
                        Json::Array(items) => (empty_ok && items.len() == 0) || resolves_any(
                            items,
                            rest,
                            empty_ok,
                        ),
                        _ => false,
                    },
                    None => fields.contains_key(head) && resolves(fields[head], rest, empty_ok),
                }
            },
            _ => false,
        }
    }
}

/// Whether the segments are present in at least one of the items.
pub open spec fn resolves_any(items: Seq<Json>, segs: Seq<Seq<char>>, empty_ok: bool) -> bool
    decreases segs.len(), items.len(),
{
    if items.len() == 0 {
        false
    } else {
        resolves_any(items.drop_last(), segs, empty_ok) || resolves(items.last(), segs, empty_ok)
    }
}

/// Whether a dotted path is present in a value: every segment is found,
/// and an array segment has an element carrying the rest.
pub open spec fn path_present(v: Json, path: Seq<char>) -> bool {
    resolves(v, split_on(path, '.'), false)
}

/// Whether a value carries the structure a dotted path expects: the path is
/// present, or it leads to an empty array, which is an empty structure and
/// not a missing field.
pub open spec fn path_carried(v: Json, path: Seq<char>) -> bool {
    resolves(v, split_on(path, '.'), true)
}

/// An array segment matches when any element carries the rest of the
/// path: the rest is present in some item exactly when there is an index at
/// which it is.
pub proof fn lemma_resolves_any_some_item(items: Seq<Json>, segs: Seq<Seq<char>>, empty_ok: bool)
    ensures
        resolves_any(items, segs, empty_ok) <==> exists|i: int|
            0 <= i < items.len() && #[trigger] resolves(items[i], segs, empty_ok),
    decreases items.len(),
{
    if items.len() > 0 {
        let p = items.drop_last();
        lemma_resolves_any_some_item(p, segs, empty_ok);
        assert(resolves_any(items, segs, empty_ok) == (resolves_any(p, segs, empty_ok) || resolves(items.last(), segs, empty_ok)));
        if resolves_any(p, segs, empty_ok) {
            let i = choose|i: int| 0 <= i < p.len() && #[trigger] resolves(p[i], segs, empty_ok);
            assert(items[i] == p[i]);
        }
        if resolves(items.last(), segs, empty_ok) {
            assert(resolves(items[items.len() - 1], segs, empty_ok));
        }
        if exists|i: int| 0 <= i < items.len() && #[trigger] resolves(items[i], segs, empty_ok) {
            let i = choose|i: int| 0 <= i < items.len() && #[trigger] resolves(items[i], segs, empty_ok);
            if i < items.len() - 1 {
                assert(p[i] == items[i]);
            }
        }
    }
}

/// A path whose first segment is `key[]`, on an object whose `key` member
/// (the last with that key) is an array, is present exactly when the rest
/// of the path is present in at least one element, or, where empty arrays
/// count, the array is empty.
pub proof fn lemma_array_segment(
    members: Seq<(Seq<char>, Json)>,
    seg: Seq<char>,
    key: Seq<char>,
    items: Seq<Json>,
    rest: Seq<Seq<char>>,
    empty_ok: bool,
)
    requires
        array_segment_key(seg) == Some(key),
        keyed_map(members).contains_key(key),
        keyed_map(members)[key] == Json::Array(items),
    ensures
        resolves(Json::Object(members), seq![seg] + rest, empty_ok) <==> (empty_ok && items.len() == 0)
            || exists|i: int| 0 <= i < items.len() && #[trigger] resolves(items[i], rest, empty_ok),
{
    let segs = seq![seg] + rest;
    assert(segs[0] == seg);
    assert(segs.drop_first() =~= rest);
    lemma_resolves_any_some_item(items, rest, empty_ok);
}

proof fn lemma_resolves_prefix(v: Json, segs: Seq<Seq<char>>, k: int, empty_ok: bool)
    requires
        resolves(v, segs, empty_ok),
        0 <= k <= segs.len(),
    ensures
        resolves(v, segs.take(k), empty_ok),
    decreases segs.len(), 0nat,
{
    if k > 0 {
        let rest = segs.drop_first();
        assert(segs.take(k)[0] == segs[0]);
        assert(segs.take(k).drop_first() =~= rest.take(k - 1));
        match v {
            Json::Object(members) => {
                let fields = keyed_map(members);
                match array_segment_key(segs[0]) {
                    Some(key) => {
                        match fields[key] {
                            Json::Array(items) => {
                                if !(empty_ok && items.len() == 0) {
                                    lemma_resolves_any_prefix(items, rest, k - 1, empty_ok);
                                }
                            },
                            _ => {},
                        }
                    },
                    None => {
                        lemma_resolves_prefix(fields[segs[0]], rest, k - 1, empty_ok);
                    },
                }
            },
            _ => {},
        }
    } else {
        assert(segs.take(0) =~= Seq::<Seq<char>>::empty());
    }
}

proof fn lemma_resolves_any_prefix(items: Seq<Json>, segs: Seq<Seq<char>>, k: int, empty_ok: bool)
    requires
        resolves_any(items, segs, empty_ok),
        0 <= k <= segs.len(),
    ensures
        resolves_any(items, segs.take(k), empty_ok),
    decreases segs.len(), items.len(),
{
    if resolves(items.last(), segs, empty_ok) {
        lemma_resolves_prefix(items.last(), segs, k, empty_ok);
    } else {
        lemma_resolves_any_prefix(items.drop_last(), segs, k, empty_ok);
    }
}

/// A path made of the leading segments of a present path is present, and
/// likewise for a carried path: resolution checks the segments in order,
/// so whatever a path reaches, each of its leading parts reaches too.
pub proof fn lemma_path_prefix(v: Json, path: Seq<char>, prefix: Seq<char>)
    requires
        split_on(prefix, '.') == split_on(path, '.').take(split_on(prefix, '.').len() as int),
        split_on(prefix, '.').len() <= split_on(path, '.').len(),
    ensures
        path_present(v, path) ==> path_present(v, prefix),
        path_carried(v, path) ==> path_carried(v, prefix),
{
    let k = split_on(prefix, '.').len() as int;
    if path_present(v, path) {
        lemma_resolves_prefix(v, split_on(path, '.'), k, false);
    }
    if path_carried(v, path) {
        lemma_resolves_prefix(v, split_on(path, '.'), k, true);
    }
}

/// The index of the member holding `key` (its last occurrence), if any.
fn find_member(members: &Vec<(String, JsonValue)>, key: &Vec<char>) -> (r: Option<usize>)
    ensures
        r is None ==> !keyed_map(members_view(members@)).contains_key(key@),
        r matches Some(i) ==> i < members@.len() && keyed_map(members_view(members@)).contains_key(key@)
            && keyed_map(members_view(members@))[key@] == members@[i as int].1@,
{
    let ghost mv = members_view(members@);
    proof {
        lemma_members_view(members@);
        lemma_keyed_map_dom(mv, key@);
    }
    let mut i = members.len();
    while i > 0
        invariant
            i <= members@.len(),
            mv == members_view(members@),
            mv.len() == members@.len(),
            forall|j: int| 0 <= j < members@.len() ==> #[trigger] mv[j] == (members@[j].0@, members@[j].1@),
            forall|j: int| i <= j < members@.len() ==> #[trigger] mv[j].0 != key@,
        decreases i,
    {
        let k = chars_of(members[i - 1].0.as_str());
        if chars_equal(&k, key) {
            proof {
                lemma_keyed_map_last(mv, i - 1);
            }
            return Some(i - 1);
        }
        i = i - 1;
    }
    None
}

/// The key of an array segment `key[]`, if the segment is one.
fn array_key(seg: &Vec<char>) -> (r: Option<Vec<char>>)
    ensures
        r matches Some(k) ==> array_segment_key(seg@) == Some(k@),
        r is None ==> array_segment_key(seg@) is None,
{
    let n = seg.len();
    if n >= 2 && seg[n - 2] == '[' && seg[n - 1] == ']' {
        let mut k: Vec<char> = Vec::new();
        for i in 0..n - 2
            invariant
                n == seg@.len(),
                n >= 2,
                k@ == seg@.take(i as int),
        {
            k.push(seg[i]);
            assert(seg@.take(i + 1) =~= seg@.take(i as int).push(seg@[i as int]));
        }
        Some(k)
    } else {
        None
    }
}

/// Whether the segments from `from` on are present in `value`.
#[verifier::loop_isolation(false)]
fn resolve_segments(value: &JsonValue, segs: &Vec<Vec<char>>, from: usize, empty_ok: bool) -> (r: bool)
    requires
        from <= segs@.len(),
    ensures
        r == resolves(value@, segs@.map_values(|s: Vec<char>| s@).skip(from as int), empty_ok),
    decreases segs@.len() - from,
{
    let ghost sv = segs@.map_values(|s: Vec<char>| s@);
    let ghost rest = sv.skip(from as int);
    if from == segs.len() {
        return true;
    }
    assert(rest[0] == segs@[from as int]@);
    assert(rest.drop_first() =~= sv.skip(from + 1));
    let members = match value {
        JsonValue::Object(members) => members,
        _ => {
            return false;
        },
    };
    proof {
        lemma_members_view(members@);
    }
    match array_key(&segs[from]) {
        Some(key) => {
            match find_member(members, &key) {
                None => false,
                Some(idx) => {
                    match &members[idx].1 {
                        JsonValue::Array(items) => {
                            proof {
                                lemma_items_view(items@);
                            }
                            let ghost iv = items_view(items@);
                            let ghost r2 = rest.drop_first();
                            if empty_ok && items.len() == 0 {
                                return true;
                            }
                            let mut i = items.len();
                            assert(iv.take(i as int) =~= iv);
                            while i > 0
                                invariant
                                    i <= items@.len(),
                                    from < segs@.len(),
                                    sv == segs@.map_values(|s: Vec<char>| s@),
                                    r2 == sv.skip(from + 1),
                                    iv == items_view(items@),
                                    iv.len() == items@.len(),
                                    forall|j: int| 0 <= j < items@.len() ==> #[trigger] iv[j] == items@[j]@,
                                    resolves_any(iv, r2, empty_ok) == resolves_any(iv.take(i as int), r2, empty_ok),
                                decreases i,
                            {
                                assert(iv.take(i as int).drop_last() =~= iv.take(i - 1));
                                if resolve_segments(&items[i - 1], segs, from + 1, empty_ok) {
                                    return true;
                                }
                                i = i - 1;
                            }
                            false
                        },
                        _ => false,
                    }
                },
            }
        },
        None => {
            match find_member(members, &segs[from]) {
                None => false,
                Some(idx) => resolve_segments(&members[idx].1, segs, from + 1, empty_ok),
            }
        },
    }
}

/// Resolve a dotted path against a JSON value. Returns whether the path is
/// present.
///
/// Supported path shapes:
/// - `client_id` — a top-level common field.
/// - `native.secret` — a field inside the native subtree.
/// - `native.alternativeNames[]` — an array field present as a key.
/// - `native.executionSteps[].name` — a field present on array elements.
pub fn resolve_path(value: &JsonValue, path: &str) -> (r: bool)
    ensures
        r == path_present(value@, path@),
{
    let chars = chars_of(path);
    let segs = split_chars(&chars, '.');
    assert(segs@.map_values(|s: Vec<char>| s@).skip(0) =~= split_on(path@, '.'));
    resolve_segments(value, &segs, 0, false)
}

/// Whether a value carries the structure a dotted path expects: the path
/// resolves as [`resolve_path`] resolves it, or it leads to an empty array.
/// An existing row whose expected structure is empty is not incomplete.
pub fn carries_path(value: &JsonValue, path: &str) -> (r: bool)
    ensures
        r == path_carried(value@, path@),
{
    let chars = chars_of(path);
    let segs = split_chars(&chars, '.');
    assert(segs@.map_values(|s: Vec<char>| s@).skip(0) =~= split_on(path@, '.'));
    resolve_segments(value, &segs, 0, true)
}

} // verus!
