//! The JSON value model that carries every entity's `native` escape hatch.
//!
//! [`JsonValue`] is the executable value; [`Json`] is its mathematical view.
//! Numbers are carried as their JSON lexeme, so no floating point is needed
//! and two numbers are the same exactly when their text is.

use vstd::prelude::*;

use crate::keyed::keys_distinct;
use crate::text::{chars_equal, chars_of};

verus! {

/// The mathematical view of a [`JsonValue`].
pub enum Json {
    Null,
    Bool(bool),
    Number(Seq<char>),
    Str(Seq<char>),
    Array(Seq<Json>),
    Object(Seq<(Seq<char>, Json)>),
}

/// A JSON document. Object members keep the order in which they were built;
/// the canonical writer sorts them, so that order never reaches the output.
#[derive(Debug, PartialEq)]
pub enum JsonValue {
    Null,
    Bool(bool),
    /// A number, held as its JSON text (for example `1`, `-3` or `2.5e3`).
    Number(String),
    String(String),
    Array(Vec<JsonValue>),
    Object(Vec<(String, JsonValue)>),
}

/// The view of a value.
pub open spec fn json_view(v: JsonValue) -> Json
    decreases v,
{
    match v {
        JsonValue::Null => Json::Null,
        JsonValue::Bool(b) => Json::Bool(b),
        JsonValue::Number(t) => Json::Number(t@),
        JsonValue::String(s) => Json::Str(s@),
        JsonValue::Array(items) => Json::Array(items_view(items@)),
        JsonValue::Object(members) => Json::Object(members_view(members@)),
    }
}

/// The view of a sequence of array items.
pub open spec fn items_view(s: Seq<JsonValue>) -> Seq<Json>
    decreases s,
{
    if s.len() == 0 {
        Seq::empty()
    } else {
        items_view(s.drop_last()).push(json_view(s.last()))
    }
}

/// The view of a sequence of object members.
pub open spec fn members_view(s: Seq<(String, JsonValue)>) -> Seq<(Seq<char>, Json)>
    decreases s,
{
    if s.len() == 0 {
        Seq::empty()
    } else {
        members_view(s.drop_last()).push((s.last().0@, json_view(s.last().1)))
    }
}

impl View for JsonValue {
    type V = Json;

    open spec fn view(&self) -> Json {
        json_view(*self)
    }
}


/// The view of the items of an array has one entry per item.
pub proof fn lemma_items_view(s: Seq<JsonValue>)
    ensures
        items_view(s).len() == s.len(),
        forall|i: int| 0 <= i < s.len() ==> #[trigger] items_view(s)[i] == json_view(s[i]),
    decreases s.len(),
{
    if s.len() > 0 {
        lemma_items_view(s.drop_last());
    }
}

/// The view of the members of an object has one entry per member.
pub proof fn lemma_members_view(s: Seq<(String, JsonValue)>)
    ensures
        members_view(s).len() == s.len(),
        forall|i: int|
            0 <= i < s.len() ==> #[trigger] members_view(s)[i] == (s[i].0@, json_view(s[i].1)),
    decreases s.len(),
{
    if s.len() > 0 {
        lemma_members_view(s.drop_last());
    }
}

/// Every object, at every depth, has distinct keys, as the members of a
/// JSON object do. Values built from a parsed document always are.
pub open spec fn well_keyed(j: Json) -> bool
    decreases j,
{
    match j {
        Json::Array(items) => items_well_keyed(items),
        Json::Object(members) => keys_distinct(members) && values_well_keyed(members),
        _ => true,
    }
}

/// Every item is [`well_keyed`].
pub open spec fn items_well_keyed(items: Seq<Json>) -> bool
    decreases items,
{
    if items.len() == 0 {
        true
    } else {
        items_well_keyed(items.drop_last()) && well_keyed(items.last())
    }
}

/// Every member's value is [`well_keyed`].
pub open spec fn values_well_keyed(members: Seq<(Seq<char>, Json)>) -> bool
    decreases members,
{
    if members.len() == 0 {
        true
    } else {
        values_well_keyed(members.drop_last()) && well_keyed(members.last().1)
    }
}

proof fn lemma_items_well_keyed(items: Seq<Json>)
    ensures
        items_well_keyed(items) <==> forall|k: int| 0 <= k < items.len() ==> well_keyed(#[trigger] items[k]),
    decreases items.len(),
{
    if items.len() > 0 {
        let p = items.drop_last();
        lemma_items_well_keyed(p);
        if forall|k: int| 0 <= k < items.len() ==> well_keyed(#[trigger] items[k]) {
            assert forall|k: int| 0 <= k < p.len() implies well_keyed(#[trigger] p[k]) by {
                assert(p[k] == items[k]);
            }
            assert(well_keyed(items[items.len() - 1]));
        }
        if items_well_keyed(items) {
            assert forall|k: int| 0 <= k < items.len() implies well_keyed(#[trigger] items[k]) by {
                if k < items.len() - 1 {
                    assert(p[k] == items[k]);
                }
            }
        }
    }
}

proof fn lemma_values_well_keyed(members: Seq<(Seq<char>, Json)>)
    ensures
        values_well_keyed(members) <==> forall|k: int| 0 <= k < members.len() ==> well_keyed(#[trigger] members[k].1),
    decreases members.len(),
{
    if members.len() > 0 {
        let p = members.drop_last();
        lemma_values_well_keyed(p);
        if forall|k: int| 0 <= k < members.len() ==> well_keyed(#[trigger] members[k].1) {
            assert forall|k: int| 0 <= k < p.len() implies well_keyed(#[trigger] p[k].1) by {
                assert(p[k] == members[k]);
            }
            assert(well_keyed(members[members.len() - 1].1));
        }
        if values_well_keyed(members) {
            assert forall|k: int| 0 <= k < members.len() implies well_keyed(#[trigger] members[k].1) by {
                if k < members.len() - 1 {
                    assert(p[k] == members[k]);
                }
            }
        }
    }
}

/// Whether the members' keys are distinct.
#[verifier::loop_isolation(false)]
pub fn members_keys_distinct(members: &Vec<(String, JsonValue)>) -> (r: bool)
    ensures
        r == keys_distinct(members_view(members@)),
{
    let ghost mv = members_view(members@);
    proof {
        lemma_members_view(members@);
    }
    let n = members.len();
    for i in 0..n
        invariant
            n == members@.len(),
            mv == members_view(members@),
            mv.len() == n,
            forall|j: int| 0 <= j < n ==> #[trigger] mv[j] == (members@[j].0@, json_view(members@[j].1)),
            forall|a: int, b: int| 0 <= a < i && 0 <= b < i && a != b ==> mv[a].0 != mv[b].0,
    {
        let key = chars_of(members[i].0.as_str());
        for j in 0..i
            invariant
                n == members@.len(),
                mv.len() == n,
                i < n,
                key@ == mv[i as int].0,
                forall|j: int| 0 <= j < n ==> #[trigger] mv[j] == (members@[j].0@, json_view(members@[j].1)),
                forall|b: int| 0 <= b < j ==> mv[b].0 != mv[i as int].0,
        {
            let other = chars_of(members[j].0.as_str());
            if chars_equal(&key, &other) {
                assert(!keys_distinct(mv)) by {
                    assert(mv[j as int].0 == mv[i as int].0);
                }
                return false;
            }
        }
    }
    true
}

impl JsonValue {
    /// Whether every object in this value, at every depth, has distinct
    /// keys.
    #[verifier::loop_isolation(false)]
    pub fn is_well_keyed(&self) -> (r: bool)
        ensures
            r == well_keyed(self@),
        decreases self,
    {
        match self {
            JsonValue::Array(items) => {
                let ghost iv = items_view(items@);
                proof {
                    lemma_items_view(items@);
                    lemma_items_well_keyed(iv);
                }
                let n = items.len();
                for i in 0..n
                    invariant
                        n == items@.len(),
                        iv == items_view(items@),
                        iv.len() == n,
                        forall|j: int| 0 <= j < n ==> #[trigger] iv[j] == json_view(items@[j]),
                        forall|j: int| 0 <= j < i ==> well_keyed(#[trigger] iv[j]),
                {
                    proof {
                        assert(decreases_to!(*self => *items));
                        assert(decreases_to!(*items => items@[i as int]));
                        assert(decreases_to!(*self => items@[i as int]));
                    }
                    if !items[i].is_well_keyed() {
                        assert(!well_keyed(iv[i as int]));
                        return false;
                    }
                }
                true
            },
            JsonValue::Object(members) => {
                let ghost mv = members_view(members@);
                proof {
                    lemma_members_view(members@);
                    lemma_values_well_keyed(mv);
                }
                if !members_keys_distinct(members) {
                    return false;
                }
                let n = members.len();
                assert(keys_distinct(mv));
                for i in 0..n
                    invariant
                        n == members@.len(),
                        mv == members_view(members@),
                        mv.len() == n,
                        keys_distinct(mv),
                        forall|j: int| 0 <= j < n ==> #[trigger] mv[j] == (members@[j].0@, json_view(members@[j].1)),
                        forall|j: int| 0 <= j < i ==> well_keyed(#[trigger] mv[j].1),
                {
                    proof {
                        assert(decreases_to!(*self => *members));
                        assert(decreases_to!(*members => members@[i as int]));
                        assert(decreases_to!(members@[i as int] => members@[i as int].1));
                        assert(decreases_to!(*self => members@[i as int].1));
                    }
                    if !members[i].1.is_well_keyed() {
                        assert(!well_keyed(mv[i as int].1));
                        return false;
                    }
                }
                true
            },
            _ => true,
        }
    }

    /// A copy of this value, member for member.
    #[verifier::loop_isolation(false)]
    pub fn deep_clone(&self) -> (r: JsonValue)
        ensures
            r@ == self@,
        decreases self,
    {
        match self {
            JsonValue::Null => JsonValue::Null,
            JsonValue::Bool(b) => JsonValue::Bool(*b),
            JsonValue::Number(t) => JsonValue::Number(t.clone()),
            JsonValue::String(s) => JsonValue::String(s.clone()),
            JsonValue::Array(items) => {
                let mut out: Vec<JsonValue> = Vec::new();
                let n = items.len();
                for i in 0..n
                    invariant
                        n == items@.len(),
                        out@.len() == i,
                        forall|j: int| 0 <= j < i ==> json_view(#[trigger] out@[j]) == json_view(items@[j]),
                {
                    proof {
                        assert(decreases_to!(*self => *items));
                        assert(decreases_to!(*items => items@[i as int]));
                        assert(decreases_to!(*self => items@[i as int]));
                    }
                    let c = items[i].deep_clone();
                    out.push(c);
                }
                proof {
                    lemma_items_view(out@);
                    lemma_items_view(items@);
                    assert(items_view(out@) =~= items_view(items@));
                }
                JsonValue::Array(out)
            },
            JsonValue::Object(members) => {
                let mut out: Vec<(String, JsonValue)> = Vec::new();
                let n = members.len();
                for i in 0..n
                    invariant
                        n == members@.len(),
                        out@.len() == i,
                        forall|j: int|
                            0 <= j < i ==> (#[trigger] out@[j]).0@ == members@[j].0@
                                && json_view(out@[j].1) == json_view(members@[j].1),
                {
                    proof {
                        assert(decreases_to!(*self => *members));
                        assert(decreases_to!(*members => members@[i as int]));
                        assert(decreases_to!(members@[i as int] => members@[i as int].1));
                        assert(decreases_to!(*self => members@[i as int].1));
                    }
                    let k = members[i].0.clone();
                    let c = members[i].1.deep_clone();
                    out.push((k, c));
                }
                proof {
                    lemma_members_view(out@);
                    lemma_members_view(members@);
                    assert(members_view(out@) =~= members_view(members@));
                }
                JsonValue::Object(out)
            },
        }
    }
}

impl Clone for JsonValue {
    fn clone(&self) -> (r: Self)
        ensures
            r@ == self@,
    {
        self.deep_clone()
    }
}

} // verus!
