//! The canonical JSON writer: compact output, object members sorted by key
//! at every depth, array order kept as it is.

use vstd::prelude::*;
use vstd::utf8::*;

use crate::error::Result;
use crate::json::{Json, JsonValue, items_view, members_view, lemma_items_view, lemma_members_view};
use crate::text::{chars_less, chars_of, key_lt};

verus! {

/// The hexadecimal digit (lower case) for a value below sixteen.
pub open spec fn hex_digit(d: int) -> u8 {
    if d < 10 {
        (0x30 + d) as u8
    } else {
        (0x61 + d - 10) as u8
    }
}

/// How one byte of a string's UTF-8 encoding is written inside a JSON
/// string literal: `"` and `\` get a backslash, the control characters with a
/// short escape get it (`\b \t \n \f \r`), the other control characters are
/// written `\u00XX`, and every other byte is written as it is.
pub open spec fn escape_byte(b: u8) -> Seq<u8> {
    if b == 0x08 {
        seq![0x5cu8, 0x62u8]
    } else if b == 0x09 {
        seq![0x5cu8, 0x74u8]
    } else if b == 0x0a {
        seq![0x5cu8, 0x6eu8]
    } else if b == 0x0c {
        seq![0x5cu8, 0x66u8]
    } else if b == 0x0d {
        seq![0x5cu8, 0x72u8]
    } else if b < 0x20 {
        seq![0x5cu8, 0x75u8, 0x30u8, 0x30u8, hex_digit((b / 16) as int), hex_digit((b % 16) as int)]
    } else if b == 0x22 {
        seq![0x5cu8, 0x22u8]
    } else if b == 0x5c {
        seq![0x5cu8, 0x5cu8]
    } else {
        seq![b]
    }
}

/// The escaped form of a byte string.
pub open spec fn escape_bytes(s: Seq<u8>) -> Seq<u8>
    decreases s.len(),
{
    if s.len() == 0 {
        Seq::empty()
    } else {
        escape_bytes(s.drop_last()) + escape_byte(s.last())
    }
}

/// A string written as a JSON string literal.
pub open spec fn quoted(s: Seq<char>) -> Seq<u8> {
    seq![0x22u8] + escape_bytes(encode_utf8(s)) + seq![0x22u8]
}

/// Byte strings joined with commas between them.
pub open spec fn join_commas(parts: Seq<Seq<u8>>) -> Seq<u8>
    decreases parts.len(),
{
    if parts.len() == 0 {
        Seq::empty()
    } else if parts.len() == 1 {
        parts[0]
    } else {
        join_commas(parts.drop_last()) + seq![0x2cu8] + parts.last()
    }
}

/// Insert a keyed entry into a sequence sorted by key, after every entry
/// whose key is not above it (so entries with equal keys keep their order).
pub open spec fn insert_by_key<V>(s: Seq<(Seq<char>, V)>, e: (Seq<char>, V)) -> Seq<(Seq<char>, V)>
    decreases s.len(),
{
    if s.len() == 0 {
        seq![e]
    } else if key_lt(e.0, s.last().0) {
        insert_by_key(s.drop_last(), e).push(s.last())
    } else {
        s.push(e)
    }
}

/// A keyed sequence sorted by key; a stable insertion sort.
pub open spec fn sort_by_key<V>(s: Seq<(Seq<char>, V)>) -> Seq<(Seq<char>, V)>
    decreases s.len(),
{
    if s.len() == 0 {
        Seq::empty()
    } else {
        insert_by_key(sort_by_key(s.drop_last()), s.last())
    }
}

/// The canonical bytes of a JSON value: no whitespace, object members in key
/// order, array items in their own order, strings escaped as above and
/// numbers written as their text.
pub open spec fn canonical(j: Json) -> Seq<u8>
    decreases j,
{
    match j {
        Json::Null => seq![0x6eu8, 0x75u8, 0x6cu8, 0x6cu8],
        Json::Bool(b) => if b {
            seq![0x74u8, 0x72u8, 0x75u8, 0x65u8]
        } else {
            seq![0x66u8, 0x61u8, 0x6cu8, 0x73u8, 0x65u8]
        },
        Json::Number(t) => encode_utf8(t),
        Json::Str(s) => quoted(s),
        Json::Array(items) => seq![0x5bu8] + join_commas(canonical_items(items)) + seq![0x5du8],
        Json::Object(members) => seq![0x7bu8] + join_commas(
            member_texts(sort_by_key(member_encodings(members))),
        ) + seq![0x7du8],
    }
}

/// The canonical bytes of each item.
pub open spec fn canonical_items(items: Seq<Json>) -> Seq<Seq<u8>>
    decreases items,
{
    if items.len() == 0 {
        Seq::empty()
    } else {
        canonical_items(items.drop_last()).push(canonical(items.last()))
    }
}

/// Each member's key with its written form `"key":value`.
pub open spec fn member_encodings(members: Seq<(Seq<char>, Json)>) -> Seq<(Seq<char>, Seq<u8>)>
    decreases members,
{
    if members.len() == 0 {
        Seq::empty()
    } else {
        member_encodings(members.drop_last()).push(
            (
                members.last().0,
                quoted(members.last().0) + seq![0x3au8] + canonical(members.last().1),
            ),
        )
    }
}

/// The written forms of keyed members, in order.
pub open spec fn member_texts(s: Seq<(Seq<char>, Seq<u8>)>) -> Seq<Seq<u8>> {
    s.map_values(|p: (Seq<char>, Seq<u8>)| p.1)
}

proof fn lemma_canonical_items(items: Seq<Json>)
    ensures
        canonical_items(items).len() == items.len(),
        forall|i: int|
            0 <= i < items.len() ==> #[trigger] canonical_items(items)[i] == canonical(items[i]),
    decreases items.len(),
{
    if items.len() > 0 {
        lemma_canonical_items(items.drop_last());
    }
}

pub(crate) proof fn lemma_member_encodings(members: Seq<(Seq<char>, Json)>)
    ensures
        member_encodings(members).len() == members.len(),
        forall|i: int|
            0 <= i < members.len() ==> #[trigger] member_encodings(members)[i] == (
                members[i].0,
                quoted(members[i].0) + seq![0x3au8] + canonical(members[i].1),
            ),
    decreases members.len(),
{
    if members.len() > 0 {
        lemma_member_encodings(members.drop_last());
    }
}

/// Inserting at the position found by scanning back over the larger keys
/// is the sorted insertion.
proof fn lemma_insert_by_key_at<V>(s: Seq<(Seq<char>, V)>, e: (Seq<char>, V), p: int)
    requires
        0 <= p <= s.len(),
        forall|j: int| p <= j < s.len() ==> key_lt(e.0, #[trigger] s[j].0),
        p > 0 ==> !key_lt(e.0, s[p - 1].0),
    ensures
        insert_by_key(s, e) == s.insert(p, e),
    decreases s.len(),
{
    if s.len() == 0 {
        assert(s.insert(p, e) =~= seq![e]);
    } else if p == s.len() {
        assert(s.insert(p, e) =~= s.push(e));
    } else {
        assert(key_lt(e.0, s.last().0));
        lemma_insert_by_key_at(s.drop_last(), e, p);
        assert(s.drop_last().insert(p, e).push(s.last()) =~= s.insert(p, e));
    }
}

/// The string literal for `s`: `serde_json::to_vec` applied to a `&str`.
///
/// Trusted: serde_json writes a string as a quote, then each byte of its
/// UTF-8 encoding with the escapes of its `ESCAPE` table (`\"`, `\\`,
/// `\b \t \n \f \r`, `\u00XX` with lower-case hex for the other control
/// bytes, every other byte unchanged), then a quote; writing into a `Vec`
/// cannot fail, so the error arm is never taken.
#[verifier::external_body]
fn json_string_literal(s: &str) -> (r: Vec<u8>)
    ensures
        r@ == quoted(s@),
{
    match serde_json::to_vec(s) {
        Ok(bytes) => bytes,
        Err(_) => Vec::new(),
    }
}

fn append_bytes(out: &mut Vec<u8>, bytes: &[u8])
    ensures
        final(out)@ == old(out)@ + bytes@,
{
    let n = bytes.len();
    for i in 0..n
        invariant
            n == bytes@.len(),
            out@ == old(out)@ + bytes@.take(i as int),
    {
        out.push(bytes[i]);
        assert(bytes@.take(i + 1) =~= bytes@.take(i as int).push(bytes@[i as int]));
    }
    assert(bytes@.take(n as int) =~= bytes@);
}

/// The views of keyed byte strings.
pub open spec fn keyed_view(s: Seq<(Vec<char>, Vec<u8>)>) -> Seq<(Seq<char>, Seq<u8>)> {
    s.map_values(|p: (Vec<char>, Vec<u8>)| (p.0@, p.1@))
}

/// Write the canonical bytes of `v` at the end of `out`.
fn write_canonical(v: &JsonValue, out: &mut Vec<u8>)
    ensures
        final(out)@ == old(out)@ + canonical(v@),
    decreases v, 0nat,
{
    match v {
        JsonValue::Null => {
            out.push(0x6e);
            out.push(0x75);
            out.push(0x6c);
            out.push(0x6c);
            assert(out@ =~= old(out)@ + canonical(v@));
        },
        JsonValue::Bool(b) => {
            if *b {
                out.push(0x74);
                out.push(0x72);
                out.push(0x75);
                out.push(0x65);
            } else {
                out.push(0x66);
                out.push(0x61);
                out.push(0x6c);
                out.push(0x73);
                out.push(0x65);
            }
            assert(out@ =~= old(out)@ + canonical(v@));
        },
        JsonValue::Number(t) => {
            append_bytes(out, t.as_str().as_bytes());
        },
        JsonValue::String(s) => {
            let lit = json_string_literal(s.as_str());
            append_bytes(out, lit.as_slice());
        },
        JsonValue::Array(items) => {
            out.push(0x5b);
            write_items(items, out);
            out.push(0x5d);
            assert(out@ =~= old(out)@ + canonical(v@));
        },
        JsonValue::Object(members) => {
            let sorted = encode_members(members);
            out.push(0x7b);
            write_joined(&sorted, out);
            out.push(0x7d);
            assert(out@ =~= old(out)@ + canonical(v@));
        },
    }
}

/// Write the canonical bytes of the items, separated by commas.
#[verifier::loop_isolation(false)]
fn write_items(items: &Vec<JsonValue>, out: &mut Vec<u8>)
    ensures
        final(out)@ == old(out)@ + join_commas(canonical_items(items_view(items@))),
    decreases items, 1nat,
{
    let ghost start = out@;
    let ghost parts = canonical_items(items_view(items@));
    proof {
        lemma_items_view(items@);
        lemma_canonical_items(items_view(items@));
        assert(parts.take(0) =~= Seq::<Seq<u8>>::empty());
        assert(start + join_commas(parts.take(0)) =~= start);
    }
    let n = items.len();
    for i in 0..n
        invariant
            n == items@.len(),
            parts.len() == n,
            out@ == start + join_commas(parts.take(i as int)),
    {
        if i > 0 {
            out.push(0x2c);
        }
        proof {
            assert(decreases_to!(*items => items@[i as int]));
        }
        write_canonical(&items[i], out);
        proof {
            assert(parts.take(i + 1).drop_last() =~= parts.take(i as int));
            assert(parts.take(i + 1).last() == parts[i as int]);
            if i == 0 {
                assert(join_commas(parts.take(1)) == parts[0]);
            }
            assert(out@ =~= start + join_commas(parts.take(i + 1)));
        }
    }
    assert(parts.take(n as int) =~= parts);
}

/// Each member's key and written form `"key":value`, sorted by key.
#[verifier::loop_isolation(false)]
fn encode_members(members: &Vec<(String, JsonValue)>) -> (r: Vec<(Vec<char>, Vec<u8>)>)
    ensures
        keyed_view(r@) == sort_by_key(member_encodings(members_view(members@))),
    decreases members, 1nat,
{
    let ghost mv = members_view(members@);
    let ghost encs = member_encodings(mv);
    proof {
        lemma_members_view(members@);
        lemma_member_encodings(mv);
        assert(encs.take(0) =~= Seq::<(Seq<char>, Seq<u8>)>::empty());
        assert(keyed_view(Seq::<(Vec<char>, Vec<u8>)>::empty()) =~= Seq::<(Seq<char>, Seq<u8>)>::empty());
    }
    let n = members.len();
    let mut sorted: Vec<(Vec<char>, Vec<u8>)> = Vec::new();
    for i in 0..n
        invariant
            n == members@.len(),
            encs.len() == n,
            keyed_view(sorted@) == sort_by_key(encs.take(i as int)),
    {
        let key = chars_of(members[i].0.as_str());
        let mut text = json_string_literal(members[i].0.as_str());
        text.push(0x3a);
        proof {
            assert(decreases_to!(*members => members@[i as int]));
            assert(decreases_to!(members@[i as int] => members@[i as int].1));
        }
        write_canonical(&members[i].1, &mut text);
        let ghost e = (key@, text@);
        assert(e == encs[i as int]);
        let ghost sv = keyed_view(sorted@);
        let mut pos = sorted.len();
        while pos > 0 && chars_less(&key, &sorted[pos - 1].0)
            invariant
                pos <= sorted@.len(),
                sv == keyed_view(sorted@),
                forall|j: int| pos <= j < sv.len() ==> key_lt(e.0, #[trigger] sv[j].0),
            decreases pos,
        {
            pos = pos - 1;
        }
        proof {
            lemma_insert_by_key_at(sv, e, pos as int);
            assert(encs.take(i + 1).drop_last() =~= encs.take(i as int));
        }
        sorted.insert(pos, (key, text));
        proof {
            assert(keyed_view(sorted@) =~= sv.insert(pos as int, e));
        }
    }
    assert(encs.take(n as int) =~= encs);
    sorted
}

/// Write the byte strings of keyed entries, separated by commas.
fn write_joined(sorted: &Vec<(Vec<char>, Vec<u8>)>, out: &mut Vec<u8>)
    ensures
        final(out)@ == old(out)@ + join_commas(member_texts(keyed_view(sorted@))),
{
    let ghost texts = member_texts(keyed_view(sorted@));
    let ghost start = out@;
    assert(texts.take(0) =~= Seq::<Seq<u8>>::empty());
    assert(start + join_commas(texts.take(0)) =~= start);
    let m = sorted.len();
    for j in 0..m
        invariant
            m == sorted@.len(),
            texts == member_texts(keyed_view(sorted@)),
            out@ == start + join_commas(texts.take(j as int)),
    {
        if j > 0 {
            out.push(0x2c);
        }
        append_bytes(out, sorted[j].1.as_slice());
        proof {
            assert(texts[j as int] == sorted@[j as int].1@);
            assert(texts.take(j + 1).drop_last() =~= texts.take(j as int));
            if j == 0 {
                assert(join_commas(texts.take(1)) == texts[0]);
            }
            assert(out@ =~= start + join_commas(texts.take(j + 1)));
        }
    }
    assert(texts.take(m as int) =~= texts);
}

/// Serialize `value` to deterministic, byte-stable compact JSON.
///
/// Object keys are sorted by this function, recursively, whatever order the
/// members were built in; array order is preserved; no whitespace is
/// emitted. Identical input always yields identical bytes.
pub fn canonical_bytes(value: &JsonValue) -> (r: Result<Vec<u8>>)
    ensures
        r matches Ok(b) && b@ == canonical(value@),
{
    let mut out: Vec<u8> = Vec::new();
    write_canonical(value, &mut out);
    assert(out@ =~= canonical(value@));
    Ok(out)
}

} // verus!
