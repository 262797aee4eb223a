//! Backend/schema version representation used to key manifests and reports.

use vstd::prelude::*;
use vstd::string::*;

use crate::error::{Error, Result};
use crate::json::{Json, JsonValue, members_view, lemma_members_view};
use crate::text::{
    chars_of, decimal, decimal_string, is_digit, lemma_decimal, lemma_parse_decimal,
    lemma_split_on_extend, lemma_trim_digits_ends, parse_u64, parse_u64_spec, split_chars,
    split_on, trim, trim_chars,
};

verus! {

/// A simple `major.minor.patch` version.
///
/// Used to key field manifests and verification reports against the schema
/// version actually detected at the source, so completeness claims are always
/// tied to a concrete backend version.
#[derive(Debug, Clone, Copy, PartialEq, Eq, Structural, Hash, Ord)]
pub struct Version {
    /// Major schema version.
    pub major: u64,
    /// Minor schema version.
    pub minor: u64,
    /// Patch version.
    pub patch: u64,
}

/// The text of a version: `major.minor.patch` in decimal.
pub open spec fn version_text(v: Version) -> Seq<char> {
    decimal(v.major as nat) + seq!['.'] + decimal(v.minor as nat) + seq!['.'] + decimal(
        v.patch as nat,
    )
}

/// The components of a version string: its text without surrounding white
/// space, split at each `.`.
pub open spec fn version_components(input: Seq<char>) -> Seq<Seq<char>> {
    split_on(trim(input), '.')
}

/// The version a string denotes, if any: exactly three components, each an
/// unsigned 64-bit integer in decimal.
pub open spec fn parse_version_spec(input: Seq<char>) -> Option<Version> {
    let parts = version_components(input);
    if parts.len() == 3 {
        match (parse_u64_spec(parts[0]), parse_u64_spec(parts[1]), parse_u64_spec(parts[2])) {
            (Some(major), Some(minor), Some(patch)) => Some(
                Version { major, minor, patch },
            ),
            _ => None,
        }
    } else {
        None
    }
}

/// The reason given when a version string has the wrong number of parts.
pub open spec fn wrong_arity_reason(n: nat) -> Seq<char> {
    "expected major.minor.patch, got "@ + decimal(n) + " component(s)"@
}

/// The reason given when a component is not an unsigned integer.
pub open spec fn bad_component_reason() -> Seq<char> {
    "each component must be a non-negative integer"@
}

/// A version's text parses back to the same version.
pub proof fn lemma_version_text_roundtrip(v: Version)
    ensures
        parse_version_spec(version_text(v)) == Some(v),
{
    let a = decimal(v.major as nat);
    let b = decimal(v.minor as nat);
    let c = decimal(v.patch as nat);
    lemma_decimal(v.major as nat);
    lemma_decimal(v.minor as nat);
    lemma_decimal(v.patch as nat);
    lemma_parse_decimal(v.major as nat);
    lemma_parse_decimal(v.minor as nat);
    lemma_parse_decimal(v.patch as nat);
    let dot = seq!['.'];
    let t = version_text(v);
    assert(t == a + dot + b + dot + c);
    assert(is_digit(t[0])) by {
        assert(t[0] == a[0]);
    }
    assert(is_digit(t.last())) by {
        assert(t.last() == c.last());
    }
    lemma_trim_digits_ends(t);
    assert forall|i: int| 0 <= i < a.len() implies a[i] != '.' by {
        assert(is_digit(a[i]));
    }
    assert forall|i: int| 0 <= i < b.len() implies b[i] != '.' by {
        assert(is_digit(b[i]));
    }
    assert forall|i: int| 0 <= i < c.len() implies c[i] != '.' by {
        assert(is_digit(c[i]));
    }
    let e = Seq::<char>::empty();
    lemma_split_on_extend(e, a, '.');
    assert(e + a =~= a);
    assert(split_on(e, '.') =~= seq![e]);
    assert(split_on(a, '.') =~= seq![a]);
    assert((a + dot) =~= a.push('.'));
    assert(a.push('.').drop_last() =~= a);
    assert(split_on(a.push('.'), '.') == split_on(a, '.').push(e));
    assert(split_on(a + dot, '.') =~= seq![a, e]);
    lemma_split_on_extend(a + dot, b, '.');
    assert(split_on(a + dot + b, '.') =~= seq![a, b]);
    assert((a + dot + b + dot) =~= (a + dot + b).push('.'));
    assert((a + dot + b).push('.').drop_last() =~= a + dot + b);
    assert(split_on((a + dot + b).push('.'), '.') == split_on(a + dot + b, '.').push(e));
    assert(split_on(a + dot + b + dot, '.') =~= seq![a, b, e]);
    lemma_split_on_extend(a + dot + b + dot, c, '.');
    assert(split_on(t, '.') =~= seq![a, b, c]);
}

/// The JSON form of a version: an object with its three components as
/// numbers.
pub open spec fn version_json(v: Version) -> Json {
    Json::Object(
        seq![
            ("major"@, Json::Number(decimal(v.major as nat))),
            ("minor"@, Json::Number(decimal(v.minor as nat))),
            ("patch"@, Json::Number(decimal(v.patch as nat))),
        ],
    )
}

/// A version's JSON form determines the version.
pub proof fn lemma_version_json_injective(a: Version, b: Version)
    requires
        version_json(a) == version_json(b),
    ensures
        a == b,
{
    let ma = match version_json(a) {
        Json::Object(m) => m,
        _ => Seq::empty(),
    };
    let mb = match version_json(b) {
        Json::Object(m) => m,
        _ => Seq::empty(),
    };
    assert(ma == mb);
    assert(ma[0] == mb[0] && ma[1] == mb[1] && ma[2] == mb[2]);
    lemma_parse_decimal(a.major as nat);
    lemma_parse_decimal(b.major as nat);
    lemma_parse_decimal(a.minor as nat);
    lemma_parse_decimal(b.minor as nat);
    lemma_parse_decimal(a.patch as nat);
    lemma_parse_decimal(b.patch as nat);
}

impl Version {
    /// Construct a version from its three components.
    pub fn new(major: u64, minor: u64, patch: u64) -> (r: Self)
        ensures
            r == (Version { major, minor, patch }),
    {
        Version { major, minor, patch }
    }

    /// The version written as `major.minor.patch`.
    pub fn to_string(&self) -> (r: String)
        ensures
            r@ == version_text(*self),
    {
        proof {
            reveal_strlit(".");
        }
        let s = decimal_string(self.major).concat(".");
        let s = s.concat(decimal_string(self.minor).as_str());
        let s = s.concat(".");
        s.concat(decimal_string(self.patch).as_str())
    }

    /// The version's JSON form.
    pub fn to_json(&self) -> (r: JsonValue)
        ensures
            r@ == version_json(*self),
    {
        let mut members: Vec<(String, JsonValue)> = Vec::new();
        members.push((String::from_str("major"), JsonValue::Number(decimal_string(self.major))));
        members.push((String::from_str("minor"), JsonValue::Number(decimal_string(self.minor))));
        members.push((String::from_str("patch"), JsonValue::Number(decimal_string(self.patch))));
        proof {
            lemma_members_view(members@);
            assert(members_view(members@) =~= match version_json(*self) {
                Json::Object(m) => m,
                _ => Seq::empty(),
            });
        }
        JsonValue::Object(members)
    }

    /// Parse `major.minor.patch`, ignoring surrounding white space.
    pub fn parse(input: &str) -> (r: Result<Version>)
        ensures
            parse_version_spec(input@) matches Some(v) ==> (r matches Ok(w) && w == v),
            parse_version_spec(input@) is None ==> (r matches Err(
                Error::InvalidVersion { input: i, reason },
            ) && i@ == input@ && reason@ == (if version_components(input@).len() == 3 {
                bad_component_reason()
            } else {
                wrong_arity_reason(version_components(input@).len())
            })),
    {
        let chars = chars_of(input);
        let trimmed = trim_chars(&chars);
        let parts = split_chars(&trimmed, '.');
        if parts.len() != 3 {
            let count = decimal_string(parts.len() as u64);
            let reason = String::from_str("expected major.minor.patch, got ");
            let reason = reason.concat(count.as_str());
            let reason = reason.concat(" component(s)");
            return Err(Error::InvalidVersion { input: String::from_str(input), reason });
        }
        let major = parse_u64(&parts[0]);
        let minor = parse_u64(&parts[1]);
        let patch = parse_u64(&parts[2]);
        match (major, minor, patch) {
            (Some(major), Some(minor), Some(patch)) => Ok(Version::new(major, minor, patch)),
            _ => Err(
                Error::InvalidVersion {
                    input: String::from_str(input),
                    reason: String::from_str("each component must be a non-negative integer"),
                },
            ),
        }
    }
}

impl Default for Version {
    fn default() -> (r: Self)
        ensures
            r == (Version { major: 0, minor: 0, patch: 0 }),
    {
        Version { major: 0, minor: 0, patch: 0 }
    }
}

impl core::str::FromStr for Version {
    type Err = Error;

    fn from_str(input: &str) -> (r: Result<Self>)
        ensures
            parse_version_spec(input@) matches Some(v) ==> (r matches Ok(w) && w == v),
            parse_version_spec(input@) is None ==> (r matches Err(
                Error::InvalidVersion { input: i, reason },
            ) && i@ == input@ && reason@ == (if version_components(input@).len() == 3 {
                bad_component_reason()
            } else {
                wrong_arity_reason(version_components(input@).len())
            })),
    {
        Version::parse(input)
    }
}

} // verus!
