//! Representative sample data for exercising the contract checks, and for
//! adapters to bridge their own extraction into the canonical shape.

use vstd::prelude::*;
use vstd::string::*;

use crate::json::{Json, JsonValue, members_view, lemma_members_view};
use crate::model::entities::{Client, Realm, User};
use crate::model::envelope::{BackendInfo, CanonicalRealm, backend_info_wf};
use crate::model::kind::EntityKind;
use crate::model::volatile::volatile_lookup;
use crate::verify::manifest::{EntityExpectation, EntityPresence, FieldExpectation, FieldManifest};
use crate::version::Version;

verus! {

/// An object with one member.
fn object1(key: &str, value: JsonValue) -> (r: JsonValue)
    ensures
        r@ == Json::Object(seq![(key@, value@)]),
{
    let ghost v = value@;
    let mut members: Vec<(String, JsonValue)> = Vec::new();
    members.push((String::from_str(key), value));
    proof {
        lemma_members_view(members@);
        assert(members_view(members@) =~= seq![(key@, v)]);
    }
    JsonValue::Object(members)
}

/// An object with two members.
fn object2(k1: &str, v1: JsonValue, k2: &str, v2: JsonValue) -> (r: JsonValue)
    ensures
        r@ == Json::Object(seq![(k1@, v1@), (k2@, v2@)]),
{
    let ghost w1 = v1@;
    let ghost w2 = v2@;
    let mut members: Vec<(String, JsonValue)> = Vec::new();
    members.push((String::from_str(k1), v1));
    members.push((String::from_str(k2), v2));
    proof {
        lemma_members_view(members@);
        assert(members_view(members@) =~= seq![(k1@, w1), (k2@, w2)]);
    }
    JsonValue::Object(members)
}

/// A JSON string.
fn text(s: &str) -> (r: JsonValue)
    ensures
        r@ == Json::Str(s@),
{
    JsonValue::String(String::from_str(s))
}

/// The sample's volatile values: the last login of user `u1`.
pub open spec fn sample_volatile(e: EntityKind, row_id: Seq<char>, path: Seq<char>) -> Option<Json> {
    if e == EntityKind::User && row_id == "u1"@ && path == "native.last_login"@ {
        Some(Json::Str("2026-08-15T10:00:00Z"@))
    } else {
        None
    }
}

/// A small, representative extraction: backend `sample` 1.0.0, realm
/// `sample`, clients `api` and `web`, user `alice` with one volatile last
/// login, and nothing else.
pub fn sample_realm() -> (r: CanonicalRealm)
    ensures
        r.backend.backend@ == "sample"@,
        r.backend.detected_version == (Version { major: 1, minor: 0, patch: 0 }),
        r.backend.extra@.len() == 0,
        backend_info_wf(r.backend),
        r.realm.name@ == "sample"@,
        r.realm.enabled,
        r.realm.native@ == Json::Object(seq![("registrationAllowed"@, Json::Bool(false))]),
        r.clients@.len() == 2,
        r.clients@[0].id@ == "a"@,
        r.clients@[0].client_id@ == "api"@,
        r.clients@[0].enabled,
        r.clients@[0].native@ == Json::Object(seq![("protocol"@, Json::Str("openid-connect"@))]),
        r.clients@[1].id@ == "b"@,
        r.clients@[1].client_id@ == "web"@,
        r.clients@[1].enabled,
        r.clients@[1].native@ == Json::Object(
            seq![("protocol"@, Json::Str("openid-connect"@)), ("secret"@, Json::Str("s3cr3t"@))],
        ),
        r.users@.len() == 1,
        r.users@[0].id@ == "u1"@,
        r.users@[0].username@ == "alice"@,
        r.users@[0].enabled,
        r.users@[0].native@ == Json::Object(seq![("email"@, Json::Str("alice@example.com"@))]),
        r.client_scopes@.len() == 0,
        r.groups@.len() == 0,
        r.roles@.len() == 0,
        r.credentials@.len() == 0,
        r.protocol_mappers@.len() == 0,
        r.auth_flows@.len() == 0,
        r.identity_providers@.len() == 0,
        forall|e: EntityKind, row_id: Seq<char>, path: Seq<char>|
            #[trigger] volatile_lookup(r.volatile@, e, row_id, path) == sample_volatile(e, row_id, path),
{
    let mut realm = CanonicalRealm::default();
    realm.backend = BackendInfo {
        backend: String::from_str("sample"),
        detected_version: Version::new(1, 0, 0),
        extra: Vec::new(),
    };
    realm.realm = Realm {
        name: String::from_str("sample"),
        enabled: true,
        native: object1("registrationAllowed", JsonValue::Bool(false)),
    };
    realm.clients.push(
        Client {
            id: String::from_str("a"),
            client_id: String::from_str("api"),
            enabled: true,
            native: object1("protocol", text("openid-connect")),
        },
    );
    realm.clients.push(
        Client {
            id: String::from_str("b"),
            client_id: String::from_str("web"),
            enabled: true,
            native: object2("protocol", text("openid-connect"), "secret", text("s3cr3t")),
        },
    );
    realm.users.push(
        User {
            id: String::from_str("u1"),
            username: String::from_str("alice"),
            enabled: true,
            native: object1("email", text("alice@example.com")),
        },
    );
    realm.volatile.insert(EntityKind::User, "u1", "native.last_login", text("2026-08-15T10:00:00Z"));
    realm
}

/// One field expectation, introduced in 1.0.0.
fn expectation(entity: EntityKind, path: &str, required: bool, volatile: bool) -> (r: FieldExpectation)
    ensures
        r.entity == entity,
        r.path@ == path@,
        r.required == required,
        r.volatile == volatile,
        r.introduced_in == (Version { major: 1, minor: 0, patch: 0 }),
{
    FieldExpectation {
        entity,
        path: String::from_str(path),
        required,
        volatile,
        introduced_in: Version::new(1, 0, 0),
    }
}

/// Whether `fe` expects `path` on `entity` with the given flags, from 1.0.0.
pub open spec fn expects(fe: FieldExpectation, entity: EntityKind, path: Seq<char>, required: bool, volatile: bool) -> bool {
    &&& fe.entity == entity
    &&& fe.path@ == path
    &&& fe.required == required
    &&& fe.volatile == volatile
    &&& fe.introduced_in == (Version { major: 1, minor: 0, patch: 0 })
}

/// A manifest that matches [`sample_realm`]: backend `sample` 1.0.0,
/// clients and users optional, and six field expectations, the last one the
/// volatile last login of users.
pub fn sample_manifest() -> (r: FieldManifest)
    ensures
        r.backend@ == "sample"@,
        r.for_version == (Version { major: 1, minor: 0, patch: 0 }),
        r.entities@ == seq![
            EntityExpectation { entity: EntityKind::Client, presence: EntityPresence::Optional },
            EntityExpectation { entity: EntityKind::User, presence: EntityPresence::Optional },
        ],
        r.fields@.len() == 6,
        expects(r.fields@[0], EntityKind::Client, "client_id"@, true, false),
        expects(r.fields@[1], EntityKind::Client, "enabled"@, true, false),
        expects(r.fields@[2], EntityKind::Client, "native.protocol"@, true, false),
        expects(r.fields@[3], EntityKind::User, "username"@, true, false),
        expects(r.fields@[4], EntityKind::User, "native.email"@, false, false),
        expects(r.fields@[5], EntityKind::User, "native.last_login"@, false, true),
{
    let mut manifest = FieldManifest::new("sample", Version::new(1, 0, 0));
    manifest.entities.push(EntityExpectation::new(EntityKind::Client, EntityPresence::Optional));
    manifest.entities.push(EntityExpectation::new(EntityKind::User, EntityPresence::Optional));
    manifest.fields.push(expectation(EntityKind::Client, "client_id", true, false));
    manifest.fields.push(expectation(EntityKind::Client, "enabled", true, false));
    manifest.fields.push(expectation(EntityKind::Client, "native.protocol", true, false));
    manifest.fields.push(expectation(EntityKind::User, "username", true, false));
    manifest.fields.push(expectation(EntityKind::User, "native.email", false, false));
    manifest.fields.push(expectation(EntityKind::User, "native.last_login", false, true));
    assert(manifest.entities@ =~= seq![
        EntityExpectation { entity: EntityKind::Client, presence: EntityPresence::Optional },
        EntityExpectation { entity: EntityKind::User, presence: EntityPresence::Optional },
    ]);
    manifest
}

} // verus!
