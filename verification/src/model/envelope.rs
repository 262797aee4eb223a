//! The extracted envelope: what one extraction run produces, and what one
//! selects.

use vstd::prelude::*;
use vstd::string::*;

use crate::json::{
    Json, JsonValue, items_view, lemma_items_view, lemma_members_view, members_keys_distinct,
    members_view,
};
use crate::keyed::keys_distinct;
use crate::model::entities::{
    AuthFlow, CanonicalRow, Client, ClientScope, Credential, Group, IdentityProvider,
    ProtocolMapper, Realm, Role, User, lemma_auth_flow_view_injective,
    lemma_client_scope_view_injective, lemma_client_view_injective,
    lemma_credential_view_injective, lemma_group_view_injective,
    lemma_identity_provider_view_injective, lemma_protocol_mapper_view_injective,
    lemma_realm_view_injective, lemma_role_view_injective, lemma_user_view_injective,
};
use crate::model::volatile::{VolatileSection, volatile_json};
use crate::version::{Version, lemma_version_json_injective, version_json};

verus! {

/// Metadata describing the backend and the schema version detected at the
/// source. Rides inside the extracted envelope so manifests and reports are
/// provably bound to a concrete version.
#[derive(Debug, Clone, PartialEq)]
pub struct BackendInfo {
    /// Backend identifier, e.g. `"keycloak"` or `"ferriskey"`.
    pub backend: String,
    /// The schema version detected at the source.
    pub detected_version: Version,
    /// Any backend-specific discovery detail the canonical model has not
    /// formalized (e.g. distribution/edition), as the members of a JSON
    /// object, with distinct keys ([`backend_info_wf`]).
    pub extra: Vec<(String, JsonValue)>,
}

/// The JSON form of backend metadata.
pub open spec fn backend_info_json(b: BackendInfo) -> Json {
    Json::Object(
        seq![
            ("backend"@, Json::Str(b.backend@)),
            ("detected_version"@, version_json(b.detected_version)),
            ("extra"@, Json::Object(members_view(b.extra@))),
        ],
    )
}

/// Valid backend metadata: the keys of `extra` are distinct, as the keys of
/// a JSON object are.
pub open spec fn backend_info_wf(b: BackendInfo) -> bool {
    keys_distinct(members_view(b.extra@))
}

/// A JSON object from its members.
fn object(members: Vec<(String, JsonValue)>) -> (r: JsonValue)
    ensures
        r@ == Json::Object(members_view(members@)),
{
    JsonValue::Object(members)
}

fn clone_members(members: &Vec<(String, JsonValue)>) -> (r: Vec<(String, JsonValue)>)
    ensures
        members_view(r@) == members_view(members@),
{
    let mut out: Vec<(String, JsonValue)> = Vec::new();
    let n = members.len();
    for i in 0..n
        invariant
            n == members@.len(),
            out@.len() == i,
            forall|j: int| 0 <= j < i ==> (#[trigger] out@[j]).0@ == members@[j].0@ && out@[j].1@ == members@[j].1@,
    {
        out.push((members[i].0.clone(), members[i].1.clone()));
    }
    proof {
        lemma_members_view(out@);
        lemma_members_view(members@);
        assert(members_view(out@) =~= members_view(members@));
    }
    out
}

impl BackendInfo {
    /// Whether the metadata is valid: no key of `extra` occurs twice.
    pub fn is_valid(&self) -> (r: bool)
        ensures
            r == backend_info_wf(*self),
    {
        members_keys_distinct(&self.extra)
    }

    /// The metadata's JSON form.
    pub fn to_json(&self) -> (r: JsonValue)
        ensures
            r@ == backend_info_json(*self),
    {
        let mut members: Vec<(String, JsonValue)> = Vec::new();
        members.push((String::from_str("backend"), JsonValue::String(self.backend.clone())));
        members.push((String::from_str("detected_version"), self.detected_version.to_json()));
        members.push((String::from_str("extra"), object(clone_members(&self.extra))));
        proof {
            lemma_members_view(members@);
            assert(members_view(members@) =~= match backend_info_json(*self) {
                Json::Object(m) => m,
                _ => Seq::empty(),
            });
        }
        object(members)
    }
}

impl Default for BackendInfo {
    fn default() -> (r: Self)
        ensures
            r.backend@ == Seq::<char>::empty(),
            r.detected_version == (Version { major: 0, minor: 0, patch: 0 }),
            r.extra@.len() == 0,
            backend_info_wf(r),
    {
        BackendInfo {
            backend: String::new(),
            detected_version: Version::new(0, 0, 0),
            extra: Vec::new(),
        }
    }
}

/// Selects what one extraction run pulls.
///
/// Release one extracts exactly one realm per run.
#[derive(Debug, Clone, PartialEq, Eq)]
pub struct ExtractScope {
    /// The realm to extract.
    pub realm: String,
}

impl ExtractScope {
    /// Construct a scope for a single realm.
    pub fn new(realm: &str) -> (r: Self)
        ensures
            r.realm@ == realm@,
    {
        ExtractScope { realm: String::from_str(realm) }
    }
}

/// One canonical realm's worth of extracted state.
///
/// Collections are the adapter's responsibility to sort by a stable key
/// before being placed here; core serializes deterministically on top of
/// that.
#[derive(Debug, PartialEq)]
pub struct CanonicalRealm {
    /// Backend and schema version detected at the source.
    pub backend: BackendInfo,
    /// The realm itself.
    pub realm: Realm,
    /// Clients.
    pub clients: Vec<Client>,
    /// Reusable provider-configuration bundles.
    pub client_scopes: Vec<ClientScope>,
    /// Groups.
    pub groups: Vec<Group>,
    /// Roles.
    pub roles: Vec<Role>,
    /// Users.
    pub users: Vec<User>,
    /// Credential records.
    pub credentials: Vec<Credential>,
    /// Protocol mappers.
    pub protocol_mappers: Vec<ProtocolMapper>,
    /// Authentication flows.
    pub auth_flows: Vec<AuthFlow>,
    /// External identity providers.
    pub identity_providers: Vec<IdentityProvider>,
    /// Volatile, non-configuration data, keyed by entity/row/path.
    pub volatile: VolatileSection,
}

/// The JSON array of a collection of rows.
pub open spec fn rows_array<T: CanonicalRow>(rows: Seq<T>) -> Json {
    Json::Array(rows.map_values(|x: T| x.row_view()))
}

/// The members of an extraction's JSON form that make up its config
/// portion: everything but the volatile section, in field order.
pub open spec fn config_members(x: CanonicalRealm) -> Seq<(Seq<char>, Json)> {
    seq![
        ("backend"@, backend_info_json(x.backend)),
        ("realm"@, x.realm.row_view()),
        ("clients"@, rows_array(x.clients@)),
        ("client_scopes"@, rows_array(x.client_scopes@)),
        ("groups"@, rows_array(x.groups@)),
        ("roles"@, rows_array(x.roles@)),
        ("users"@, rows_array(x.users@)),
        ("credentials"@, rows_array(x.credentials@)),
        ("protocol_mappers"@, rows_array(x.protocol_mappers@)),
        ("auth_flows"@, rows_array(x.auth_flows@)),
        ("identity_providers"@, rows_array(x.identity_providers@)),
    ]
}

/// The config portion of an extraction as JSON: the extraction's JSON form
/// without its `volatile` member.
pub open spec fn config_json(x: CanonicalRealm) -> Json {
    Json::Object(config_members(x))
}

/// The JSON form of a whole extraction: its config members followed by the
/// `volatile` member.
pub open spec fn canonical_realm_json(x: CanonicalRealm) -> Json {
    Json::Object(config_members(x).push(("volatile"@, volatile_json(x.volatile@))))
}

/// The rows' JSON forms of two collections agree exactly when their
/// arrays do.
proof fn lemma_rows_array_views<T: CanonicalRow>(s1: Seq<T>, s2: Seq<T>)
    requires
        rows_array(s1) == rows_array(s2),
    ensures
        s1.len() == s2.len(),
        forall|i: int| 0 <= i < s1.len() ==> #[trigger] s1[i].row_view() == s2[i].row_view(),
{
    let v1 = s1.map_values(|x: T| x.row_view());
    let v2 = s2.map_values(|x: T| x.row_view());
    assert(v1 == v2);
    assert forall|i: int| 0 <= i < s1.len() implies #[trigger] s1[i].row_view() == s2[i].row_view() by {
        assert(v1[i] == v2[i]);
    }
}

/// The config JSON of an extraction determines its whole configuration:
/// two extractions with the same config JSON agree on the backend
/// metadata, on the realm, and on every collection, element by element and
/// field by field (each `native` by its JSON value). So a change to any
/// configuration field, such as a user's enabled flag, changes the config
/// JSON.
pub proof fn lemma_config_json_determines_config(a: CanonicalRealm, b: CanonicalRealm)
    requires
        config_json(a) == config_json(b),
    ensures
        a.backend.backend@ == b.backend.backend@,
        a.backend.detected_version == b.backend.detected_version,
        members_view(a.backend.extra@) == members_view(b.backend.extra@),
        a.realm.name@ == b.realm.name@ && a.realm.enabled == b.realm.enabled && a.realm.native@ == b.realm.native@,
        a.clients@.len() == b.clients@.len(),
        forall|i: int| 0 <= i < a.clients@.len() ==> a.clients@[i].id@ == b.clients@[i].id@ && a.clients@[i].client_id@ == b.clients@[i].client_id@ && a.clients@[i].enabled == b.clients@[i].enabled && a.clients@[i].native@ == b.clients@[i].native@,
        a.client_scopes@.len() == b.client_scopes@.len(),
        forall|i: int| 0 <= i < a.client_scopes@.len() ==> a.client_scopes@[i].id@ == b.client_scopes@[i].id@ && a.client_scopes@[i].name@ == b.client_scopes@[i].name@ && a.client_scopes@[i].native@ == b.client_scopes@[i].native@,
        a.groups@.len() == b.groups@.len(),
        forall|i: int| 0 <= i < a.groups@.len() ==> a.groups@[i].id@ == b.groups@[i].id@ && a.groups@[i].name@ == b.groups@[i].name@ && a.groups@[i].native@ == b.groups@[i].native@,
        a.roles@.len() == b.roles@.len(),
        forall|i: int| 0 <= i < a.roles@.len() ==> a.roles@[i].id@ == b.roles@[i].id@ && a.roles@[i].name@ == b.roles@[i].name@ && a.roles@[i].native@ == b.roles@[i].native@,
        a.users@.len() == b.users@.len(),
        forall|i: int| 0 <= i < a.users@.len() ==> a.users@[i].id@ == b.users@[i].id@ && a.users@[i].username@ == b.users@[i].username@ && a.users@[i].enabled == b.users@[i].enabled && a.users@[i].native@ == b.users@[i].native@,
        a.credentials@.len() == b.credentials@.len(),
        forall|i: int| 0 <= i < a.credentials@.len() ==> a.credentials@[i].id@ == b.credentials@[i].id@ && a.credentials@[i].credential_type@ == b.credentials@[i].credential_type@ && a.credentials@[i].native@ == b.credentials@[i].native@,
        a.protocol_mappers@.len() == b.protocol_mappers@.len(),
        forall|i: int| 0 <= i < a.protocol_mappers@.len() ==> a.protocol_mappers@[i].id@ == b.protocol_mappers@[i].id@ && a.protocol_mappers@[i].name@ == b.protocol_mappers@[i].name@ && a.protocol_mappers@[i].native@ == b.protocol_mappers@[i].native@,
        a.auth_flows@.len() == b.auth_flows@.len(),
        forall|i: int| 0 <= i < a.auth_flows@.len() ==> a.auth_flows@[i].id@ == b.auth_flows@[i].id@ && a.auth_flows@[i].alias@ == b.auth_flows@[i].alias@ && a.auth_flows@[i].native@ == b.auth_flows@[i].native@,
        a.identity_providers@.len() == b.identity_providers@.len(),
        forall|i: int| 0 <= i < a.identity_providers@.len() ==> a.identity_providers@[i].id@ == b.identity_providers@[i].id@ && a.identity_providers@[i].alias@ == b.identity_providers@[i].alias@ && a.identity_providers@[i].native@ == b.identity_providers@[i].native@,
{
    let ma = config_members(a);
    let mb = config_members(b);
    assert(ma == mb);
    assert(ma[0] == mb[0]);
    let ba = match backend_info_json(a.backend) {
        Json::Object(m) => m,
        _ => Seq::empty(),
    };
    let bb = match backend_info_json(b.backend) {
        Json::Object(m) => m,
        _ => Seq::empty(),
    };
    assert(ba[0] == bb[0] && ba[1] == bb[1] && ba[2] == bb[2]);
    lemma_version_json_injective(a.backend.detected_version, b.backend.detected_version);
    assert(ma[1] == mb[1]);
    lemma_realm_view_injective(a.realm, b.realm);
    assert(ma[2] == mb[2]);
    lemma_rows_array_views(a.clients@, b.clients@);
    assert forall|i: int| 0 <= i < a.clients@.len() implies a.clients@[i].id@ == b.clients@[i].id@ && a.clients@[i].client_id@ == b.clients@[i].client_id@ && a.clients@[i].enabled == b.clients@[i].enabled && a.clients@[i].native@ == b.clients@[i].native@ by {
        assert(a.clients@[i].row_view() == b.clients@[i].row_view());
        lemma_client_view_injective(a.clients@[i], b.clients@[i]);
    }
    assert(ma[3] == mb[3]);
    lemma_rows_array_views(a.client_scopes@, b.client_scopes@);
    assert forall|i: int| 0 <= i < a.client_scopes@.len() implies a.client_scopes@[i].id@ == b.client_scopes@[i].id@ && a.client_scopes@[i].name@ == b.client_scopes@[i].name@ && a.client_scopes@[i].native@ == b.client_scopes@[i].native@ by {
        assert(a.client_scopes@[i].row_view() == b.client_scopes@[i].row_view());
        lemma_client_scope_view_injective(a.client_scopes@[i], b.client_scopes@[i]);
    }
    assert(ma[4] == mb[4]);
    lemma_rows_array_views(a.groups@, b.groups@);
    assert forall|i: int| 0 <= i < a.groups@.len() implies a.groups@[i].id@ == b.groups@[i].id@ && a.groups@[i].name@ == b.groups@[i].name@ && a.groups@[i].native@ == b.groups@[i].native@ by {
        assert(a.groups@[i].row_view() == b.groups@[i].row_view());
        lemma_group_view_injective(a.groups@[i], b.groups@[i]);
    }
    assert(ma[5] == mb[5]);
    lemma_rows_array_views(a.roles@, b.roles@);
    assert forall|i: int| 0 <= i < a.roles@.len() implies a.roles@[i].id@ == b.roles@[i].id@ && a.roles@[i].name@ == b.roles@[i].name@ && a.roles@[i].native@ == b.roles@[i].native@ by {
        assert(a.roles@[i].row_view() == b.roles@[i].row_view());
        lemma_role_view_injective(a.roles@[i], b.roles@[i]);
    }
    assert(ma[6] == mb[6]);
    lemma_rows_array_views(a.users@, b.users@);
    assert forall|i: int| 0 <= i < a.users@.len() implies a.users@[i].id@ == b.users@[i].id@ && a.users@[i].username@ == b.users@[i].username@ && a.users@[i].enabled == b.users@[i].enabled && a.users@[i].native@ == b.users@[i].native@ by {
        assert(a.users@[i].row_view() == b.users@[i].row_view());
        lemma_user_view_injective(a.users@[i], b.users@[i]);
    }
    assert(ma[7] == mb[7]);
    lemma_rows_array_views(a.credentials@, b.credentials@);
    assert forall|i: int| 0 <= i < a.credentials@.len() implies a.credentials@[i].id@ == b.credentials@[i].id@ && a.credentials@[i].credential_type@ == b.credentials@[i].credential_type@ && a.credentials@[i].native@ == b.credentials@[i].native@ by {
        assert(a.credentials@[i].row_view() == b.credentials@[i].row_view());
        lemma_credential_view_injective(a.credentials@[i], b.credentials@[i]);
    }
    assert(ma[8] == mb[8]);
    lemma_rows_array_views(a.protocol_mappers@, b.protocol_mappers@);
    assert forall|i: int| 0 <= i < a.protocol_mappers@.len() implies a.protocol_mappers@[i].id@ == b.protocol_mappers@[i].id@ && a.protocol_mappers@[i].name@ == b.protocol_mappers@[i].name@ && a.protocol_mappers@[i].native@ == b.protocol_mappers@[i].native@ by {
        assert(a.protocol_mappers@[i].row_view() == b.protocol_mappers@[i].row_view());
        lemma_protocol_mapper_view_injective(a.protocol_mappers@[i], b.protocol_mappers@[i]);
    }
    assert(ma[9] == mb[9]);
    lemma_rows_array_views(a.auth_flows@, b.auth_flows@);
    assert forall|i: int| 0 <= i < a.auth_flows@.len() implies a.auth_flows@[i].id@ == b.auth_flows@[i].id@ && a.auth_flows@[i].alias@ == b.auth_flows@[i].alias@ && a.auth_flows@[i].native@ == b.auth_flows@[i].native@ by {
        assert(a.auth_flows@[i].row_view() == b.auth_flows@[i].row_view());
        lemma_auth_flow_view_injective(a.auth_flows@[i], b.auth_flows@[i]);
    }
    assert(ma[10] == mb[10]);
    lemma_rows_array_views(a.identity_providers@, b.identity_providers@);
    assert forall|i: int| 0 <= i < a.identity_providers@.len() implies a.identity_providers@[i].id@ == b.identity_providers@[i].id@ && a.identity_providers@[i].alias@ == b.identity_providers@[i].alias@ && a.identity_providers@[i].native@ == b.identity_providers@[i].native@ by {
        assert(a.identity_providers@[i].row_view() == b.identity_providers@[i].row_view());
        lemma_identity_provider_view_injective(a.identity_providers@[i], b.identity_providers@[i]);
    }
}

/// The JSON array of a collection of rows.
pub fn rows_to_json<T: CanonicalRow>(rows: &Vec<T>) -> (r: JsonValue)
    ensures
        r@ == rows_array(rows@),
{
    let mut out: Vec<JsonValue> = Vec::new();
    let n = rows.len();
    for i in 0..n
        invariant
            n == rows@.len(),
            out@.len() == i,
            forall|j: int| 0 <= j < i ==> (#[trigger] out@[j])@ == rows@[j].row_view(),
    {
        out.push(rows[i].to_json());
    }
    proof {
        lemma_items_view(out@);
        assert(items_view(out@) =~= rows@.map_values(|x: T| x.row_view()));
    }
    JsonValue::Array(out)
}

impl CanonicalRealm {
    fn config_member_vec(&self) -> (r: Vec<(String, JsonValue)>)
        ensures
            members_view(r@) == config_members(*self),
    {
        let mut m: Vec<(String, JsonValue)> = Vec::new();
        m.push((String::from_str("backend"), self.backend.to_json()));
        m.push((String::from_str("realm"), self.realm.to_json()));
        m.push((String::from_str("clients"), rows_to_json(&self.clients)));
        m.push((String::from_str("client_scopes"), rows_to_json(&self.client_scopes)));
        m.push((String::from_str("groups"), rows_to_json(&self.groups)));
        m.push((String::from_str("roles"), rows_to_json(&self.roles)));
        m.push((String::from_str("users"), rows_to_json(&self.users)));
        m.push((String::from_str("credentials"), rows_to_json(&self.credentials)));
        m.push((String::from_str("protocol_mappers"), rows_to_json(&self.protocol_mappers)));
        m.push((String::from_str("auth_flows"), rows_to_json(&self.auth_flows)));
        m.push((String::from_str("identity_providers"), rows_to_json(&self.identity_providers)));
        proof {
            lemma_members_view(m@);
            assert(members_view(m@) =~= config_members(*self));
        }
        m
    }

    /// The config portion as JSON: everything except the volatile section.
    pub fn config_to_json(&self) -> (r: JsonValue)
        ensures
            r@ == config_json(*self),
    {
        object(self.config_member_vec())
    }

    /// The whole extraction as JSON, volatile section included.
    pub fn to_json(&self) -> (r: JsonValue)
        ensures
            r@ == canonical_realm_json(*self),
    {
        let mut m = self.config_member_vec();
        let ghost before = m@;
        m.push((String::from_str("volatile"), self.volatile.to_json()));
        proof {
            lemma_members_view(m@);
            lemma_members_view(before);
            assert(members_view(m@) =~= config_members(*self).push(("volatile"@, volatile_json(self.volatile@))));
        }
        object(m)
    }
}

impl Default for CanonicalRealm {
    fn default() -> (r: Self)
        ensures
            r.backend.backend@ == Seq::<char>::empty(),
            r.backend.detected_version == (Version { major: 0, minor: 0, patch: 0 }),
            r.backend.extra@.len() == 0,
            backend_info_wf(r.backend),
            r.realm.name@ == Seq::<char>::empty(),
            !r.realm.enabled,
            r.realm.native@ == Json::Null,
            r.clients@.len() == 0,
            r.client_scopes@.len() == 0,
            r.groups@.len() == 0,
            r.roles@.len() == 0,
            r.users@.len() == 0,
            r.credentials@.len() == 0,
            r.protocol_mappers@.len() == 0,
            r.auth_flows@.len() == 0,
            r.identity_providers@.len() == 0,
            r.volatile@.len() == 0,
    {
        CanonicalRealm {
            backend: BackendInfo::default(),
            realm: Realm::default(),
            clients: Vec::new(),
            client_scopes: Vec::new(),
            groups: Vec::new(),
            roles: Vec::new(),
            users: Vec::new(),
            credentials: Vec::new(),
            protocol_mappers: Vec::new(),
            auth_flows: Vec::new(),
            identity_providers: Vec::new(),
            volatile: VolatileSection::new(),
        }
    }
}

} // verus!
