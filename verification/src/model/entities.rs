//! The canonical entity structs and their JSON form.
//!
//! Each entity serializes as an object whose members are its fields, in
//! declaration order, with `native` carried as it is.

use vstd::prelude::*;
use vstd::string::*;

use crate::json::{Json, JsonValue, members_view, lemma_members_view};

verus! {

/// An entity row of the canonical model: it has a row identity and a JSON
/// form, which is what manifest paths are resolved against.
pub trait CanonicalRow {
    /// The row's identity: its `id`, or its `name` for a realm.
    spec fn row_key(&self) -> Seq<char>;

    /// The row's JSON form.
    spec fn row_view(&self) -> Json;

    /// The row's identity.
    fn row_id(&self) -> (r: String)
        ensures
            r@ == self.row_key(),
    ;

    /// The row's JSON form.
    fn to_json(&self) -> (r: JsonValue)
        ensures
            r@ == self.row_view(),
    ;
}

/// A JSON object from its members.
fn object(members: Vec<(String, JsonValue)>) -> (r: JsonValue)
    ensures
        r@ == Json::Object(members_view(members@)),
{
    proof {
        lemma_members_view(members@);
    }
    JsonValue::Object(members)
}

/// A member `(key, value)`.
fn member(key: &str, value: JsonValue) -> (r: (String, JsonValue))
    ensures
        r.0@ == key@,
        r.1@ == value@,
{
    (String::from_str(key), value)
}
/// A realm: the top-level configuration container.
#[derive(Debug, Clone, PartialEq)]
pub struct Realm {
    /// The realm's identity key: its name.
    pub name: String,
    /// Whether the realm is active.
    pub enabled: bool,
    /// Backend-faithful representation of this realm and its settings.
    pub native: JsonValue,
}

/// The JSON form of a realm.
pub open spec fn realm_view(x: Realm) -> Json {
    Json::Object(seq![
        ("name"@, Json::Str(x.name@)),
        ("enabled"@, Json::Bool(x.enabled)),
        ("native"@, x.native@),
    ])
}

impl CanonicalRow for Realm {
    open spec fn row_key(&self) -> Seq<char> {
        self.name@
    }

    open spec fn row_view(&self) -> Json {
        realm_view(*self)
    }

    fn row_id(&self) -> (r: String) {
        self.name.clone()
    }

    fn to_json(&self) -> (r: JsonValue) {
        let mut members: Vec<(String, JsonValue)> = Vec::new();
        members.push(member("name", JsonValue::String(self.name.clone())));
        members.push(member("enabled", JsonValue::Bool(self.enabled)));
        members.push(member("native", self.native.clone()));
        let r = object(members);
        proof {
            lemma_members_view(members@);
            assert(members_view(members@) =~= match realm_view(*self) {
                Json::Object(m) => m,
                _ => Seq::empty(),
            });
        }
        r
    }
}

impl Default for Realm {
    fn default() -> (r: Self)
        ensures
            r.name@ == Seq::<char>::empty(),
            r.enabled == false,
            r.native@ == Json::Null,
    {
        Realm { name: String::new(), enabled: false, native: JsonValue::Null }
    }
}

/// A client (application).
#[derive(Debug, Clone, PartialEq)]
pub struct Client {
    /// Stable internal identifier — the sort key for deterministic output.
    pub id: String,
    /// The public client identifier — the cross-backend identity key.
    pub client_id: String,
    /// Whether the client is active.
    pub enabled: bool,
    /// Backend-faithful representation, including protocol, secrets and any
    /// field the canonical model has not formalized.
    pub native: JsonValue,
}

/// The JSON form of a client.
pub open spec fn client_view(x: Client) -> Json {
    Json::Object(seq![
        ("id"@, Json::Str(x.id@)),
        ("client_id"@, Json::Str(x.client_id@)),
        ("enabled"@, Json::Bool(x.enabled)),
        ("native"@, x.native@),
    ])
}

impl CanonicalRow for Client {
    open spec fn row_key(&self) -> Seq<char> {
        self.id@
    }

    open spec fn row_view(&self) -> Json {
        client_view(*self)
    }

    fn row_id(&self) -> (r: String) {
        self.id.clone()
    }

    fn to_json(&self) -> (r: JsonValue) {
        let mut members: Vec<(String, JsonValue)> = Vec::new();
        members.push(member("id", JsonValue::String(self.id.clone())));
        members.push(member("client_id", JsonValue::String(self.client_id.clone())));
        members.push(member("enabled", JsonValue::Bool(self.enabled)));
        members.push(member("native", self.native.clone()));
        let r = object(members);
        proof {
            lemma_members_view(members@);
            assert(members_view(members@) =~= match client_view(*self) {
                Json::Object(m) => m,
                _ => Seq::empty(),
            });
        }
        r
    }
}

impl Default for Client {
    fn default() -> (r: Self)
        ensures
            r.id@ == Seq::<char>::empty(),
            r.client_id@ == Seq::<char>::empty(),
            r.enabled == false,
            r.native@ == Json::Null,
    {
        Client { id: String::new(), client_id: String::new(), enabled: false, native: JsonValue::Null }
    }
}

/// A reusable bundle of provider configuration.
#[derive(Debug, Clone, PartialEq)]
pub struct ClientScope {
    /// Stable internal identifier — the sort key for deterministic output.
    pub id: String,
    /// The scope's name — its identity key.
    pub name: String,
    /// Backend-faithful representation.
    pub native: JsonValue,
}

/// The JSON form of a client scope.
pub open spec fn client_scope_view(x: ClientScope) -> Json {
    Json::Object(seq![
        ("id"@, Json::Str(x.id@)),
        ("name"@, Json::Str(x.name@)),
        ("native"@, x.native@),
    ])
}

impl CanonicalRow for ClientScope {
    open spec fn row_key(&self) -> Seq<char> {
        self.id@
    }

    open spec fn row_view(&self) -> Json {
        client_scope_view(*self)
    }

    fn row_id(&self) -> (r: String) {
        self.id.clone()
    }

    fn to_json(&self) -> (r: JsonValue) {
        let mut members: Vec<(String, JsonValue)> = Vec::new();
        members.push(member("id", JsonValue::String(self.id.clone())));
        members.push(member("name", JsonValue::String(self.name.clone())));
        members.push(member("native", self.native.clone()));
        let r = object(members);
        proof {
            lemma_members_view(members@);
            assert(members_view(members@) =~= match client_scope_view(*self) {
                Json::Object(m) => m,
                _ => Seq::empty(),
            });
        }
        r
    }
}

impl Default for ClientScope {
    fn default() -> (r: Self)
        ensures
            r.id@ == Seq::<char>::empty(),
            r.name@ == Seq::<char>::empty(),
            r.native@ == Json::Null,
    {
        ClientScope { id: String::new(), name: String::new(), native: JsonValue::Null }
    }
}

/// A group.
#[derive(Debug, Clone, PartialEq)]
pub struct Group {
    /// Stable internal identifier — the sort key for deterministic output.
    pub id: String,
    /// The group's path/name — its identity key.
    pub name: String,
    /// Backend-faithful representation.
    pub native: JsonValue,
}

/// The JSON form of a group.
pub open spec fn group_view(x: Group) -> Json {
    Json::Object(seq![
        ("id"@, Json::Str(x.id@)),
        ("name"@, Json::Str(x.name@)),
        ("native"@, x.native@),
    ])
}

impl CanonicalRow for Group {
    open spec fn row_key(&self) -> Seq<char> {
        self.id@
    }

    open spec fn row_view(&self) -> Json {
        group_view(*self)
    }

    fn row_id(&self) -> (r: String) {
        self.id.clone()
    }

    fn to_json(&self) -> (r: JsonValue) {
        let mut members: Vec<(String, JsonValue)> = Vec::new();
        members.push(member("id", JsonValue::String(self.id.clone())));
        members.push(member("name", JsonValue::String(self.name.clone())));
        members.push(member("native", self.native.clone()));
        let r = object(members);
        proof {
            lemma_members_view(members@);
            assert(members_view(members@) =~= match group_view(*self) {
                Json::Object(m) => m,
                _ => Seq::empty(),
            });
        }
        r
    }
}

impl Default for Group {
    fn default() -> (r: Self)
        ensures
            r.id@ == Seq::<char>::empty(),
            r.name@ == Seq::<char>::empty(),
            r.native@ == Json::Null,
    {
        Group { id: String::new(), name: String::new(), native: JsonValue::Null }
    }
}

/// A role.
#[derive(Debug, Clone, PartialEq)]
pub struct Role {
    /// Stable internal identifier — the sort key for deterministic output and
    /// the identity key where the backend has no separate human-facing name.
    pub id: String,
    /// The role's name.
    pub name: String,
    /// Backend-faithful representation.
    pub native: JsonValue,
}

/// The JSON form of a role.
pub open spec fn role_view(x: Role) -> Json {
    Json::Object(seq![
        ("id"@, Json::Str(x.id@)),
        ("name"@, Json::Str(x.name@)),
        ("native"@, x.native@),
    ])
}

impl CanonicalRow for Role {
    open spec fn row_key(&self) -> Seq<char> {
        self.id@
    }

    open spec fn row_view(&self) -> Json {
        role_view(*self)
    }

    fn row_id(&self) -> (r: String) {
        self.id.clone()
    }

    fn to_json(&self) -> (r: JsonValue) {
        let mut members: Vec<(String, JsonValue)> = Vec::new();
        members.push(member("id", JsonValue::String(self.id.clone())));
        members.push(member("name", JsonValue::String(self.name.clone())));
        members.push(member("native", self.native.clone()));
        let r = object(members);
        proof {
            lemma_members_view(members@);
            assert(members_view(members@) =~= match role_view(*self) {
                Json::Object(m) => m,
                _ => Seq::empty(),
            });
        }
        r
    }
}

impl Default for Role {
    fn default() -> (r: Self)
        ensures
            r.id@ == Seq::<char>::empty(),
            r.name@ == Seq::<char>::empty(),
            r.native@ == Json::Null,
    {
        Role { id: String::new(), name: String::new(), native: JsonValue::Null }
    }
}

/// A user account.
#[derive(Debug, Clone, PartialEq)]
pub struct User {
    /// Stable internal identifier — the sort key for deterministic output.
    pub id: String,
    /// The username — the cross-backend identity key.
    pub username: String,
    /// Whether the user is active.
    pub enabled: bool,
    /// Backend-faithful representation.
    pub native: JsonValue,
}

/// The JSON form of a user.
pub open spec fn user_view(x: User) -> Json {
    Json::Object(seq![
        ("id"@, Json::Str(x.id@)),
        ("username"@, Json::Str(x.username@)),
        ("enabled"@, Json::Bool(x.enabled)),
        ("native"@, x.native@),
    ])
}

impl CanonicalRow for User {
    open spec fn row_key(&self) -> Seq<char> {
        self.id@
    }

    open spec fn row_view(&self) -> Json {
        user_view(*self)
    }

    fn row_id(&self) -> (r: String) {
        self.id.clone()
    }

    fn to_json(&self) -> (r: JsonValue) {
        let mut members: Vec<(String, JsonValue)> = Vec::new();
        members.push(member("id", JsonValue::String(self.id.clone())));
        members.push(member("username", JsonValue::String(self.username.clone())));
        members.push(member("enabled", JsonValue::Bool(self.enabled)));
        members.push(member("native", self.native.clone()));
        let r = object(members);
        proof {
            lemma_members_view(members@);
            assert(members_view(members@) =~= match user_view(*self) {
                Json::Object(m) => m,
                _ => Seq::empty(),
            });
        }
        r
    }
}

impl Default for User {
    fn default() -> (r: Self)
        ensures
            r.id@ == Seq::<char>::empty(),
            r.username@ == Seq::<char>::empty(),
            r.enabled == false,
            r.native@ == Json::Null,
    {
        User { id: String::new(), username: String::new(), enabled: false, native: JsonValue::Null }
    }
}

/// A credential record owned by a user.
#[derive(Debug, Clone, PartialEq)]
pub struct Credential {
    /// Stable internal identifier — the sort key for deterministic output.
    pub id: String,
    /// The credential type (e.g. `password`, `otp`) — its identity key.
    pub credential_type: String,
    /// Backend-faithful representation. Credential hashes deliberately
    /// mirror the backend's stored form; extraction must never mask them.
    pub native: JsonValue,
}

/// The JSON form of a credential.
pub open spec fn credential_view(x: Credential) -> Json {
    Json::Object(seq![
        ("id"@, Json::Str(x.id@)),
        ("type"@, Json::Str(x.credential_type@)),
        ("native"@, x.native@),
    ])
}

impl CanonicalRow for Credential {
    open spec fn row_key(&self) -> Seq<char> {
        self.id@
    }

    open spec fn row_view(&self) -> Json {
        credential_view(*self)
    }

    fn row_id(&self) -> (r: String) {
        self.id.clone()
    }

    fn to_json(&self) -> (r: JsonValue) {
        let mut members: Vec<(String, JsonValue)> = Vec::new();
        members.push(member("id", JsonValue::String(self.id.clone())));
        members.push(member("type", JsonValue::String(self.credential_type.clone())));
        members.push(member("native", self.native.clone()));
        let r = object(members);
        proof {
            lemma_members_view(members@);
            assert(members_view(members@) =~= match credential_view(*self) {
                Json::Object(m) => m,
                _ => Seq::empty(),
            });
        }
        r
    }
}

impl Default for Credential {
    fn default() -> (r: Self)
        ensures
            r.id@ == Seq::<char>::empty(),
            r.credential_type@ == Seq::<char>::empty(),
            r.native@ == Json::Null,
    {
        Credential { id: String::new(), credential_type: String::new(), native: JsonValue::Null }
    }
}

/// A protocol mapper.
#[derive(Debug, Clone, PartialEq)]
pub struct ProtocolMapper {
    /// Stable internal identifier — the sort key for deterministic output.
    pub id: String,
    /// The mapper's name — its identity key.
    pub name: String,
    /// Backend-faithful representation.
    pub native: JsonValue,
}

/// The JSON form of a protocol mapper.
pub open spec fn protocol_mapper_view(x: ProtocolMapper) -> Json {
    Json::Object(seq![
        ("id"@, Json::Str(x.id@)),
        ("name"@, Json::Str(x.name@)),
        ("native"@, x.native@),
    ])
}

impl CanonicalRow for ProtocolMapper {
    open spec fn row_key(&self) -> Seq<char> {
        self.id@
    }

    open spec fn row_view(&self) -> Json {
        protocol_mapper_view(*self)
    }

    fn row_id(&self) -> (r: String) {
        self.id.clone()
    }

    fn to_json(&self) -> (r: JsonValue) {
        let mut members: Vec<(String, JsonValue)> = Vec::new();
        members.push(member("id", JsonValue::String(self.id.clone())));
        members.push(member("name", JsonValue::String(self.name.clone())));
        members.push(member("native", self.native.clone()));
        let r = object(members);
        proof {
            lemma_members_view(members@);
            assert(members_view(members@) =~= match protocol_mapper_view(*self) {
                Json::Object(m) => m,
                _ => Seq::empty(),
            });
        }
        r
    }
}

impl Default for ProtocolMapper {
    fn default() -> (r: Self)
        ensures
            r.id@ == Seq::<char>::empty(),
            r.name@ == Seq::<char>::empty(),
            r.native@ == Json::Null,
    {
        ProtocolMapper { id: String::new(), name: String::new(), native: JsonValue::Null }
    }
}

/// An authentication flow.
#[derive(Debug, Clone, PartialEq)]
pub struct AuthFlow {
    /// Stable internal identifier — the sort key for deterministic output.
    pub id: String,
    /// The flow's alias — its identity key.
    pub alias: String,
    /// Backend-faithful representation. Execution-step ordering is
    /// meaningful and must be preserved as-is, not re-sorted.
    pub native: JsonValue,
}

/// The JSON form of a auth flow.
pub open spec fn auth_flow_view(x: AuthFlow) -> Json {
    Json::Object(seq![
        ("id"@, Json::Str(x.id@)),
        ("alias"@, Json::Str(x.alias@)),
        ("native"@, x.native@),
    ])
}

impl CanonicalRow for AuthFlow {
    open spec fn row_key(&self) -> Seq<char> {
        self.id@
    }

    open spec fn row_view(&self) -> Json {
        auth_flow_view(*self)
    }

    fn row_id(&self) -> (r: String) {
        self.id.clone()
    }

    fn to_json(&self) -> (r: JsonValue) {
        let mut members: Vec<(String, JsonValue)> = Vec::new();
        members.push(member("id", JsonValue::String(self.id.clone())));
        members.push(member("alias", JsonValue::String(self.alias.clone())));
        members.push(member("native", self.native.clone()));
        let r = object(members);
        proof {
            lemma_members_view(members@);
            assert(members_view(members@) =~= match auth_flow_view(*self) {
                Json::Object(m) => m,
                _ => Seq::empty(),
            });
        }
        r
    }
}

impl Default for AuthFlow {
    fn default() -> (r: Self)
        ensures
            r.id@ == Seq::<char>::empty(),
            r.alias@ == Seq::<char>::empty(),
            r.native@ == Json::Null,
    {
        AuthFlow { id: String::new(), alias: String::new(), native: JsonValue::Null }
    }
}

/// An external identity provider.
#[derive(Debug, Clone, PartialEq)]
pub struct IdentityProvider {
    /// Stable internal identifier — the sort key for deterministic output.
    pub id: String,
    /// The provider's alias — its identity key.
    pub alias: String,
    /// Backend-faithful representation.
    pub native: JsonValue,
}

/// The JSON form of a identity provider.
pub open spec fn identity_provider_view(x: IdentityProvider) -> Json {
    Json::Object(seq![
        ("id"@, Json::Str(x.id@)),
        ("alias"@, Json::Str(x.alias@)),
        ("native"@, x.native@),
    ])
}

impl CanonicalRow for IdentityProvider {
    open spec fn row_key(&self) -> Seq<char> {
        self.id@
    }

    open spec fn row_view(&self) -> Json {
        identity_provider_view(*self)
    }

    fn row_id(&self) -> (r: String) {
        self.id.clone()
    }

    fn to_json(&self) -> (r: JsonValue) {
        let mut members: Vec<(String, JsonValue)> = Vec::new();
        members.push(member("id", JsonValue::String(self.id.clone())));
        members.push(member("alias", JsonValue::String(self.alias.clone())));
        members.push(member("native", self.native.clone()));
        let r = object(members);
        proof {
            lemma_members_view(members@);
            assert(members_view(members@) =~= match identity_provider_view(*self) {
                Json::Object(m) => m,
                _ => Seq::empty(),
            });
        }
        r
    }
}

impl Default for IdentityProvider {
    fn default() -> (r: Self)
        ensures
            r.id@ == Seq::<char>::empty(),
            r.alias@ == Seq::<char>::empty(),
            r.native@ == Json::Null,
    {
        IdentityProvider { id: String::new(), alias: String::new(), native: JsonValue::Null }
    }
}

/// The JSON form of a realm carries every field: two with the same JSON
/// form have the same name, enabled, native.
pub proof fn lemma_realm_view_injective(a: Realm, b: Realm)
    requires
        realm_view(a) == realm_view(b),
    ensures
        a.name@ == b.name@,
        a.enabled == b.enabled,
        a.native@ == b.native@,
{
    let ma = match realm_view(a) {
        Json::Object(m) => m,
        _ => Seq::empty(),
    };
    let mb = match realm_view(b) {
        Json::Object(m) => m,
        _ => Seq::empty(),
    };
    assert(ma == mb);
    assert(ma[0] == mb[0]);
    assert(ma[1] == mb[1]);
    assert(ma[2] == mb[2]);
}

/// The JSON form of a client carries every field: two with the same JSON
/// form have the same id, client_id, enabled, native.
pub proof fn lemma_client_view_injective(a: Client, b: Client)
    requires
        client_view(a) == client_view(b),
    ensures
        a.id@ == b.id@,
        a.client_id@ == b.client_id@,
        a.enabled == b.enabled,
        a.native@ == b.native@,
{
    let ma = match client_view(a) {
        Json::Object(m) => m,
        _ => Seq::empty(),
    };
    let mb = match client_view(b) {
        Json::Object(m) => m,
        _ => Seq::empty(),
    };
    assert(ma == mb);
    assert(ma[0] == mb[0]);
    assert(ma[1] == mb[1]);
    assert(ma[2] == mb[2]);
    assert(ma[3] == mb[3]);
}

/// The JSON form of a client scope carries every field: two with the same JSON
/// form have the same id, name, native.
pub proof fn lemma_client_scope_view_injective(a: ClientScope, b: ClientScope)
    requires
        client_scope_view(a) == client_scope_view(b),
    ensures
        a.id@ == b.id@,
        a.name@ == b.name@,
        a.native@ == b.native@,
{
    let ma = match client_scope_view(a) {
        Json::Object(m) => m,
        _ => Seq::empty(),
    };
    let mb = match client_scope_view(b) {
        Json::Object(m) => m,
        _ => Seq::empty(),
    };
    assert(ma == mb);
    assert(ma[0] == mb[0]);
    assert(ma[1] == mb[1]);
    assert(ma[2] == mb[2]);
}

/// The JSON form of a group carries every field: two with the same JSON
/// form have the same id, name, native.
pub proof fn lemma_group_view_injective(a: Group, b: Group)
    requires
        group_view(a) == group_view(b),
    ensures
        a.id@ == b.id@,
        a.name@ == b.name@,
        a.native@ == b.native@,
{
    let ma = match group_view(a) {
        Json::Object(m) => m,
        _ => Seq::empty(),
    };
    let mb = match group_view(b) {
        Json::Object(m) => m,
        _ => Seq::empty(),
    };
    assert(ma == mb);
    assert(ma[0] == mb[0]);
    assert(ma[1] == mb[1]);
    assert(ma[2] == mb[2]);
}

/// The JSON form of a role carries every field: two with the same JSON
/// form have the same id, name, native.
pub proof fn lemma_role_view_injective(a: Role, b: Role)
    requires
        role_view(a) == role_view(b),
    ensures
        a.id@ == b.id@,
        a.name@ == b.name@,
        a.native@ == b.native@,
{
    let ma = match role_view(a) {
        Json::Object(m) => m,
        _ => Seq::empty(),
    };
    let mb = match role_view(b) {
        Json::Object(m) => m,
        _ => Seq::empty(),
    };
    assert(ma == mb);
    assert(ma[0] == mb[0]);
    assert(ma[1] == mb[1]);
    assert(ma[2] == mb[2]);
}

/// The JSON form of a user carries every field: two with the same JSON
/// form have the same id, username, enabled, native.
pub proof fn lemma_user_view_injective(a: User, b: User)
    requires
        user_view(a) == user_view(b),
    ensures
        a.id@ == b.id@,
        a.username@ == b.username@,
        a.enabled == b.enabled,
        a.native@ == b.native@,
{
    let ma = match user_view(a) {
        Json::Object(m) => m,
        _ => Seq::empty(),
    };
    let mb = match user_view(b) {
        Json::Object(m) => m,
        _ => Seq::empty(),
    };
    assert(ma == mb);
    assert(ma[0] == mb[0]);
    assert(ma[1] == mb[1]);
    assert(ma[2] == mb[2]);
    assert(ma[3] == mb[3]);
}

/// The JSON form of a credential carries every field: two with the same JSON
/// form have the same id, credential_type, native.
pub proof fn lemma_credential_view_injective(a: Credential, b: Credential)
    requires
        credential_view(a) == credential_view(b),
    ensures
        a.id@ == b.id@,
        a.credential_type@ == b.credential_type@,
        a.native@ == b.native@,
{
    let ma = match credential_view(a) {
        Json::Object(m) => m,
        _ => Seq::empty(),
    };
    let mb = match credential_view(b) {
        Json::Object(m) => m,
        _ => Seq::empty(),
    };
    assert(ma == mb);
    assert(ma[0] == mb[0]);
    assert(ma[1] == mb[1]);
    assert(ma[2] == mb[2]);
}

/// The JSON form of a protocol mapper carries every field: two with the same JSON
/// form have the same id, name, native.
pub proof fn lemma_protocol_mapper_view_injective(a: ProtocolMapper, b: ProtocolMapper)
    requires
        protocol_mapper_view(a) == protocol_mapper_view(b),
    ensures
        a.id@ == b.id@,
        a.name@ == b.name@,
        a.native@ == b.native@,
{
    let ma = match protocol_mapper_view(a) {
        Json::Object(m) => m,
        _ => Seq::empty(),
    };
    let mb = match protocol_mapper_view(b) {
        Json::Object(m) => m,
        _ => Seq::empty(),
    };
    assert(ma == mb);
    assert(ma[0] == mb[0]);
    assert(ma[1] == mb[1]);
    assert(ma[2] == mb[2]);
}

/// The JSON form of an authentication flow carries every field: two with the same JSON
/// form have the same id, alias, native.
pub proof fn lemma_auth_flow_view_injective(a: AuthFlow, b: AuthFlow)
    requires
        auth_flow_view(a) == auth_flow_view(b),
    ensures
        a.id@ == b.id@,
        a.alias@ == b.alias@,
        a.native@ == b.native@,
{
    let ma = match auth_flow_view(a) {
        Json::Object(m) => m,
        _ => Seq::empty(),
    };
    let mb = match auth_flow_view(b) {
        Json::Object(m) => m,
        _ => Seq::empty(),
    };
    assert(ma == mb);
    assert(ma[0] == mb[0]);
    assert(ma[1] == mb[1]);
    assert(ma[2] == mb[2]);
}

/// The JSON form of an identity provider carries every field: two with the same JSON
/// form have the same id, alias, native.
pub proof fn lemma_identity_provider_view_injective(a: IdentityProvider, b: IdentityProvider)
    requires
        identity_provider_view(a) == identity_provider_view(b),
    ensures
        a.id@ == b.id@,
        a.alias@ == b.alias@,
        a.native@ == b.native@,
{
    let ma = match identity_provider_view(a) {
        Json::Object(m) => m,
        _ => Seq::empty(),
    };
    let mb = match identity_provider_view(b) {
        Json::Object(m) => m,
        _ => Seq::empty(),
    };
    assert(ma == mb);
    assert(ma[0] == mb[0]);
    assert(ma[1] == mb[1]);
    assert(ma[2] == mb[2]);
}

} // verus!
