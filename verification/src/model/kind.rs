//! The vocabulary of canonical entity kinds.

use vstd::prelude::*;

verus! {

/// The kinds of entity the canonical model can represent.
///
/// This is the fixed vocabulary the completeness manifests and the volatile
/// section are keyed on; kinds are ordered as they are listed here.
#[derive(Debug, Clone, Copy, PartialEq, Eq, Structural, PartialOrd, Ord, Hash)]
pub enum EntityKind {
    /// A realm: the top-level configuration container.
    Realm,
    /// An OAuth/OIDC or SAML client (or "application").
    Client,
    /// A reusable bundle of provider configuration.
    ClientScope,
    /// A group.
    Group,
    /// A role.
    Role,
    /// A user account.
    User,
    /// A credential record owned by a user.
    Credential,
    /// A protocol mapper.
    ProtocolMapper,
    /// An authentication flow.
    AuthFlow,
    /// An external identity provider.
    IdentityProvider,
}

/// The position of a kind in the vocabulary; kinds are ordered by it.
pub open spec fn kind_rank(k: EntityKind) -> nat {
    match k {
        EntityKind::Realm => 0,
        EntityKind::Client => 1,
        EntityKind::ClientScope => 2,
        EntityKind::Group => 3,
        EntityKind::Role => 4,
        EntityKind::User => 5,
        EntityKind::Credential => 6,
        EntityKind::ProtocolMapper => 7,
        EntityKind::AuthFlow => 8,
        EntityKind::IdentityProvider => 9,
    }
}

/// The common field holding a kind's row identity: `name` for a realm,
/// `id` for every other kind.
pub open spec fn id_field_spec(k: EntityKind) -> Seq<char> {
    match k {
        EntityKind::Realm => "name"@,
        _ => "id"@,
    }
}

/// The human-facing identity key each kind carries in common.
pub open spec fn identity_key_spec(k: EntityKind) -> Seq<char> {
    match k {
        EntityKind::Realm => "name"@,
        EntityKind::Client => "client_id"@,
        EntityKind::ClientScope => "name"@,
        EntityKind::Group => "name"@,
        EntityKind::Role => "id"@,
        EntityKind::User => "username"@,
        EntityKind::Credential => "type"@,
        EntityKind::ProtocolMapper => "name"@,
        EntityKind::AuthFlow => "alias"@,
        EntityKind::IdentityProvider => "alias"@,
    }
}

/// The human-readable label of a kind, used in messages.
pub open spec fn label_spec(k: EntityKind) -> Seq<char> {
    match k {
        EntityKind::Realm => "realm"@,
        EntityKind::Client => "client"@,
        EntityKind::ClientScope => "client scope"@,
        EntityKind::Group => "group"@,
        EntityKind::Role => "role"@,
        EntityKind::User => "user"@,
        EntityKind::Credential => "credential"@,
        EntityKind::ProtocolMapper => "protocol mapper"@,
        EntityKind::AuthFlow => "auth flow"@,
        EntityKind::IdentityProvider => "identity provider"@,
    }
}

/// The serialized (snake case) name of a kind.
pub open spec fn snake_name_spec(k: EntityKind) -> Seq<char> {
    match k {
        EntityKind::Realm => "realm"@,
        EntityKind::Client => "client"@,
        EntityKind::ClientScope => "client_scope"@,
        EntityKind::Group => "group"@,
        EntityKind::Role => "role"@,
        EntityKind::User => "user"@,
        EntityKind::Credential => "credential"@,
        EntityKind::ProtocolMapper => "protocol_mapper"@,
        EntityKind::AuthFlow => "auth_flow"@,
        EntityKind::IdentityProvider => "identity_provider"@,
    }
}

impl EntityKind {
    /// The common field that holds this entity's row identity key.
    ///
    /// Used by the completeness verifier to key volatile records. `Realm` is
    /// identified by its `name`; every other entity by its `id`.
    pub fn id_field(self) -> (r: &'static str)
        ensures
            r@ == id_field_spec(self),
    {
        match self {
            EntityKind::Realm => "name",
            _ => "id",
        }
    }

    /// The human-facing identity key this entity carries in common.
    pub fn identity_key(self) -> (r: &'static str)
        ensures
            r@ == identity_key_spec(self),
    {
        match self {
            EntityKind::Realm => "name",
            EntityKind::Client => "client_id",
            EntityKind::ClientScope => "name",
            EntityKind::Group => "name",
            EntityKind::Role => "id",
            EntityKind::User => "username",
            EntityKind::Credential => "type",
            EntityKind::ProtocolMapper => "name",
            EntityKind::AuthFlow => "alias",
            EntityKind::IdentityProvider => "alias",
        }
    }

    /// The kind's position in the vocabulary.
    pub fn rank(self) -> (r: u8)
        ensures
            r == kind_rank(self),
    {
        match self {
            EntityKind::Realm => 0,
            EntityKind::Client => 1,
            EntityKind::ClientScope => 2,
            EntityKind::Group => 3,
            EntityKind::Role => 4,
            EntityKind::User => 5,
            EntityKind::Credential => 6,
            EntityKind::ProtocolMapper => 7,
            EntityKind::AuthFlow => 8,
            EntityKind::IdentityProvider => 9,
        }
    }

    /// The kind's serialized name, in snake case.
    pub fn snake_name(self) -> (r: &'static str)
        ensures
            r@ == snake_name_spec(self),
    {
        match self {
            EntityKind::Realm => "realm",
            EntityKind::Client => "client",
            EntityKind::ClientScope => "client_scope",
            EntityKind::Group => "group",
            EntityKind::Role => "role",
            EntityKind::User => "user",
            EntityKind::Credential => "credential",
            EntityKind::ProtocolMapper => "protocol_mapper",
            EntityKind::AuthFlow => "auth_flow",
            EntityKind::IdentityProvider => "identity_provider",
        }
    }
}

/// A human-readable label for an entity kind.
pub fn entity_label(entity: EntityKind) -> (r: &'static str)
    ensures
        r@ == label_spec(entity),
{
    match entity {
        EntityKind::Realm => "realm",
        EntityKind::Client => "client",
        EntityKind::ClientScope => "client scope",
        EntityKind::Group => "group",
        EntityKind::Role => "role",
        EntityKind::User => "user",
        EntityKind::Credential => "credential",
        EntityKind::ProtocolMapper => "protocol mapper",
        EntityKind::AuthFlow => "auth flow",
        EntityKind::IdentityProvider => "identity provider",
    }
}

} // verus!
