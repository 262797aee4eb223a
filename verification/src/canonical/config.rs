//! The config-portion split: everything except the volatile section.

use vstd::prelude::*;

use crate::canonical::writer::{canonical, canonical_bytes};
use crate::canonical::hash::sha256_digest;
use crate::error::Result;
use crate::model::envelope::{CanonicalRealm, config_json};

verus! {

/// The deterministic bytes of a realm's **config** portion only — everything
/// except the volatile section. Content hashes cover exactly this.
///
/// Routes through the canonical writer, so object keys are explicitly sorted
/// whatever order the members were built in.
pub fn config_bytes(realm: &CanonicalRealm) -> (r: Result<Vec<u8>>)
    ensures
        r matches Ok(b) && b@ == canonical(config_json(*realm)),
{
    let staged = realm.config_to_json();
    canonical_bytes(&staged)
}

/// The config portion does not depend on the volatile section: two
/// extractions that agree on every field but `volatile` have the same config
/// JSON, hence the same config bytes and the same content hash.
pub proof fn lemma_config_ignores_volatile(a: CanonicalRealm, b: CanonicalRealm)
    requires
        a.backend == b.backend,
        a.realm == b.realm,
        a.clients@ == b.clients@,
        a.client_scopes@ == b.client_scopes@,
        a.groups@ == b.groups@,
        a.roles@ == b.roles@,
        a.users@ == b.users@,
        a.credentials@ == b.credentials@,
        a.protocol_mappers@ == b.protocol_mappers@,
        a.auth_flows@ == b.auth_flows@,
        a.identity_providers@ == b.identity_providers@,
    ensures
        config_json(a) == config_json(b),
        canonical(config_json(a)) == canonical(config_json(b)),
        sha256_digest(canonical(config_json(a))) == sha256_digest(canonical(config_json(b))),
{
}

} // verus!
