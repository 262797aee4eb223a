//! The expected-configuration data shapes: [`EntityExpectation`],
//! [`EntityPresence`], [`FieldExpectation`] and [`FieldManifest`].

use vstd::prelude::*;
use vstd::string::*;

use crate::error::{Error, Result};
use crate::model::kind::{EntityKind, entity_label, label_spec};
use crate::text::{chars_of, decimal, decimal_string, trim, trim_chars};
use crate::version::{Version, version_text};

verus! {

/// Whether an entity *type* is expected to have at least one row.
///
/// A freshly created realm with zero users (or zero identity providers) is a
/// valid, complete state — only `Required` entities must have rows.
#[derive(Debug, Clone, Copy, PartialEq, Eq, Structural)]
pub enum EntityPresence {
    /// At least one row of this entity must exist.
    Required,
    /// Zero rows is a valid, complete state.
    Optional,
}

/// A declaration about how many rows an entity type must have.
#[derive(Debug, Clone, Copy, PartialEq, Eq, Structural)]
pub struct EntityExpectation {
    /// The entity kind this expectation covers.
    pub entity: EntityKind,
    /// Whether at least one row is required.
    pub presence: EntityPresence,
}

impl EntityExpectation {
    /// Declare that an entity type must (or must not) have rows.
    pub fn new(entity: EntityKind, presence: EntityPresence) -> (r: Self)
        ensures
            r == (EntityExpectation { entity, presence }),
    {
        EntityExpectation { entity, presence }
    }
}

/// A single expected field, keyed to one entity kind.
#[derive(Debug, Clone, PartialEq, Eq)]
pub struct FieldExpectation {
    /// The entity kind whose rows must carry this path.
    pub entity: EntityKind,
    /// Dotted path relative to the canonical row — e.g. `client_id`, or
    /// `native.alternativeNames[]` for an array-valued native field. Array
    /// segments end in `[]`.
    pub path: String,
    /// When `true`, every *existing* row of `entity` must carry `path`.
    /// When `false`, the field is complete if at least one row carries it.
    pub required: bool,
    /// When `true`, the field is volatile — session/last-login style data
    /// that changes between runs. It must be reported in the volatile
    /// section, never in the config body, and never in the content hash.
    pub volatile: bool,
    /// The backend schema version that introduced the field.
    pub introduced_in: Version,
}

/// The complete expected configuration state for one backend version.
#[derive(Debug, Clone, PartialEq, Eq)]
pub struct FieldManifest {
    /// Backend this manifest describes, e.g. `"keycloak"`.
    pub backend: String,
    /// The backend schema version these expectations were derived from.
    pub for_version: Version,
    /// Entity-type presence requirements.
    pub entities: Vec<EntityExpectation>,
    /// Field-level expectations, including volatility.
    pub fields: Vec<FieldExpectation>,
}

/// What is wrong with the `i`-th field expectation, given the ones before
/// it: an empty (or blank) path, or an entity and path already expected.
pub open spec fn field_problem(fields: Seq<FieldExpectation>, i: int) -> Option<Seq<char>> {
    let fe = fields[i];
    if trim(fe.path@).len() == 0 {
        Some("empty field path for entity "@ + label_spec(fe.entity))
    } else if exists|j: int| 0 <= j < i && (#[trigger] fields[j]).entity == fe.entity && fields[j].path@ == fe.path@ {
        Some("duplicate field expectation "@ + fe.path@ + " for entity "@ + label_spec(fe.entity))
    } else {
        None
    }
}

/// The first problem among the first `n` field expectations.
pub open spec fn first_field_problem(fields: Seq<FieldExpectation>, n: int) -> Option<Seq<char>>
    decreases n,
{
    if n <= 0 {
        None
    } else {
        match first_field_problem(fields, n - 1) {
            Some(p) => Some(p),
            None => field_problem(fields, n - 1),
        }
    }
}

proof fn lemma_first_field_problem(fields: Seq<FieldExpectation>, i: int, n: int)
    requires
        0 <= i < n,
        first_field_problem(fields, i) is None,
        field_problem(fields, i) is Some,
    ensures
        first_field_problem(fields, n) == field_problem(fields, i),
    decreases n,
{
    if n > i + 1 {
        lemma_first_field_problem(fields, i, n - 1);
    }
}

proof fn lemma_first_entity_problem(entities: Seq<EntityExpectation>, i: int, n: int)
    requires
        0 <= i < n,
        first_entity_problem(entities, i) is None,
        entity_problem(entities, i) is Some,
    ensures
        first_entity_problem(entities, n) == entity_problem(entities, i),
    decreases n,
{
    if n > i + 1 {
        lemma_first_entity_problem(entities, i, n - 1);
    }
}

proof fn lemma_first_field_problem_none(fields: Seq<FieldExpectation>, n: int)
    requires
        0 <= n,
    ensures
        first_field_problem(fields, n) is None <==> forall|i: int| 0 <= i < n ==> #[trigger] field_problem(fields, i) is None,
    decreases n,
{
    if n > 0 {
        lemma_first_field_problem_none(fields, n - 1);
        if first_field_problem(fields, n) is None {
            assert forall|i: int| 0 <= i < n implies #[trigger] field_problem(fields, i) is None by {
                if i < n - 1 {
                    assert(first_field_problem(fields, n - 1) is None);
                }
            }
        }
    }
}

proof fn lemma_first_entity_problem_none(entities: Seq<EntityExpectation>, n: int)
    requires
        0 <= n,
    ensures
        first_entity_problem(entities, n) is None <==> forall|i: int| 0 <= i < n ==> #[trigger] entity_problem(entities, i) is None,
    decreases n,
{
    if n > 0 {
        lemma_first_entity_problem_none(entities, n - 1);
        if first_entity_problem(entities, n) is None {
            assert forall|i: int| 0 <= i < n implies #[trigger] entity_problem(entities, i) is None by {
                if i < n - 1 {
                    assert(first_entity_problem(entities, n - 1) is None);
                }
            }
        }
    }
}

/// A manifest is valid exactly when its backend is not blank, no field
/// path is blank, no two field expectations name the same entity and path
/// (wherever they stand in the list), no two entity expectations name the
/// same kind, and the realm is not declared optional.
pub proof fn lemma_manifest_valid_iff(m: FieldManifest)
    ensures
        manifest_valid(m) <==> {
            &&& trim(m.backend@).len() > 0
            &&& forall|i: int| 0 <= i < m.fields@.len() ==> trim((#[trigger] m.fields@[i]).path@).len() > 0
            &&& forall|i: int, j: int|
                0 <= i < j < m.fields@.len() ==> !((#[trigger] m.fields@[i]).entity == (#[trigger] m.fields@[j]).entity
                    && m.fields@[i].path@ == m.fields@[j].path@)
            &&& forall|i: int, j: int|
                0 <= i < j < m.entities@.len() ==> (#[trigger] m.entities@[i]).entity != (#[trigger] m.entities@[j]).entity
            &&& forall|i: int|
                0 <= i < m.entities@.len() ==> !((#[trigger] m.entities@[i]).entity == EntityKind::Realm
                    && m.entities@[i].presence == EntityPresence::Optional)
        },
{
    let fs = m.fields@;
    let es = m.entities@;
    lemma_first_field_problem_none(fs, fs.len() as int);
    lemma_first_entity_problem_none(es, es.len() as int);
    if manifest_valid(m) {
        assert forall|i: int| 0 <= i < fs.len() implies trim((#[trigger] fs[i]).path@).len() > 0 by {
            assert(field_problem(fs, i) is None);
        }
        assert forall|i: int, j: int|
            0 <= i < j < fs.len() implies !((#[trigger] fs[i]).entity == (#[trigger] fs[j]).entity
                && fs[i].path@ == fs[j].path@) by {
            assert(field_problem(fs, j) is None);
        }
        assert forall|i: int, j: int| 0 <= i < j < es.len() implies (#[trigger] es[i]).entity != (#[trigger] es[j]).entity by {
            assert(entity_problem(es, j) is None);
        }
    }
    if ({
        &&& trim(m.backend@).len() > 0
        &&& forall|i: int| 0 <= i < fs.len() ==> trim((#[trigger] fs[i]).path@).len() > 0
        &&& forall|i: int, j: int|
            0 <= i < j < fs.len() ==> !((#[trigger] fs[i]).entity == (#[trigger] fs[j]).entity && fs[i].path@ == fs[j].path@)
        &&& forall|i: int, j: int| 0 <= i < j < es.len() ==> (#[trigger] es[i]).entity != (#[trigger] es[j]).entity
        &&& forall|i: int|
            0 <= i < es.len() ==> !((#[trigger] es[i]).entity == EntityKind::Realm && es[i].presence == EntityPresence::Optional)
    }) {
        assert forall|i: int| 0 <= i < fs.len() implies #[trigger] field_problem(fs, i) is None by {
            assert(trim(fs[i].path@).len() > 0);
            if exists|j: int| 0 <= j < i && (#[trigger] fs[j]).entity == fs[i].entity && fs[j].path@ == fs[i].path@ {
                let j = choose|j: int| 0 <= j < i && (#[trigger] fs[j]).entity == fs[i].entity && fs[j].path@ == fs[i].path@;
                assert(!(fs[j].entity == fs[i].entity && fs[j].path@ == fs[i].path@));
            }
        }
        assert forall|i: int| 0 <= i < es.len() implies #[trigger] entity_problem(es, i) is None by {
            if exists|j: int| 0 <= j < i && (#[trigger] es[j]).entity == es[i].entity {
                let j = choose|j: int| 0 <= j < i && (#[trigger] es[j]).entity == es[i].entity;
                assert(es[j].entity != es[i].entity);
            }
        }
        assert(!realm_declared_optional(es));
    }
}

/// What is wrong with the `i`-th entity expectation, given the ones before
/// it: an entity already expected.
pub open spec fn entity_problem(entities: Seq<EntityExpectation>, i: int) -> Option<Seq<char>> {
    if exists|j: int| 0 <= j < i && (#[trigger] entities[j]).entity == entities[i].entity {
        Some("duplicate entity expectation for "@ + label_spec(entities[i].entity))
    } else {
        None
    }
}

/// The first problem among the first `n` entity expectations.
pub open spec fn first_entity_problem(entities: Seq<EntityExpectation>, n: int) -> Option<Seq<char>>
    decreases n,
{
    if n <= 0 {
        None
    } else {
        match first_entity_problem(entities, n - 1) {
            Some(p) => Some(p),
            None => entity_problem(entities, n - 1),
        }
    }
}

/// Whether the realm is declared optional.
pub open spec fn realm_declared_optional(entities: Seq<EntityExpectation>) -> bool {
    exists|i: int|
        0 <= i < entities.len() && (#[trigger] entities[i]).entity == EntityKind::Realm
            && entities[i].presence == EntityPresence::Optional
}

/// The first consistency problem of a manifest, checked in this order: a
/// blank backend, then each field expectation, then each entity
/// expectation, then an optional realm.
pub open spec fn manifest_problem(m: FieldManifest) -> Option<Seq<char>> {
    if trim(m.backend@).len() == 0 {
        Some("backend must be non-empty"@)
    } else {
        match first_field_problem(m.fields@, m.fields@.len() as int) {
            Some(p) => Some(p),
            None => match first_entity_problem(m.entities@, m.entities@.len() as int) {
                Some(p) => Some(p),
                None => if realm_declared_optional(m.entities@) {
                    Some("Realm must always be present and cannot be declared optional"@)
                } else {
                    None
                },
            },
        }
    }
}

/// A manifest that can be trusted for verification.
pub open spec fn manifest_valid(m: FieldManifest) -> bool {
    manifest_problem(m) is None
}

/// The text of a manifest description.
pub open spec fn manifest_text(m: FieldManifest) -> Seq<char> {
    "FieldManifest("@ + m.backend@ + " @ "@ + version_text(m.for_version) + ", "@ + decimal(
        m.entities@.len(),
    ) + " entities, "@ + decimal(m.fields@.len()) + " fields)"@
}

impl FieldManifest {
    /// An empty manifest for a backend version.
    pub fn new(backend: &str, for_version: Version) -> (r: Self)
        ensures
            r.backend@ == backend@,
            r.for_version == for_version,
            r.entities@.len() == 0,
            r.fields@.len() == 0,
    {
        FieldManifest {
            backend: String::from_str(backend),
            for_version,
            entities: Vec::new(),
            fields: Vec::new(),
        }
    }

    /// Check internal consistency before trusting this manifest.
    ///
    /// Rejects a blank backend, blank paths, duplicate `(entity, path)`
    /// field expectations, duplicate entity expectations, and an optional
    /// realm. The engine refuses to verify against an invalid manifest.
    #[verifier::loop_isolation(false)]
    pub fn validate(&self) -> (r: Result<()>)
        ensures
            r is Ok <==> manifest_valid(*self),
            r is Err ==> (r matches Err(Error::InvalidManifest(msg)) && manifest_problem(*self) == Some(msg@)),
    {
        let backend = trim_chars(&chars_of(self.backend.as_str()));
        if backend.len() == 0 {
            return Err(Error::InvalidManifest(String::from_str("backend must be non-empty")));
        }
        let nf = self.fields.len();
        for i in 0..nf
            invariant
                nf == self.fields@.len(),
                trim(self.backend@).len() != 0,
                first_field_problem(self.fields@, i as int) is None,
        {
            let fe = &self.fields[i];
            let path = trim_chars(&chars_of(fe.path.as_str()));
            if path.len() == 0 {
                let msg = String::from_str("empty field path for entity ").concat(entity_label(fe.entity));
                proof {
                    lemma_first_field_problem(self.fields@, i as int, nf as int);
                }
                return Err(Error::InvalidManifest(msg));
            }
            for j in 0..i
                invariant
                    nf == self.fields@.len(),
                    i < nf,
                    fe == self.fields@[i as int],
                    forall|k: int| 0 <= k < j ==> !((#[trigger] self.fields@[k]).entity == fe.entity && self.fields@[k].path@ == fe.path@),
            {
                if self.fields[j].entity == fe.entity && self.fields[j].path == fe.path {
                    let msg = String::from_str("duplicate field expectation ");
                    let msg = msg.concat(fe.path.as_str());
                    let msg = msg.concat(" for entity ");
                    let msg = msg.concat(entity_label(fe.entity));
                    proof {
                        assert(self.fields@[j as int].entity == fe.entity && self.fields@[j as int].path@ == fe.path@);
                        lemma_first_field_problem(self.fields@, i as int, nf as int);
                    }
                    return Err(Error::InvalidManifest(msg));
                }
            }
            assert(field_problem(self.fields@, i as int) is None);
        }
        let ne = self.entities.len();
        for i in 0..ne
            invariant
                ne == self.entities@.len(),
                trim(self.backend@).len() != 0,
                first_field_problem(self.fields@, self.fields@.len() as int) is None,
                first_entity_problem(self.entities@, i as int) is None,
        {
            let ee = self.entities[i];
            for j in 0..i
                invariant
                    ne == self.entities@.len(),
                    i < ne,
                    ee == self.entities@[i as int],
                    forall|k: int| 0 <= k < j ==> (#[trigger] self.entities@[k]).entity != ee.entity,
            {
                if self.entities[j].entity == ee.entity {
                    let msg = String::from_str("duplicate entity expectation for ").concat(entity_label(ee.entity));
                    proof {
                        assert(self.entities@[j as int].entity == self.entities@[i as int].entity);
                        lemma_first_entity_problem(self.entities@, i as int, ne as int);
                    }
                    return Err(Error::InvalidManifest(msg));
                }
            }
            assert(entity_problem(self.entities@, i as int) is None);
        }
        for i in 0..ne
            invariant
                ne == self.entities@.len(),
                forall|k: int| 0 <= k < i ==> !((#[trigger] self.entities@[k]).entity == EntityKind::Realm
                    && self.entities@[k].presence == EntityPresence::Optional),
        {
            if self.entities[i].entity == EntityKind::Realm && self.entities[i].presence == EntityPresence::Optional {
                assert(realm_declared_optional(self.entities@));
                return Err(Error::InvalidManifest(String::from_str("Realm must always be present and cannot be declared optional")));
            }
        }
        Ok(())
    }

    /// A one-line description: backend, version and counts.
    pub fn to_string(&self) -> (r: String)
        ensures
            r@ == manifest_text(*self),
    {
        let s = String::from_str("FieldManifest(").concat(self.backend.as_str());
        let s = s.concat(" @ ");
        let s = s.concat(self.for_version.to_string().as_str());
        let s = s.concat(", ");
        let s = s.concat(decimal_string(self.entities.len() as u64).as_str());
        let s = s.concat(" entities, ");
        let s = s.concat(decimal_string(self.fields.len() as u64).as_str());
        s.concat(" fields)")
    }
}

} // verus!
