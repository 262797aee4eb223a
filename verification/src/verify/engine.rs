//! The shared, backend-agnostic verification engine.

use vstd::prelude::*;
use vstd::string::*;

use crate::error::{Error, Result};
use crate::json::{Json, JsonValue, members_view, lemma_members_view};
use crate::model::entities::CanonicalRow;
use crate::model::envelope::CanonicalRealm;
use crate::model::kind::{EntityKind, entity_label, kind_rank, label_spec};
use crate::model::volatile::{VolatileView, volatile_lookup};
use crate::verify::manifest::{
    EntityExpectation, EntityPresence, FieldExpectation, FieldManifest, manifest_problem,
    manifest_valid,
};
use crate::verify::path::{carries_path, path_carried, path_present, resolve_path};
use crate::verify::report::{IssueKind, IssueView, Severity, VerificationIssue, VerificationReport};
use crate::version::version_text;

verus! {

/// The rows of a collection: each row's identity with its JSON form.
pub open spec fn rows_of<T: CanonicalRow>(s: Seq<T>) -> Seq<(Seq<char>, Json)> {
    s.map_values(|r: T| (r.row_key(), r.row_view()))
}

/// The rows of one entity kind in an extraction, in the adapter's order.
/// The realm is always exactly one row, keyed by its name.
pub open spec fn entity_rows(x: CanonicalRealm, k: EntityKind) -> Seq<(Seq<char>, Json)> {
    match k {
        EntityKind::Realm => seq![(x.realm.row_key(), x.realm.row_view())],
        EntityKind::Client => rows_of(x.clients@),
        EntityKind::ClientScope => rows_of(x.client_scopes@),
        EntityKind::Group => rows_of(x.groups@),
        EntityKind::Role => rows_of(x.roles@),
        EntityKind::User => rows_of(x.users@),
        EntityKind::Credential => rows_of(x.credentials@),
        EntityKind::ProtocolMapper => rows_of(x.protocol_mappers@),
        EntityKind::AuthFlow => rows_of(x.auth_flows@),
        EntityKind::IdentityProvider => rows_of(x.identity_providers@),
    }
}

/// The views of a sequence of issues.
pub open spec fn issues_view(s: Seq<VerificationIssue>) -> Seq<IssueView> {
    s.map_values(|i: VerificationIssue| i@)
}

/// The finding for a required entity kind without rows.
pub open spec fn missing_entity_issue(k: EntityKind) -> IssueView {
    IssueView {
        severity: Severity::Error,
        kind: IssueKind::MissingEntity,
        entity: k,
        row_id: None,
        path: None,
        introduced_in: None,
        message: "entity "@ + label_spec(k) + " is required but no rows were extracted"@,
    }
}

/// The finding for a required field absent from a row.
pub open spec fn missing_required_issue(fe: FieldExpectation, row_id: Seq<char>) -> IssueView {
    IssueView {
        severity: Severity::Error,
        kind: IssueKind::MissingRequired,
        entity: fe.entity,
        row_id: Some(row_id),
        path: Some(fe.path@),
        introduced_in: Some(fe.introduced_in),
        message: "required field '"@ + fe.path@ + "' (introduced in "@ + version_text(fe.introduced_in)
            + ") missing from "@ + label_spec(fe.entity) + " '"@ + row_id + "'"@,
    }
}

/// The finding for a non-required field absent from every row.
pub open spec fn missing_optional_issue(fe: FieldExpectation) -> IssueView {
    IssueView {
        severity: Severity::Error,
        kind: IssueKind::MissingOptional,
        entity: fe.entity,
        row_id: None,
        path: Some(fe.path@),
        introduced_in: Some(fe.introduced_in),
        message: "field '"@ + fe.path@ + "' (introduced in "@ + version_text(fe.introduced_in)
            + ") absent from every "@ + label_spec(fe.entity) + " row"@,
    }
}

/// The finding for a volatile field found in a row's config body.
pub open spec fn misplaced_volatile_issue(fe: FieldExpectation, row_id: Seq<char>) -> IssueView {
    IssueView {
        severity: Severity::Error,
        kind: IssueKind::MisplacedVolatile,
        entity: fe.entity,
        row_id: Some(row_id),
        path: Some(fe.path@),
        introduced_in: None,
        message: "volatile field '"@ + fe.path@ + "' leaked into the config body of "@ + label_spec(
            fe.entity,
        ) + " '"@ + row_id + "'"@,
    }
}

/// The finding for a volatile field not captured for a row.
pub open spec fn missing_volatile_issue(fe: FieldExpectation, row_id: Seq<char>) -> IssueView {
    IssueView {
        severity: Severity::Warning,
        kind: IssueKind::MissingVolatile,
        entity: fe.entity,
        row_id: Some(row_id),
        path: Some(fe.path@),
        introduced_in: None,
        message: "volatile field '"@ + fe.path@ + "' not captured in the volatile section for "@
            + label_spec(fe.entity) + " '"@ + row_id + "'"@,
    }
}

/// The findings of one entity expectation.
pub open spec fn presence_issues(x: CanonicalRealm, ee: EntityExpectation) -> Seq<IssueView> {
    if ee.presence == EntityPresence::Required && entity_rows(x, ee.entity).len() == 0 {
        seq![missing_entity_issue(ee.entity)]
    } else {
        Seq::empty()
    }
}

/// The findings of entity expectations, in order.
pub open spec fn presence_issues_all(x: CanonicalRealm, es: Seq<EntityExpectation>) -> Seq<IssueView>
    decreases es.len(),
{
    if es.len() == 0 {
        Seq::empty()
    } else {
        presence_issues_all(x, es.drop_last()) + presence_issues(x, es.last())
    }
}

/// One finding per row that lacks a required field.
pub open spec fn required_issues(fe: FieldExpectation, rows: Seq<(Seq<char>, Json)>) -> Seq<IssueView>
    decreases rows.len(),
{
    if rows.len() == 0 {
        Seq::empty()
    } else {
        required_issues(fe, rows.drop_last()) + if path_carried(rows.last().1, fe.path@) {
            Seq::empty()
        } else {
            seq![missing_required_issue(fe, rows.last().0)]
        }
    }
}

/// For each row: a finding if the volatile field is in its config body, and
/// one if it is not captured in the volatile section.
pub open spec fn volatile_issues(vol: VolatileView, fe: FieldExpectation, rows: Seq<(Seq<char>, Json)>) -> Seq<IssueView>
    decreases rows.len(),
{
    if rows.len() == 0 {
        Seq::empty()
    } else {
        let row = rows.last();
        volatile_issues(vol, fe, rows.drop_last()) + (if path_present(row.1, fe.path@) {
            seq![misplaced_volatile_issue(fe, row.0)]
        } else {
            Seq::empty()
        }) + (if volatile_lookup(vol, fe.entity, row.0, fe.path@) is None {
            seq![missing_volatile_issue(fe, row.0)]
        } else {
            Seq::empty()
        })
    }
}

/// Whether at least one row carries the path.
pub open spec fn any_row_has(rows: Seq<(Seq<char>, Json)>, path: Seq<char>) -> bool {
    exists|i: int| 0 <= i < rows.len() && path_carried(#[trigger] rows[i].1, path)
}

/// The findings of one field expectation. A kind without rows yields none;
/// a volatile field is checked for segregation on every row; a required
/// field must be carried by every row, and any other field by at least one
/// row, where a row whose expected structure is an empty array carries it.
pub open spec fn field_issues(x: CanonicalRealm, fe: FieldExpectation) -> Seq<IssueView> {
    let rows = entity_rows(x, fe.entity);
    if rows.len() == 0 {
        Seq::empty()
    } else if fe.volatile {
        volatile_issues(x.volatile@, fe, rows)
    } else if fe.required {
        required_issues(fe, rows)
    } else if !any_row_has(rows, fe.path@) {
        seq![missing_optional_issue(fe)]
    } else {
        Seq::empty()
    }
}

/// The findings of field expectations, in order.
pub open spec fn field_issues_all(x: CanonicalRealm, fs: Seq<FieldExpectation>) -> Seq<IssueView>
    decreases fs.len(),
{
    if fs.len() == 0 {
        Seq::empty()
    } else {
        field_issues_all(x, fs.drop_last()) + field_issues(x, fs.last())
    }
}

/// Every finding of a manifest against an extraction: entity expectations
/// first, then field expectations, each in manifest order.
pub open spec fn report_issues(x: CanonicalRealm, m: FieldManifest) -> Seq<IssueView> {
    presence_issues_all(x, m.entities@) + field_issues_all(x, m.fields@)
}

/// The rows of a collection.
fn collect_rows<T: CanonicalRow>(v: &Vec<T>) -> (r: Vec<(String, JsonValue)>)
    ensures
        members_view(r@) == rows_of(v@),
{
    let mut out: Vec<(String, JsonValue)> = Vec::new();
    let n = v.len();
    for i in 0..n
        invariant
            n == v@.len(),
            out@.len() == i,
            forall|j: int| 0 <= j < i ==> (#[trigger] out@[j]).0@ == v@[j].row_key() && out@[j].1@ == v@[j].row_view(),
    {
        out.push((v[i].row_id(), v[i].to_json()));
    }
    proof {
        lemma_members_view(out@);
        assert(members_view(out@) =~= rows_of(v@));
    }
    out
}

/// The rows of one entity kind in an extraction.
pub fn rows_of_kind(realm: &CanonicalRealm, kind: EntityKind) -> (r: Vec<(String, JsonValue)>)
    ensures
        members_view(r@) == entity_rows(*realm, kind),
{
    match kind {
        EntityKind::Realm => {
            let mut out: Vec<(String, JsonValue)> = Vec::new();
            out.push((realm.realm.row_id(), realm.realm.to_json()));
            proof {
                lemma_members_view(out@);
                assert(members_view(out@) =~= entity_rows(*realm, kind));
            }
            out
        },
        EntityKind::Client => collect_rows(&realm.clients),
        EntityKind::ClientScope => collect_rows(&realm.client_scopes),
        EntityKind::Group => collect_rows(&realm.groups),
        EntityKind::Role => collect_rows(&realm.roles),
        EntityKind::User => collect_rows(&realm.users),
        EntityKind::Credential => collect_rows(&realm.credentials),
        EntityKind::ProtocolMapper => collect_rows(&realm.protocol_mappers),
        EntityKind::AuthFlow => collect_rows(&realm.auth_flows),
        EntityKind::IdentityProvider => collect_rows(&realm.identity_providers),
    }
}


/// A table of rows by kind: kinds in vocabulary order, each listed with its
/// rows exactly when it has some.
pub open spec fn rows_table_wf(x: CanonicalRealm, t: Seq<(EntityKind, Vec<(String, JsonValue)>)>) -> bool {
    &&& forall|i: int| 0 <= i < t.len() ==> members_view((#[trigger] t[i]).1@) == entity_rows(x, t[i].0)
        && entity_rows(x, t[i].0).len() > 0
    &&& forall|i: int, j: int| 0 <= i < j < t.len() ==> kind_rank(#[trigger] t[i].0) < kind_rank(#[trigger] t[j].0)
    &&& forall|k: EntityKind| #[trigger] entity_rows(x, k).len() > 0 ==> exists|i: int| 0 <= i < t.len() && t[i].0 == k
}

/// Collect all entity rows from an extraction, keyed by kind, as
/// `(row_id, value)` pairs. Rows keep the adapter's emission order; the
/// verifier only reports, it does not reorder.
pub fn rows_by_entity(realm: &CanonicalRealm) -> (r: Vec<(EntityKind, Vec<(String, JsonValue)>)>)
    ensures
        rows_table_wf(*realm, r@),
{
    let kinds: [EntityKind; 10] = [
        EntityKind::Realm,
        EntityKind::Client,
        EntityKind::ClientScope,
        EntityKind::Group,
        EntityKind::Role,
        EntityKind::User,
        EntityKind::Credential,
        EntityKind::ProtocolMapper,
        EntityKind::AuthFlow,
        EntityKind::IdentityProvider,
    ];
    assert(forall|i: int| 0 <= i < 10 ==> kind_rank(#[trigger] kinds@[i]) == i);
    let mut out: Vec<(EntityKind, Vec<(String, JsonValue)>)> = Vec::new();
    for i in 0..10
        invariant
            forall|i: int| 0 <= i < 10 ==> kind_rank(#[trigger] kinds@[i]) == i,
            forall|j: int| 0 <= j < out@.len() ==> members_view((#[trigger] out@[j]).1@) == entity_rows(*realm, out@[j].0)
                && entity_rows(*realm, out@[j].0).len() > 0 && kind_rank(out@[j].0) < i,
            forall|a: int, b: int| 0 <= a < b < out@.len() ==> kind_rank(#[trigger] out@[a].0) < kind_rank(#[trigger] out@[b].0),
            forall|k: EntityKind| kind_rank(k) < i && #[trigger] entity_rows(*realm, k).len() > 0 ==> exists|j: int| 0 <= j < out@.len() && out@[j].0 == k,
    {
        let kind = kinds[i];
        let ghost old_out = out@;
        let rows = rows_of_kind(realm, kind);
        proof {
            lemma_members_view(rows@);
        }
        if rows.len() > 0 {
            out.push((kind, rows));
            assert(out@[out@.len() - 1].0 == kind);
        }
        assert forall|k: EntityKind| kind_rank(k) < i + 1 && #[trigger] entity_rows(*realm, k).len() > 0 implies exists|j: int| 0 <= j < out@.len() && out@[j].0 == k by {
            if kind_rank(k) == i {
                assert(k == kind);
                assert(out@[out@.len() - 1].0 == kind);
            } else {
                let j = choose|j: int| 0 <= j < old_out.len() && old_out[j].0 == k;
                assert(out@[j] == old_out[j]);
            }
        }
    }
    out
}

/// The rows listed for a kind in a rows table, if any.
fn rows_for(table: &Vec<(EntityKind, Vec<(String, JsonValue)>)>, kind: EntityKind) -> (r: Option<&Vec<(String, JsonValue)>>)
    ensures
        r matches Some(v) ==> exists|i: int| 0 <= i < table@.len() && table@[i].0 == kind && table@[i].1 == *v,
        r is None ==> forall|i: int| 0 <= i < table@.len() ==> (#[trigger] table@[i]).0 != kind,
{
    let n = table.len();
    for i in 0..n
        invariant
            n == table@.len(),
            forall|j: int| 0 <= j < i ==> (#[trigger] table@[j]).0 != kind,
    {
        if table[i].0 == kind {
            return Some(&table[i].1);
        }
    }
    None
}

/// A finding concerning a volatile field of a row.
fn volatile_issue(
    kind: IssueKind,
    entity: EntityKind,
    row_id: Option<String>,
    path: String,
    severity: Severity,
    message: String,
) -> (r: VerificationIssue)
    ensures
        r == (VerificationIssue {
            severity,
            kind,
            entity,
            row_id,
            path: Some(path),
            introduced_in: None,
            message,
        }),
{
    VerificationIssue { severity, kind, entity, row_id, path: Some(path), introduced_in: None, message }
}

/// `prefix`, the field path quoted, `middle`, the entity label, then the
/// row id quoted.
fn field_row_message(prefix: &str, path: &String, middle: &str, entity: EntityKind, row_id: &String) -> (r: String)
    ensures
        r@ == prefix@ + path@ + middle@ + label_spec(entity) + " '"@ + row_id@ + "'"@,
{
    let s = String::from_str(prefix).concat(path.as_str());
    let s = s.concat(middle);
    let s = s.concat(entity_label(entity));
    let s = s.concat(" '");
    let s = s.concat(row_id.as_str());
    s.concat("'")
}

/// `prefix`, the field path, the version that introduced it, `middle`,
/// then the entity label.
fn field_version_message(prefix: &str, fe: &FieldExpectation, middle: &str) -> (r: String)
    ensures
        r@ == prefix@ + fe.path@ + "' (introduced in "@ + version_text(fe.introduced_in) + middle@
            + label_spec(fe.entity),
{
    let s = String::from_str(prefix).concat(fe.path.as_str());
    let s = s.concat("' (introduced in ");
    let s = s.concat(fe.introduced_in.to_string().as_str());
    let s = s.concat(middle);
    s.concat(entity_label(fe.entity))
}


/// The shared, backend-agnostic verification engine.
///
/// Presence semantics: every *existing* row must carry its required paths,
/// entity types may require at least one row, and volatile fields must be
/// segregated into the volatile section. Non-required fields are verified at
/// the entity level: the realm is incomplete if no row carries them.
pub struct ManifestVerifier;

impl ManifestVerifier {
    /// Verify an extraction against a manifest. An invalid manifest is
    /// refused with the problem `FieldManifest::validate` reports.
    pub fn verify(&self, extracted: &CanonicalRealm, manifest: &FieldManifest) -> (r: Result<VerificationReport>)
        ensures
            r is Ok <==> manifest_valid(*manifest),
            r matches Err(e) ==> (e matches Error::InvalidManifest(msg) && manifest_problem(*manifest) == Some(msg@)),
            r matches Ok(rep) ==> rep.backend@ == manifest.backend@ && rep.against_version == manifest.for_version
                && issues_view(rep.issues@) == report_issues(*extracted, *manifest),
    {
        match manifest.validate() {
            Ok(()) => {},
            Err(e) => {
                return Err(e);
            },
        }
        let rows = rows_by_entity(extracted);
        let mut issues: Vec<VerificationIssue> = Vec::new();
        let ne = manifest.entities.len();
        assert(manifest.entities@.take(0) =~= Seq::<EntityExpectation>::empty());
        assert(issues_view(issues@) =~= Seq::<IssueView>::empty());
        for i in 0..ne
            invariant
                ne == manifest.entities@.len(),
                rows_table_wf(*extracted, rows@),
                issues_view(issues@) == presence_issues_all(*extracted, manifest.entities@.take(i as int)),
        {
            self.check_entity_presence(&manifest.entities[i], &rows, &mut issues, Ghost(*extracted));
            assert(manifest.entities@.take(i + 1).drop_last() =~= manifest.entities@.take(i as int));
        }
        assert(manifest.entities@.take(ne as int) =~= manifest.entities@);
        let ghost after_presence = issues_view(issues@);
        let nf = manifest.fields.len();
        assert(manifest.fields@.take(0) =~= Seq::<FieldExpectation>::empty());
        assert(after_presence + field_issues_all(*extracted, manifest.fields@.take(0)) =~= after_presence);
        for i in 0..nf
            invariant
                nf == manifest.fields@.len(),
                rows_table_wf(*extracted, rows@),
                after_presence == presence_issues_all(*extracted, manifest.entities@),
                issues_view(issues@) == after_presence + field_issues_all(*extracted, manifest.fields@.take(i as int)),
        {
            self.check_field_expectation(extracted, &manifest.fields[i], &rows, &mut issues);
            assert(manifest.fields@.take(i + 1).drop_last() =~= manifest.fields@.take(i as int));
        }
        assert(manifest.fields@.take(nf as int) =~= manifest.fields@);
        Ok(VerificationReport { backend: manifest.backend.clone(), against_version: manifest.for_version, issues })
    }

    fn check_entity_presence(
        &self,
        expectation: &EntityExpectation,
        rows: &Vec<(EntityKind, Vec<(String, JsonValue)>)>,
        issues: &mut Vec<VerificationIssue>,
        Ghost(x): Ghost<CanonicalRealm>,
    )
        requires
            rows_table_wf(x, rows@),
        ensures
            issues_view(final(issues)@) == issues_view(old(issues)@) + presence_issues(x, *expectation),
    {
        let has_rows = match rows_for(rows, expectation.entity) {
            Some(r) => r.len() > 0,
            None => false,
        };
        proof {
            if has_rows {
                let i = choose|i: int| 0 <= i < rows@.len() && rows@[i].0 == expectation.entity;
                assert(entity_rows(x, rows@[i].0).len() > 0);
            } else {
                if entity_rows(x, expectation.entity).len() > 0 {
                    let i = choose|i: int| 0 <= i < rows@.len() && rows@[i].0 == expectation.entity;
                    assert(members_view(rows@[i].1@) == entity_rows(x, rows@[i].0));
                    lemma_members_view(rows@[i].1@);
                }
            }
        }
        if expectation.presence == EntityPresence::Required && !has_rows {
            let msg = String::from_str("entity ").concat(entity_label(expectation.entity));
            let msg = msg.concat(" is required but no rows were extracted");
            let ghost before = issues@;
            issues.push(VerificationIssue {
                severity: Severity::Error,
                kind: IssueKind::MissingEntity,
                entity: expectation.entity,
                row_id: None,
                path: None,
                introduced_in: None,
                message: msg,
            });
            assert(issues_view(issues@) =~= issues_view(before) + presence_issues(x, *expectation));
        } else {
            assert(issues_view(issues@) =~= issues_view(old(issues)@) + presence_issues(x, *expectation));
        }
    }

    fn check_field_expectation(
        &self,
        extracted: &CanonicalRealm,
        fe: &FieldExpectation,
        rows: &Vec<(EntityKind, Vec<(String, JsonValue)>)>,
        issues: &mut Vec<VerificationIssue>,
    )
        requires
            rows_table_wf(*extracted, rows@),
        ensures
            issues_view(final(issues)@) == issues_view(old(issues)@) + field_issues(*extracted, *fe),
    {
        let kind_rows = match rows_for(rows, fe.entity) {
            Some(r) => r,
            None => {
                // Zero rows of a present-but-empty entity is a complete state.
                assert(entity_rows(*extracted, fe.entity).len() == 0);
                assert(issues_view(issues@) =~= issues_view(old(issues)@) + field_issues(*extracted, *fe));
                return;
            },
        };
        let ghost mv = members_view(kind_rows@);
        proof {
            let i = choose|i: int| 0 <= i < rows@.len() && rows@[i].0 == fe.entity && rows@[i].1 == *kind_rows;
            assert(members_view(rows@[i].1@) == entity_rows(*extracted, rows@[i].0));
            assert(mv == entity_rows(*extracted, fe.entity));
            lemma_members_view(kind_rows@);
        }
        if fe.volatile {
            self.check_volatile(extracted, fe, kind_rows, issues);
        } else if fe.required {
            check_required(fe, kind_rows, issues);
        } else {
            let mut found = false;
            let n = kind_rows.len();
            for i in 0..n
                invariant
                    n == kind_rows@.len(),
                    mv == members_view(kind_rows@),
                    mv.len() == n,
                    forall|j: int| 0 <= j < n ==> #[trigger] mv[j] == (kind_rows@[j].0@, kind_rows@[j].1@),
                    found == exists|j: int| 0 <= j < i && path_carried(#[trigger] mv[j].1, fe.path@),
            {
                if !found && carries_path(&kind_rows[i].1, fe.path.as_str()) {
                    found = true;
                }
                proof {
                    if found && !(exists|j: int| 0 <= j < i && path_carried(#[trigger] mv[j].1, fe.path@)) {
                        assert(path_carried(mv[i as int].1, fe.path@));
                    }
                }
            }
            if !found {
                let msg = field_version_message("field '", fe, ") absent from every ");
                let msg = msg.concat(" row");
                let ghost before = issues@;
                issues.push(VerificationIssue {
                    severity: Severity::Error,
                    kind: IssueKind::MissingOptional,
                    entity: fe.entity,
                    row_id: None,
                    path: Some(fe.path.clone()),
                    introduced_in: Some(fe.introduced_in),
                    message: msg,
                });
                assert(issues_view(issues@) =~= issues_view(before) + field_issues(*extracted, *fe));
            } else {
                assert(any_row_has(mv, fe.path@));
                assert(issues_view(issues@) =~= issues_view(old(issues)@) + field_issues(*extracted, *fe));
            }
        }
    }

    fn check_volatile(
        &self,
        extracted: &CanonicalRealm,
        fe: &FieldExpectation,
        entity_rows: &Vec<(String, JsonValue)>,
        issues: &mut Vec<VerificationIssue>,
    )
        ensures
            issues_view(final(issues)@) == issues_view(old(issues)@) + volatile_issues(
                extracted.volatile@,
                *fe,
                members_view(entity_rows@),
            ),
    {
        let ghost mv = members_view(entity_rows@);
        let ghost vol = extracted.volatile@;
        proof {
            lemma_members_view(entity_rows@);
            assert(mv.take(0) =~= Seq::<(Seq<char>, Json)>::empty());
            assert(issues_view(issues@) =~= issues_view(old(issues)@) + volatile_issues(vol, *fe, mv.take(0)));
        }
        let n = entity_rows.len();
        for i in 0..n
            invariant
                n == entity_rows@.len(),
                mv == members_view(entity_rows@),
                vol == extracted.volatile@,
                mv.len() == n,
                forall|j: int| 0 <= j < n ==> #[trigger] mv[j] == (entity_rows@[j].0@, entity_rows@[j].1@),
                issues_view(issues@) == issues_view(old(issues)@) + volatile_issues(vol, *fe, mv.take(i as int)),
        {
            let row_id = &entity_rows[i].0;
            let row = &entity_rows[i].1;
            let ghost mid = issues@;
            assert(mv.take(i + 1).drop_last() =~= mv.take(i as int));
            assert(mv.take(i + 1).last() == mv[i as int]);
            let present = resolve_path(row, fe.path.as_str());
            if present {
                let msg = field_row_message("volatile field '", &fe.path, "' leaked into the config body of ", fe.entity, row_id);
                issues.push(volatile_issue(
                    IssueKind::MisplacedVolatile,
                    fe.entity,
                    Some(row_id.clone()),
                    fe.path.clone(),
                    Severity::Error,
                    msg,
                ));
                assert(issues@.last()@ == misplaced_volatile_issue(*fe, mv[i as int].0));
                assert(issues_view(issues@) =~= issues_view(mid).push(misplaced_volatile_issue(*fe, mv[i as int].0)));
            }
            let ghost mid2 = issues@;
            let ghost part1 = if present { seq![misplaced_volatile_issue(*fe, mv[i as int].0)] } else { Seq::<IssueView>::empty() };
            assert(issues_view(mid2) =~= issues_view(mid) + part1);
            let captured = extracted.volatile.get(fe.entity, row_id.as_str(), fe.path.as_str());
            if captured.is_none() {
                let msg = field_row_message("volatile field '", &fe.path, "' not captured in the volatile section for ", fe.entity, row_id);
                issues.push(volatile_issue(
                    IssueKind::MissingVolatile,
                    fe.entity,
                    Some(row_id.clone()),
                    fe.path.clone(),
                    Severity::Warning,
                    msg,
                ));
                assert(issues@.last()@ == missing_volatile_issue(*fe, mv[i as int].0));
                assert(issues_view(issues@) =~= issues_view(mid2).push(missing_volatile_issue(*fe, mv[i as int].0)));
            }
            let ghost part2 = if volatile_lookup(vol, fe.entity, mv[i as int].0, fe.path@) is None { seq![missing_volatile_issue(*fe, mv[i as int].0)] } else { Seq::<IssueView>::empty() };
            assert(issues_view(issues@) =~= issues_view(mid2) + part2);
            assert(volatile_issues(vol, *fe, mv.take(i + 1)) == volatile_issues(vol, *fe, mv.take(i as int)) + part1 + part2);
            assert(issues_view(issues@) =~= issues_view(old(issues)@) + volatile_issues(vol, *fe, mv.take(i + 1)));
        }
        assert(mv.take(n as int) =~= mv);
    }
}

/// Record a missing-required finding for every row lacking the field.
fn check_required(fe: &FieldExpectation, entity_rows: &Vec<(String, JsonValue)>, issues: &mut Vec<VerificationIssue>)
    ensures
        issues_view(final(issues)@) == issues_view(old(issues)@) + required_issues(*fe, members_view(entity_rows@)),
{
    let ghost mv = members_view(entity_rows@);
    proof {
        lemma_members_view(entity_rows@);
        assert(mv.take(0) =~= Seq::<(Seq<char>, Json)>::empty());
        assert(issues_view(issues@) =~= issues_view(old(issues)@) + required_issues(*fe, mv.take(0)));
    }
    let n = entity_rows.len();
    for i in 0..n
        invariant
            n == entity_rows@.len(),
            mv == members_view(entity_rows@),
            mv.len() == n,
            forall|j: int| 0 <= j < n ==> #[trigger] mv[j] == (entity_rows@[j].0@, entity_rows@[j].1@),
            issues_view(issues@) == issues_view(old(issues)@) + required_issues(*fe, mv.take(i as int)),
    {
        let row_id = &entity_rows[i].0;
        let ghost mid = issues@;
        assert(mv.take(i + 1).drop_last() =~= mv.take(i as int));
        assert(mv.take(i + 1).last() == mv[i as int]);
        let present = carries_path(&entity_rows[i].1, fe.path.as_str());
        if !present {
            let msg = field_version_message("required field '", fe, ") missing from ");
            let msg = msg.concat(" '");
            let msg = msg.concat(row_id.as_str());
            let msg = msg.concat("'");
            issues.push(VerificationIssue {
                severity: Severity::Error,
                kind: IssueKind::MissingRequired,
                entity: fe.entity,
                row_id: Some(row_id.clone()),
                path: Some(fe.path.clone()),
                introduced_in: Some(fe.introduced_in),
                message: msg,
            });
            assert(issues@.last()@ == missing_required_issue(*fe, mv[i as int].0));
            assert(issues_view(issues@) =~= issues_view(mid).push(missing_required_issue(*fe, mv[i as int].0)));
        } else {
            assert(issues@ == mid);
        }
        assert(issues_view(issues@) =~= issues_view(old(issues)@) + required_issues(*fe, mv.take(i + 1)));
    }
    assert(mv.take(n as int) =~= mv);
}

} // verus!
