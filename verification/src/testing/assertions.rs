//! The concrete checks an adapter's contract tests call. Each returns
//! `Ok(())` when the contract holds and an error naming the first breach
//! otherwise.

use vstd::prelude::*;
use vstd::string::*;

use crate::canonical::writer::{canonical, canonical_bytes};
use crate::error::{Error, Result};
use crate::json::{Json, JsonValue, members_view, lemma_members_view};
use crate::model::envelope::CanonicalRealm;
use crate::model::kind::{entity_label, label_spec};
use crate::model::volatile::{VolatileView, volatile_lookup};
use crate::text::decimal_string;
use crate::text::decimal;
use crate::verify::engine::{
    ManifestVerifier, entity_rows, field_issues, field_issues_all, missing_entity_issue,
    missing_optional_issue, missing_required_issue, missing_volatile_issue,
    misplaced_volatile_issue, presence_issues, presence_issues_all, report_issues,
    required_issues, rows_by_entity, rows_table_wf, volatile_issues,
};
use crate::verify::manifest::{
    EntityExpectation, FieldExpectation, FieldManifest, manifest_problem, manifest_valid,
};
use crate::verify::path::{path_carried, path_present, resolve_path};
use crate::verify::laws::{lemma_error_count_views, view_error_count};
use crate::verify::report::{IssueKind, IssueView};

verus! {

fn bytes_equal(a: &Vec<u8>, b: &Vec<u8>) -> (r: bool)
    ensures
        r == (a@ == b@),
{
    if a.len() != b.len() {
        return false;
    }
    let n = a.len();
    for i in 0..n
        invariant
            n == a@.len(),
            n == b@.len(),
            forall|j: int| 0 <= j < i ==> a@[j] == b@[j],
    {
        if a[i] != b[i] {
            return false;
        }
    }
    assert(a@ =~= b@);
    true
}

/// Assert that canonical serialization is byte-stable: two serializations
/// of identical input produce identical bytes. Run on every collection an
/// adapter builds: a value built the same way must hash the same way.
pub fn assert_canonical_deterministic(value: &JsonValue) {
    let a = match canonical_bytes(value) {
        Ok(b) => b,
        Err(_) => Vec::new(),
    };
    let b = match canonical_bytes(value) {
        Ok(b) => b,
        Err(_) => Vec::new(),
    };
    let same = bytes_equal(&a, &b);
    assert(same);
}

/// The breach message for a volatile field found in a row's config body.
pub open spec fn leaked_message(fe: FieldExpectation, row_id: Seq<char>) -> Seq<char> {
    "volatile field '"@ + fe.path@ + "' must not appear in the config body of "@ + label_spec(fe.entity)
        + " '"@ + row_id + "'"@
}

/// The breach message for a volatile field not captured for a row.
pub open spec fn uncaptured_message(fe: FieldExpectation, row_id: Seq<char>) -> Seq<char> {
    "volatile field '"@ + fe.path@ + "' must be captured in the volatile section for "@ + label_spec(
        fe.entity,
    ) + " '"@ + row_id + "'"@
}

/// The segregation breaches of one volatile field over rows, in order.
pub open spec fn row_breaches(vol: VolatileView, fe: FieldExpectation, rows: Seq<(Seq<char>, Json)>) -> Seq<Seq<char>>
    decreases rows.len(),
{
    if rows.len() == 0 {
        Seq::empty()
    } else {
        let row = rows.last();
        row_breaches(vol, fe, rows.drop_last()) + (if path_present(row.1, fe.path@) {
            seq![leaked_message(fe, row.0)]
        } else {
            Seq::empty()
        }) + (if volatile_lookup(vol, fe.entity, row.0, fe.path@) is None {
            seq![uncaptured_message(fe, row.0)]
        } else {
            Seq::empty()
        })
    }
}

/// The segregation breaches of the volatile fields among `fs`, in order.
pub open spec fn segregation_breaches(x: CanonicalRealm, fs: Seq<FieldExpectation>) -> Seq<Seq<char>>
    decreases fs.len(),
{
    if fs.len() == 0 {
        Seq::empty()
    } else {
        segregation_breaches(x, fs.drop_last()) + if fs.last().volatile {
            row_breaches(x.volatile@, fs.last(), entity_rows(x, fs.last().entity))
        } else {
            Seq::empty()
        }
    }
}

/// Check the volatile-segregation contract: every manifest-volatile field
/// appears in the volatile section for every existing row, and never in the
/// config body. The manifest must be self-consistent first; otherwise its
/// first problem is returned, and on a breach the first breach.
#[verifier::loop_isolation(false)]
pub fn check_volatile_segregation(realm: &CanonicalRealm, manifest: &FieldManifest) -> (r: Result<()>)
    ensures
        !manifest_valid(*manifest) ==> (r matches Err(Error::InvalidManifest(msg)) && manifest_problem(*manifest) == Some(msg@)),
        manifest_valid(*manifest) ==> (r is Ok <==> segregation_breaches(*realm, manifest.fields@).len() == 0),
        manifest_valid(*manifest) && r is Err ==> (r matches Err(Error::Message(msg)) && msg@ == segregation_breaches(*realm, manifest.fields@)[0]),
{
    manifest.validate()?;
    let rows = rows_by_entity(realm);
    let nf = manifest.fields.len();
    assert(manifest.fields@.take(0) =~= Seq::<FieldExpectation>::empty());
    for i in 0..nf
        invariant
            nf == manifest.fields@.len(),
            rows_table_wf(*realm, rows@),
            segregation_breaches(*realm, manifest.fields@.take(i as int)).len() == 0,
    {
        let fe = &manifest.fields[i];
        assert(manifest.fields@.take(i + 1).drop_last() =~= manifest.fields@.take(i as int));
        if fe.volatile {
            let mut kind_rows: Option<&Vec<(String, JsonValue)>> = None;
            let nk = rows.len();
            for k in 0..nk
                invariant
                    nk == rows@.len(),
                    kind_rows is None ==> forall|j: int| 0 <= j < k ==> (#[trigger] rows@[j]).0 != fe.entity,
                    kind_rows matches Some(v) ==> exists|j: int| 0 <= j < nk && rows@[j].0 == fe.entity && rows@[j].1 == *v,
            {
                if kind_rows.is_none() && rows[k].0 == fe.entity {
                    kind_rows = Some(&rows[k].1);
                }
            }
            match kind_rows {
                None => {
                    assert(entity_rows(*realm, fe.entity).len() == 0);
                },
                Some(kr) => {
                    let ghost mv = members_view(kr@);
                    proof {
                        let j = choose|j: int| 0 <= j < nk && rows@[j].0 == fe.entity && rows@[j].1 == *kr;
                        assert(mv == entity_rows(*realm, fe.entity));
                        lemma_members_view(kr@);
                        assert(mv.take(0) =~= Seq::<(Seq<char>, Json)>::empty());
                    }
                    let n = kr.len();
                    for j in 0..n
                        invariant
                            n == kr@.len(),
                            mv == members_view(kr@),
                            mv.len() == n,
                            forall|t: int| 0 <= t < n ==> #[trigger] mv[t] == (kr@[t].0@, kr@[t].1@),
                            row_breaches(realm.volatile@, *fe, mv.take(j as int)).len() == 0,
                    {
                        let row_id = &kr[j].0;
                        assert(mv.take(j + 1).drop_last() =~= mv.take(j as int));
                        assert(mv.take(j + 1).last() == mv[j as int]);
                        if resolve_path(&kr[j].1, fe.path.as_str()) {
                            let msg = String::from_str("volatile field '").concat(fe.path.as_str());
                            let msg = msg.concat("' must not appear in the config body of ");
                            let msg = msg.concat(entity_label(fe.entity));
                            let msg = msg.concat(" '");
                            let msg = msg.concat(row_id.as_str());
                            let msg = msg.concat("'");
                            proof {
                                lemma_breaches_prefix(*realm, manifest.fields@, i as int, mv, j as int);
                            }
                            return Err(Error::Message(msg));
                        }
                        if realm.volatile.get(fe.entity, row_id.as_str(), fe.path.as_str()).is_none() {
                            let msg = String::from_str("volatile field '").concat(fe.path.as_str());
                            let msg = msg.concat("' must be captured in the volatile section for ");
                            let msg = msg.concat(entity_label(fe.entity));
                            let msg = msg.concat(" '");
                            let msg = msg.concat(row_id.as_str());
                            let msg = msg.concat("'");
                            proof {
                                lemma_breaches_prefix(*realm, manifest.fields@, i as int, mv, j as int);
                            }
                            return Err(Error::Message(msg));
                        }
                    }
                    assert(mv.take(n as int) =~= mv);
                },
            }
        }
    }
    assert(manifest.fields@.take(nf as int) =~= manifest.fields@);
    Ok(())
}

/// Breaches grow by appending: the breaches of a prefix of the rows of the
/// `i`-th field come right after those of the earlier fields, and are a
/// prefix of all breaches.
proof fn lemma_breaches_prefix(x: CanonicalRealm, fs: Seq<FieldExpectation>, i: int, rows: Seq<(Seq<char>, Json)>, j: int)
    requires
        0 <= i < fs.len(),
        fs[i].volatile,
        rows == entity_rows(x, fs[i].entity),
        0 <= j < rows.len(),
        segregation_breaches(x, fs.take(i)).len() == 0,
        row_breaches(x.volatile@, fs[i], rows.take(j)).len() == 0,
        row_breaches(x.volatile@, fs[i], rows.take(j + 1)).len() > 0,
    ensures
        segregation_breaches(x, fs).len() > 0,
        segregation_breaches(x, fs)[0] == row_breaches(x.volatile@, fs[i], rows.take(j + 1))[0],
{
    let rows_all = entity_rows(x, fs[i].entity);
    lemma_row_breaches_grow(x.volatile@, fs[i], rows, j + 1, rows.len() as int);
    assert(rows.take(rows.len() as int) =~= rows);
    assert(fs.take(i + 1).drop_last() =~= fs.take(i));
    assert(fs.take(i + 1).last() == fs[i]);
    assert(segregation_breaches(x, fs.take(i + 1)) =~= row_breaches(x.volatile@, fs[i], rows_all));
    lemma_segregation_breaches_grow(x, fs, i + 1, fs.len() as int);
    assert(fs.take(fs.len() as int) =~= fs);
}

/// Checking more rows only appends breaches.
proof fn lemma_row_breaches_grow(vol: VolatileView, fe: FieldExpectation, rows: Seq<(Seq<char>, Json)>, a: int, b: int)
    requires
        0 <= a <= b <= rows.len(),
    ensures
        row_breaches(vol, fe, rows.take(a)).len() <= row_breaches(vol, fe, rows.take(b)).len(),
        forall|k: int| 0 <= k < row_breaches(vol, fe, rows.take(a)).len()
            ==> row_breaches(vol, fe, rows.take(b))[k] == row_breaches(vol, fe, rows.take(a))[k],
    decreases b - a,
{
    if a < b {
        lemma_row_breaches_grow(vol, fe, rows, a, b - 1);
        assert(rows.take(b).drop_last() =~= rows.take(b - 1));
    }
}

/// Checking more fields only appends breaches.
proof fn lemma_segregation_breaches_grow(x: CanonicalRealm, fs: Seq<FieldExpectation>, a: int, b: int)
    requires
        0 <= a <= b <= fs.len(),
    ensures
        segregation_breaches(x, fs.take(a)).len() <= segregation_breaches(x, fs.take(b)).len(),
        forall|k: int| 0 <= k < segregation_breaches(x, fs.take(a)).len()
            ==> segregation_breaches(x, fs.take(b))[k] == segregation_breaches(x, fs.take(a))[k],
    decreases b - a,
{
    if a < b {
        lemma_segregation_breaches_grow(x, fs, a, b - 1);
        assert(fs.take(b).drop_last() =~= fs.take(b - 1));
    }
}

/// Check that a manifest passes its own self-consistency checks, returning
/// its first problem otherwise.
pub fn check_manifest_valid(manifest: &FieldManifest) -> (r: Result<()>)
    ensures
        r is Ok <==> manifest_valid(*manifest),
        r is Err ==> (r matches Err(Error::InvalidManifest(msg)) && manifest_problem(*manifest) == Some(msg@)),
{
    manifest.validate()
}

/// The failure message of the completeness check.
pub open spec fn incomplete_message(errors: nat) -> Seq<char> {
    "verification found "@ + decimal(errors) + " error(s)"@
}

/// Check that an extraction verifies against its manifest with zero
/// `Error`-severity findings, returning the manifest's first problem or the
/// number of errors otherwise.
pub fn check_verification_complete(realm: &CanonicalRealm, manifest: &FieldManifest) -> (r: Result<()>)
    ensures
        !manifest_valid(*manifest) ==> (r matches Err(Error::InvalidManifest(msg)) && manifest_problem(*manifest) == Some(msg@)),
        manifest_valid(*manifest) ==> (r is Ok <==> view_error_count(report_issues(*realm, *manifest)) == 0),
        manifest_valid(*manifest) && r is Err ==> (r matches Err(Error::Message(msg)) && msg@ == incomplete_message(
            view_error_count(report_issues(*realm, *manifest)),
        )),
{
    let verifier = ManifestVerifier;
    let report = match verifier.verify(realm, manifest) {
        Ok(rep) => rep,
        Err(e) => {
            return Err(e);
        },
    };
    let (errors, _warnings) = report.counts();
    proof {
        lemma_error_count_views(report.issues@);
    }
    if errors == 0 {
        Ok(())
    } else {
        let msg = String::from_str("verification found ").concat(decimal_string(errors as u64).as_str());
        let msg = msg.concat(" error(s)");
        Err(Error::Message(msg))
    }
}

/// Assert the volatile-segregation contract: every manifest-volatile field
/// is captured in the volatile section for every existing row and never
/// leaks into the config body, under a self-consistent manifest.
pub fn assert_volatile_segregation(realm: &CanonicalRealm, manifest: &FieldManifest)
    requires
        manifest_valid(*manifest),
        segregation_breaches(*realm, manifest.fields@).len() == 0,
{
    let r = check_volatile_segregation(realm, manifest);
    assert(r is Ok);
}

/// Assert that a manifest passes its own self-consistency checks (unique
/// expectations, sane backend identity, valid paths).
pub fn assert_manifest_valid(manifest: &FieldManifest)
    requires
        manifest_valid(*manifest),
{
    let r = check_manifest_valid(manifest);
    assert(r is Ok);
}

/// Assert that an extraction verifies against its manifest with zero
/// `Error`-severity findings; warnings alone are fine.
pub fn assert_verification_complete(realm: &CanonicalRealm, manifest: &FieldManifest)
    requires
        manifest_valid(*manifest),
        view_error_count(report_issues(*realm, *manifest)) == 0,
{
    let r = check_verification_complete(realm, manifest);
    assert(r is Ok);
}

/// Whether a finding is about volatile segregation: a volatile field in a
/// config body, or one not captured in the volatile section.
pub open spec fn is_segregation_finding(i: IssueView) -> bool {
    i.kind == IssueKind::MisplacedVolatile || i.kind == IssueKind::MissingVolatile
}

/// The number of segregation findings.
pub open spec fn segregation_finding_count(s: Seq<IssueView>) -> nat
    decreases s.len(),
{
    if s.len() == 0 {
        0
    } else {
        segregation_finding_count(s.drop_last()) + if is_segregation_finding(s.last()) {
            1nat
        } else {
            0nat
        }
    }
}

proof fn lemma_segregation_count_add(a: Seq<IssueView>, b: Seq<IssueView>)
    ensures
        segregation_finding_count(a + b) == segregation_finding_count(a) + segregation_finding_count(b),
    decreases b.len(),
{
    if b.len() > 0 {
        lemma_segregation_count_add(a, b.drop_last());
        assert((a + b).drop_last() =~= a + b.drop_last());
    }
}

proof fn lemma_single_count(i: IssueView)
    ensures
        segregation_finding_count(seq![i]) == if is_segregation_finding(i) {
            1nat
        } else {
            0nat
        },
{
    let s = seq![i];
    assert(s.drop_last() =~= Seq::<IssueView>::empty());
    assert(s.last() == i);
    assert(segregation_finding_count(s.drop_last()) == 0);
}

proof fn lemma_row_breaches_match(vol: VolatileView, fe: FieldExpectation, rows: Seq<(Seq<char>, Json)>)
    ensures
        segregation_finding_count(volatile_issues(vol, fe, rows)) == row_breaches(vol, fe, rows).len(),
    decreases rows.len(),
{
    if rows.len() > 0 {
        let row = rows.last();
        lemma_row_breaches_match(vol, fe, rows.drop_last());
        let leaked = if path_present(row.1, fe.path@) {
            seq![misplaced_volatile_issue(fe, row.0)]
        } else {
            Seq::empty()
        };
        let missing = if volatile_lookup(vol, fe.entity, row.0, fe.path@) is None {
            seq![missing_volatile_issue(fe, row.0)]
        } else {
            Seq::empty()
        };
        lemma_segregation_count_add(volatile_issues(vol, fe, rows.drop_last()), leaked);
        lemma_segregation_count_add(volatile_issues(vol, fe, rows.drop_last()) + leaked, missing);
        lemma_single_count(misplaced_volatile_issue(fe, row.0));
        lemma_single_count(missing_volatile_issue(fe, row.0));
    }
}

proof fn lemma_required_no_segregation(fe: FieldExpectation, rows: Seq<(Seq<char>, Json)>)
    ensures
        segregation_finding_count(required_issues(fe, rows)) == 0,
    decreases rows.len(),
{
    if rows.len() > 0 {
        lemma_required_no_segregation(fe, rows.drop_last());
        let tail = if path_carried(rows.last().1, fe.path@) {
            Seq::empty()
        } else {
            seq![missing_required_issue(fe, rows.last().0)]
        };
        lemma_segregation_count_add(required_issues(fe, rows.drop_last()), tail);
        lemma_single_count(missing_required_issue(fe, rows.last().0));
    }
}

proof fn lemma_presence_no_segregation(x: CanonicalRealm, es: Seq<EntityExpectation>)
    ensures
        segregation_finding_count(presence_issues_all(x, es)) == 0,
    decreases es.len(),
{
    if es.len() > 0 {
        lemma_presence_no_segregation(x, es.drop_last());
        lemma_segregation_count_add(presence_issues_all(x, es.drop_last()), presence_issues(x, es.last()));
        lemma_single_count(missing_entity_issue(es.last().entity));
    }
}

proof fn lemma_fields_segregation(x: CanonicalRealm, fs: Seq<FieldExpectation>)
    ensures
        segregation_finding_count(field_issues_all(x, fs)) == segregation_breaches(x, fs).len(),
    decreases fs.len(),
{
    if fs.len() > 0 {
        let fe = fs.last();
        let rows = entity_rows(x, fe.entity);
        lemma_fields_segregation(x, fs.drop_last());
        lemma_segregation_count_add(field_issues_all(x, fs.drop_last()), field_issues(x, fe));
        if rows.len() == 0 {
            assert(row_breaches(x.volatile@, fe, rows) =~= Seq::<Seq<char>>::empty());
        } else if fe.volatile {
            lemma_row_breaches_match(x.volatile@, fe, rows);
        } else if fe.required {
            lemma_required_no_segregation(fe, rows);
        } else {
            lemma_single_count(missing_optional_issue(fe));
        }
    }
}

/// The segregation check finds exactly as many breaches as a verification
/// against the same manifest reports segregation findings; in particular
/// it passes exactly when that verification reports none.
pub proof fn lemma_segregation_matches_verification(x: CanonicalRealm, m: FieldManifest)
    ensures
        segregation_finding_count(report_issues(x, m)) == segregation_breaches(x, m.fields@).len(),
{
    lemma_presence_no_segregation(x, m.entities@);
    lemma_fields_segregation(x, m.fields@);
    lemma_segregation_count_add(presence_issues_all(x, m.entities@), field_issues_all(x, m.fields@));
}

} // verus!
