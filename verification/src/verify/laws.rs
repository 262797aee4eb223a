//! What holds of every verification: how findings are counted, which
//! severity each kind of finding carries, and when a report is complete.

use vstd::prelude::*;

use crate::json::Json;
use crate::model::entities::CanonicalRow;
use crate::model::envelope::CanonicalRealm;
use crate::model::kind::EntityKind;
use crate::model::volatile::VolatileView;
use crate::verify::engine::{
    entity_rows, field_issues, field_issues_all, issues_view, presence_issues,
    presence_issues_all, report_issues, required_issues, volatile_issues, any_row_has,
};
use crate::verify::manifest::{EntityExpectation, EntityPresence, FieldExpectation, FieldManifest};
use crate::verify::path::{path_carried, path_present};
use crate::verify::report::{
    IssueKind, IssueView, Severity, VerificationIssue, VerificationReport, error_count,
    lemma_no_errors_iff_zero,
    no_errors,
};

verus! {

/// The number of `Error`-severity findings among issue views.
pub open spec fn view_error_count(s: Seq<IssueView>) -> nat
    decreases s.len(),
{
    if s.len() == 0 {
        0
    } else {
        view_error_count(s.drop_last()) + if s.last().severity == Severity::Error {
            1nat
        } else {
            0nat
        }
    }
}

/// Errors of two runs of findings add up.
pub proof fn lemma_view_error_count_add(a: Seq<IssueView>, b: Seq<IssueView>)
    ensures
        view_error_count(a + b) == view_error_count(a) + view_error_count(b),
    decreases b.len(),
{
    if b.len() > 0 {
        lemma_view_error_count_add(a, b.drop_last());
        assert((a + b).drop_last() =~= a + b.drop_last());
    }
}

/// Counting errors over issues or over their views gives the same number.
pub proof fn lemma_error_count_views(issues: Seq<VerificationIssue>)
    ensures
        error_count(issues) == view_error_count(issues_view(issues)),
    decreases issues.len(),
{
    if issues.len() > 0 {
        lemma_error_count_views(issues.drop_last());
        assert(issues_view(issues).drop_last() =~= issues_view(issues.drop_last()));
    }
}

/// The severity a finding of a kind carries: an uncaptured volatile field is
/// a warning, every other finding an error.
pub open spec fn kind_severity(k: IssueKind) -> Severity {
    if k == IssueKind::MissingVolatile {
        Severity::Warning
    } else {
        Severity::Error
    }
}

/// Every finding carries the severity of its kind.
pub open spec fn severities_follow_kinds(s: Seq<IssueView>) -> bool {
    forall|i: int| 0 <= i < s.len() ==> (#[trigger] s[i]).severity == kind_severity(s[i].kind)
}

proof fn lemma_severities_concat(a: Seq<IssueView>, b: Seq<IssueView>)
    requires
        severities_follow_kinds(a),
        severities_follow_kinds(b),
    ensures
        severities_follow_kinds(a + b),
{
    assert forall|i: int| 0 <= i < (a + b).len() implies (#[trigger] (a + b)[i]).severity == kind_severity((a + b)[i].kind) by {
        if i < a.len() {
            assert((a + b)[i] == a[i]);
        } else {
            assert((a + b)[i] == b[i - a.len()]);
        }
    }
}

proof fn lemma_presence_severities(x: CanonicalRealm, es: Seq<EntityExpectation>)
    ensures
        severities_follow_kinds(presence_issues_all(x, es)),
    decreases es.len(),
{
    if es.len() > 0 {
        lemma_presence_severities(x, es.drop_last());
        lemma_severities_concat(presence_issues_all(x, es.drop_last()), presence_issues(x, es.last()));
    }
}

proof fn lemma_required_severities(fe: FieldExpectation, rows: Seq<(Seq<char>, Json)>)
    ensures
        severities_follow_kinds(required_issues(fe, rows)),
    decreases rows.len(),
{
    if rows.len() > 0 {
        lemma_required_severities(fe, rows.drop_last());
        let tail = if path_carried(rows.last().1, fe.path@) {
            Seq::empty()
        } else {
            seq![crate::verify::engine::missing_required_issue(fe, rows.last().0)]
        };
        lemma_severities_concat(required_issues(fe, rows.drop_last()), tail);
    }
}

proof fn lemma_volatile_severities(vol: VolatileView, fe: FieldExpectation, rows: Seq<(Seq<char>, Json)>)
    ensures
        severities_follow_kinds(volatile_issues(vol, fe, rows)),
    decreases rows.len(),
{
    if rows.len() > 0 {
        let row = rows.last();
        lemma_volatile_severities(vol, fe, rows.drop_last());
        let leaked = if path_present(row.1, fe.path@) {
            seq![crate::verify::engine::misplaced_volatile_issue(fe, row.0)]
        } else {
            Seq::empty()
        };
        let missing = if crate::model::volatile::volatile_lookup(vol, fe.entity, row.0, fe.path@) is None {
            seq![crate::verify::engine::missing_volatile_issue(fe, row.0)]
        } else {
            Seq::empty()
        };
        lemma_severities_concat(volatile_issues(vol, fe, rows.drop_last()), leaked);
        lemma_severities_concat(volatile_issues(vol, fe, rows.drop_last()) + leaked, missing);
    }
}

proof fn lemma_field_severities(x: CanonicalRealm, fs: Seq<FieldExpectation>)
    ensures
        severities_follow_kinds(field_issues_all(x, fs)),
    decreases fs.len(),
{
    if fs.len() > 0 {
        let fe = fs.last();
        lemma_field_severities(x, fs.drop_last());
        lemma_required_severities(fe, entity_rows(x, fe.entity));
        lemma_volatile_severities(x.volatile@, fe, entity_rows(x, fe.entity));
        lemma_severities_concat(field_issues_all(x, fs.drop_last()), field_issues(x, fe));
    }
}

/// Every finding of a verification is an error, except a volatile field not
/// captured in the volatile section, which is a warning.
pub proof fn lemma_severity_by_kind(x: CanonicalRealm, m: FieldManifest)
    ensures
        severities_follow_kinds(report_issues(x, m)),
{
    lemma_presence_severities(x, m.entities@);
    lemma_field_severities(x, m.fields@);
    lemma_severities_concat(presence_issues_all(x, m.entities@), field_issues_all(x, m.fields@));
}

/// An entity expectation is met: a required kind has at least one row.
pub open spec fn entity_met(x: CanonicalRealm, ee: EntityExpectation) -> bool {
    ee.presence == EntityPresence::Required ==> entity_rows(x, ee.entity).len() > 0
}

/// A field expectation is met: a volatile field is in no row's config body,
/// a required field is carried by every row, and any other field by some
/// row when the kind has rows (a row carries a field whose expected
/// structure is an empty array).
pub open spec fn field_met(x: CanonicalRealm, fe: FieldExpectation) -> bool {
    let rows = entity_rows(x, fe.entity);
    if fe.volatile {
        forall|i: int| 0 <= i < rows.len() ==> !path_present(#[trigger] rows[i].1, fe.path@)
    } else if fe.required {
        forall|i: int| 0 <= i < rows.len() ==> path_carried(#[trigger] rows[i].1, fe.path@)
    } else {
        rows.len() == 0 || any_row_has(rows, fe.path@)
    }
}

/// An extraction meets every expectation of a manifest.
pub open spec fn manifest_met(x: CanonicalRealm, m: FieldManifest) -> bool {
    &&& forall|i: int| 0 <= i < m.entities@.len() ==> entity_met(x, #[trigger] m.entities@[i])
    &&& forall|i: int| 0 <= i < m.fields@.len() ==> field_met(x, #[trigger] m.fields@[i])
}

proof fn lemma_presence_errors(x: CanonicalRealm, es: Seq<EntityExpectation>)
    ensures
        view_error_count(presence_issues_all(x, es)) == 0 <==> forall|i: int| 0 <= i < es.len() ==> entity_met(x, #[trigger] es[i]),
    decreases es.len(),
{
    if es.len() > 0 {
        lemma_presence_errors(x, es.drop_last());
        lemma_view_error_count_add(presence_issues_all(x, es.drop_last()), presence_issues(x, es.last()));
        assert(view_error_count(presence_issues(x, es.last())) == 0 <==> entity_met(x, es.last())) by {
            if !entity_met(x, es.last()) {
                assert(presence_issues(x, es.last()).drop_last() =~= Seq::<IssueView>::empty());
            }
        }
        if forall|i: int| 0 <= i < es.len() ==> entity_met(x, #[trigger] es[i]) {
            assert forall|i: int| 0 <= i < es.drop_last().len() implies entity_met(x, #[trigger] es.drop_last()[i]) by {
                assert(es.drop_last()[i] == es[i]);
            }
            assert(entity_met(x, es[es.len() - 1]));
        }
        if view_error_count(presence_issues_all(x, es)) == 0 {
            assert forall|i: int| 0 <= i < es.len() implies entity_met(x, #[trigger] es[i]) by {
                if i < es.len() - 1 {
                    assert(es.drop_last()[i] == es[i]);
                }
            }
        }
    }
}

proof fn lemma_required_errors(fe: FieldExpectation, rows: Seq<(Seq<char>, Json)>)
    ensures
        view_error_count(required_issues(fe, rows)) == 0 <==> forall|i: int| 0 <= i < rows.len() ==> path_carried(#[trigger] rows[i].1, fe.path@),
    decreases rows.len(),
{
    if rows.len() > 0 {
        lemma_required_errors(fe, rows.drop_last());
        let tail = if path_carried(rows.last().1, fe.path@) {
            Seq::empty()
        } else {
            seq![crate::verify::engine::missing_required_issue(fe, rows.last().0)]
        };
        lemma_view_error_count_add(required_issues(fe, rows.drop_last()), tail);
        if !path_carried(rows.last().1, fe.path@) {
            assert(tail.drop_last() =~= Seq::<IssueView>::empty());
        }
        if forall|i: int| 0 <= i < rows.len() ==> path_carried(#[trigger] rows[i].1, fe.path@) {
            assert forall|i: int| 0 <= i < rows.drop_last().len() implies path_carried(#[trigger] rows.drop_last()[i].1, fe.path@) by {
                assert(rows.drop_last()[i] == rows[i]);
            }
            assert(path_carried(rows[rows.len() - 1].1, fe.path@));
        }
        if view_error_count(required_issues(fe, rows)) == 0 {
            assert forall|i: int| 0 <= i < rows.len() implies path_carried(#[trigger] rows[i].1, fe.path@) by {
                if i < rows.len() - 1 {
                    assert(rows.drop_last()[i] == rows[i]);
                }
            }
        }
    }
}

proof fn lemma_volatile_errors(vol: VolatileView, fe: FieldExpectation, rows: Seq<(Seq<char>, Json)>)
    ensures
        view_error_count(volatile_issues(vol, fe, rows)) == 0 <==> forall|i: int| 0 <= i < rows.len() ==> !path_present(#[trigger] rows[i].1, fe.path@),
    decreases rows.len(),
{
    if rows.len() > 0 {
        let row = rows.last();
        lemma_volatile_errors(vol, fe, rows.drop_last());
        let leaked = if path_present(row.1, fe.path@) {
            seq![crate::verify::engine::misplaced_volatile_issue(fe, row.0)]
        } else {
            Seq::empty()
        };
        let missing = if crate::model::volatile::volatile_lookup(vol, fe.entity, row.0, fe.path@) is None {
            seq![crate::verify::engine::missing_volatile_issue(fe, row.0)]
        } else {
            Seq::empty()
        };
        lemma_view_error_count_add(volatile_issues(vol, fe, rows.drop_last()), leaked);
        lemma_view_error_count_add(volatile_issues(vol, fe, rows.drop_last()) + leaked, missing);
        assert(leaked.len() > 0 ==> leaked.drop_last() =~= Seq::<IssueView>::empty());
        assert(missing.len() > 0 ==> missing.drop_last() =~= Seq::<IssueView>::empty());
        assert(view_error_count(missing) == 0) by {
            if missing.len() > 0 {
                assert(missing.drop_last() =~= Seq::<IssueView>::empty());
                assert(missing.last().severity == Severity::Warning);
                assert(view_error_count(missing.drop_last()) == 0);
            }
        }
        if forall|i: int| 0 <= i < rows.len() ==> !path_present(#[trigger] rows[i].1, fe.path@) {
            assert forall|i: int| 0 <= i < rows.drop_last().len() implies !path_present(#[trigger] rows.drop_last()[i].1, fe.path@) by {
                assert(rows.drop_last()[i] == rows[i]);
            }
            assert(!path_present(rows[rows.len() - 1].1, fe.path@));
        }
        if view_error_count(volatile_issues(vol, fe, rows)) == 0 {
            assert forall|i: int| 0 <= i < rows.len() implies !path_present(#[trigger] rows[i].1, fe.path@) by {
                if i < rows.len() - 1 {
                    assert(rows.drop_last()[i] == rows[i]);
                }
            }
        }
    }
}

proof fn lemma_field_errors(x: CanonicalRealm, fe: FieldExpectation)
    ensures
        view_error_count(field_issues(x, fe)) == 0 <==> field_met(x, fe),
{
    let rows = entity_rows(x, fe.entity);
    if rows.len() == 0 {
    } else if fe.volatile {
        lemma_volatile_errors(x.volatile@, fe, rows);
    } else if fe.required {
        lemma_required_errors(fe, rows);
    } else if !any_row_has(rows, fe.path@) {
        assert(field_issues(x, fe).drop_last() =~= Seq::<IssueView>::empty());
    }
}

proof fn lemma_fields_errors(x: CanonicalRealm, fs: Seq<FieldExpectation>)
    ensures
        view_error_count(field_issues_all(x, fs)) == 0 <==> forall|i: int| 0 <= i < fs.len() ==> field_met(x, #[trigger] fs[i]),
    decreases fs.len(),
{
    if fs.len() > 0 {
        lemma_fields_errors(x, fs.drop_last());
        lemma_view_error_count_add(field_issues_all(x, fs.drop_last()), field_issues(x, fs.last()));
        lemma_field_errors(x, fs.last());
        if forall|i: int| 0 <= i < fs.len() ==> field_met(x, #[trigger] fs[i]) {
            assert forall|i: int| 0 <= i < fs.drop_last().len() implies field_met(x, #[trigger] fs.drop_last()[i]) by {
                assert(fs.drop_last()[i] == fs[i]);
            }
            assert(field_met(x, fs[fs.len() - 1]));
        }
        if view_error_count(field_issues_all(x, fs)) == 0 {
            assert forall|i: int| 0 <= i < fs.len() implies field_met(x, #[trigger] fs[i]) by {
                if i < fs.len() - 1 {
                    assert(fs.drop_last()[i] == fs[i]);
                }
            }
        }
    }
}

/// A verification finds no error exactly when the extraction meets every
/// expectation of the manifest: each required kind has rows, each volatile
/// field stays out of every config body, each required field is carried by
/// every row, and each other field by some row of a kind that has rows. A
/// row whose expected structure is an empty array carries the field: empty
/// structures, like absent rows, are not incompleteness.
pub proof fn lemma_no_errors_iff_met(x: CanonicalRealm, m: FieldManifest)
    ensures
        view_error_count(report_issues(x, m)) == 0 <==> manifest_met(x, m),
{
    lemma_presence_errors(x, m.entities@);
    lemma_fields_errors(x, m.fields@);
    lemma_view_error_count_add(presence_issues_all(x, m.entities@), field_issues_all(x, m.fields@));
}

/// A report of a verification is complete exactly when the extraction meets
/// every expectation of the manifest.
pub proof fn lemma_report_complete_iff_met(x: CanonicalRealm, m: FieldManifest, report: VerificationReport)
    requires
        issues_view(report.issues@) == report_issues(x, m),
    ensures
        no_errors(report.issues@) <==> manifest_met(x, m),
{
    lemma_no_errors_iff_zero(report.issues@);
    lemma_error_count_views(report.issues@);
    lemma_no_errors_iff_met(x, m);
}

/// Every finding of a volatile field concerns segregation.
pub open spec fn all_segregation_kinds(s: Seq<IssueView>) -> bool {
    forall|i: int|
        0 <= i < s.len() ==> (#[trigger] s[i]).kind == IssueKind::MisplacedVolatile || s[i].kind
            == IssueKind::MissingVolatile
}

proof fn lemma_volatile_kinds(vol: VolatileView, fe: FieldExpectation, rows: Seq<(Seq<char>, Json)>)
    ensures
        all_segregation_kinds(volatile_issues(vol, fe, rows)),
    decreases rows.len(),
{
    if rows.len() > 0 {
        lemma_volatile_kinds(vol, fe, rows.drop_last());
        let s = volatile_issues(vol, fe, rows);
        let p = volatile_issues(vol, fe, rows.drop_last());
        assert forall|i: int| 0 <= i < s.len() implies (#[trigger] s[i]).kind == IssueKind::MisplacedVolatile
            || s[i].kind == IssueKind::MissingVolatile by {
            if i < p.len() {
                assert(s[i] == p[i]);
            }
        }
    }
}

/// The findings of one field expectation: none for a kind without rows,
/// and for a volatile field only segregation findings, whether or not it is
/// also marked required. A verification appends them, in manifest order,
/// after the findings of the field expectations before it.
pub proof fn lemma_field_issues_shape(x: CanonicalRealm, fe: FieldExpectation)
    ensures
        entity_rows(x, fe.entity).len() == 0 ==> field_issues(x, fe).len() == 0,
        fe.volatile ==> all_segregation_kinds(field_issues(x, fe)),
        forall|fs: Seq<FieldExpectation>|
            #[trigger] field_issues_all(x, fs.push(fe)) == field_issues_all(x, fs) + field_issues(x, fe),
{
    lemma_volatile_kinds(x.volatile@, fe, entity_rows(x, fe.entity));
    assert forall|fs: Seq<FieldExpectation>|
        #[trigger] field_issues_all(x, fs.push(fe)) == field_issues_all(x, fs) + field_issues(x, fe) by {
        assert(fs.push(fe).drop_last() =~= fs);
    }
}

/// The rows of each entity kind are that kind's collection in the
/// extraction, in order, one row per element, keyed by the element's id;
/// the realm is a single row keyed by its name.
pub proof fn lemma_rows_are_collections(x: CanonicalRealm)
    ensures
        entity_rows(x, EntityKind::Realm).len() == 1,
        entity_rows(x, EntityKind::Realm)[0] == (x.realm.name@, x.realm.row_view()),
        entity_rows(x, EntityKind::Client).len() == x.clients@.len(),
        forall|i: int| 0 <= i < x.clients@.len() ==> #[trigger] entity_rows(x, EntityKind::Client)[i] == (x.clients@[i].id@, x.clients@[i].row_view()),
        entity_rows(x, EntityKind::ClientScope).len() == x.client_scopes@.len(),
        forall|i: int| 0 <= i < x.client_scopes@.len() ==> #[trigger] entity_rows(x, EntityKind::ClientScope)[i] == (x.client_scopes@[i].id@, x.client_scopes@[i].row_view()),
        entity_rows(x, EntityKind::Group).len() == x.groups@.len(),
        forall|i: int| 0 <= i < x.groups@.len() ==> #[trigger] entity_rows(x, EntityKind::Group)[i] == (x.groups@[i].id@, x.groups@[i].row_view()),
        entity_rows(x, EntityKind::Role).len() == x.roles@.len(),
        forall|i: int| 0 <= i < x.roles@.len() ==> #[trigger] entity_rows(x, EntityKind::Role)[i] == (x.roles@[i].id@, x.roles@[i].row_view()),
        entity_rows(x, EntityKind::User).len() == x.users@.len(),
        forall|i: int| 0 <= i < x.users@.len() ==> #[trigger] entity_rows(x, EntityKind::User)[i] == (x.users@[i].id@, x.users@[i].row_view()),
        entity_rows(x, EntityKind::Credential).len() == x.credentials@.len(),
        forall|i: int| 0 <= i < x.credentials@.len() ==> #[trigger] entity_rows(x, EntityKind::Credential)[i] == (x.credentials@[i].id@, x.credentials@[i].row_view()),
        entity_rows(x, EntityKind::ProtocolMapper).len() == x.protocol_mappers@.len(),
        forall|i: int| 0 <= i < x.protocol_mappers@.len() ==> #[trigger] entity_rows(x, EntityKind::ProtocolMapper)[i] == (x.protocol_mappers@[i].id@, x.protocol_mappers@[i].row_view()),
        entity_rows(x, EntityKind::AuthFlow).len() == x.auth_flows@.len(),
        forall|i: int| 0 <= i < x.auth_flows@.len() ==> #[trigger] entity_rows(x, EntityKind::AuthFlow)[i] == (x.auth_flows@[i].id@, x.auth_flows@[i].row_view()),
        entity_rows(x, EntityKind::IdentityProvider).len() == x.identity_providers@.len(),
        forall|i: int| 0 <= i < x.identity_providers@.len() ==> #[trigger] entity_rows(x, EntityKind::IdentityProvider)[i] == (x.identity_providers@[i].id@, x.identity_providers@[i].row_view()),
{
}

/// A kind declared required is reported missing exactly when the
/// extraction's collection of that kind is empty; the realm, always
/// present, never is.
pub proof fn lemma_required_kind_missing(x: CanonicalRealm, ee: EntityExpectation)
    ensures
        ee.entity == EntityKind::Realm ==> presence_issues(x, ee).len() == 0,
        ee.entity == EntityKind::Client ==> (presence_issues(x, ee).len() > 0 <==> ee.presence == EntityPresence::Required
            && x.clients@.len() == 0),
        ee.entity == EntityKind::ClientScope ==> (presence_issues(x, ee).len() > 0 <==> ee.presence == EntityPresence::Required
            && x.client_scopes@.len() == 0),
        ee.entity == EntityKind::Group ==> (presence_issues(x, ee).len() > 0 <==> ee.presence == EntityPresence::Required
            && x.groups@.len() == 0),
        ee.entity == EntityKind::Role ==> (presence_issues(x, ee).len() > 0 <==> ee.presence == EntityPresence::Required
            && x.roles@.len() == 0),
        ee.entity == EntityKind::User ==> (presence_issues(x, ee).len() > 0 <==> ee.presence == EntityPresence::Required
            && x.users@.len() == 0),
        ee.entity == EntityKind::Credential ==> (presence_issues(x, ee).len() > 0 <==> ee.presence == EntityPresence::Required
            && x.credentials@.len() == 0),
        ee.entity == EntityKind::ProtocolMapper ==> (presence_issues(x, ee).len() > 0 <==> ee.presence == EntityPresence::Required
            && x.protocol_mappers@.len() == 0),
        ee.entity == EntityKind::AuthFlow ==> (presence_issues(x, ee).len() > 0 <==> ee.presence == EntityPresence::Required
            && x.auth_flows@.len() == 0),
        ee.entity == EntityKind::IdentityProvider ==> (presence_issues(x, ee).len() > 0 <==> ee.presence == EntityPresence::Required
            && x.identity_providers@.len() == 0),
{
}

} // verus!
