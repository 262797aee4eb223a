//! The verification output shapes: [`Severity`], [`IssueKind`],
//! [`VerificationIssue`] and [`VerificationReport`].

use vstd::prelude::*;
use vstd::string::*;

use crate::model::kind::{EntityKind, entity_label, label_spec};
use crate::text::{decimal, decimal_string};
use crate::version::{Version, version_text};

verus! {

/// Severity of a single verification issue.
#[derive(Debug, Clone, Copy, PartialEq, Eq, Structural, PartialOrd, Ord)]
pub enum Severity {
    /// A real completeness gap: required config state is missing.
    Error,
    /// Tracked state that falls short but does not block the completeness
    /// claim (e.g. a volatile field missing purely due to null session data).
    Warning,
}

/// The machine-readable category of a verification issue.
#[derive(Debug, Clone, Copy, PartialEq, Eq, Structural)]
pub enum IssueKind {
    /// A `Required` entity type has no rows.
    MissingEntity,
    /// A required field is absent from an existing row.
    MissingRequired,
    /// A non-required field is absent from every row of its entity.
    MissingOptional,
    /// A manifest-volatile field leaked into the config body.
    MisplacedVolatile,
    /// A manifest-volatile field was not captured in the volatile section.
    MissingVolatile,
}

/// A single finding from verification.
#[derive(Debug, Clone, PartialEq, Eq)]
pub struct VerificationIssue {
    /// Severity of the finding.
    pub severity: Severity,
    /// Category of the finding, for machine consumers.
    pub kind: IssueKind,
    /// The entity kind the finding concerns.
    pub entity: EntityKind,
    /// Row id the finding concerns, when row-scoped.
    pub row_id: Option<String>,
    /// The field path the finding concerns, when field-scoped.
    pub path: Option<String>,
    /// Schema version that introduced the absent field, when known.
    pub introduced_in: Option<Version>,
    /// Human-readable explanation.
    pub message: String,
}

/// The mathematical view of a [`VerificationIssue`].
pub struct IssueView {
    pub severity: Severity,
    pub kind: IssueKind,
    pub entity: EntityKind,
    pub row_id: Option<Seq<char>>,
    pub path: Option<Seq<char>>,
    pub introduced_in: Option<Version>,
    pub message: Seq<char>,
}

/// The view of an optional string.
pub open spec fn opt_view(s: Option<String>) -> Option<Seq<char>> {
    match s {
        Some(t) => Some(t@),
        None => None,
    }
}

impl View for VerificationIssue {
    type V = IssueView;

    open spec fn view(&self) -> IssueView {
        IssueView {
            severity: self.severity,
            kind: self.kind,
            entity: self.entity,
            row_id: opt_view(self.row_id),
            path: opt_view(self.path),
            introduced_in: self.introduced_in,
            message: self.message@,
        }
    }
}

/// The label of an issue kind.
pub open spec fn kind_label_spec(k: IssueKind) -> Seq<char> {
    match k {
        IssueKind::MissingEntity => "missing-entity"@,
        IssueKind::MissingRequired => "missing-required"@,
        IssueKind::MissingOptional => "missing-optional"@,
        IssueKind::MisplacedVolatile => "misplaced-volatile"@,
        IssueKind::MissingVolatile => "missing-volatile"@,
    }
}

/// The one-line summary of an issue: its kind, then where it was found
/// (entity, and row when row-scoped), then the path when there is a row and
/// a path, then the message.
pub open spec fn summary_text(i: IssueView) -> Seq<char> {
    match (i.row_id, i.path) {
        (Some(row_id), Some(path)) => kind_label_spec(i.kind) + " ["@ + label_spec(i.entity) + "/"@
            + row_id + "] "@ + path + " -> "@ + i.message,
        (Some(row_id), None) => kind_label_spec(i.kind) + " ["@ + label_spec(i.entity) + "/"@
            + row_id + "] "@ + i.message,
        _ => kind_label_spec(i.kind) + " ["@ + label_spec(i.entity) + "] "@ + i.message,
    }
}

impl VerificationIssue {
    /// A concise, human-readable one-liner.
    pub fn summary(&self) -> (r: String)
        ensures
            r@ == summary_text(self@),
    {
        match (&self.row_id, &self.path) {
            (Some(row_id), Some(path)) => {
                let s = String::from_str(self.kind_label()).concat(" [");
                let s = s.concat(self.entity_label());
                let s = s.concat("/");
                let s = s.concat(row_id.as_str());
                let s = s.concat("] ");
                let s = s.concat(path.as_str());
                let s = s.concat(" -> ");
                s.concat(self.message.as_str())
            },
            (Some(row_id), None) => {
                let s = String::from_str(self.kind_label()).concat(" [");
                let s = s.concat(self.entity_label());
                let s = s.concat("/");
                let s = s.concat(row_id.as_str());
                let s = s.concat("] ");
                s.concat(self.message.as_str())
            },
            _ => {
                let s = String::from_str(self.kind_label()).concat(" [");
                let s = s.concat(self.entity_label());
                let s = s.concat("] ");
                s.concat(self.message.as_str())
            },
        }
    }

    fn kind_label(&self) -> (r: &'static str)
        ensures
            r@ == kind_label_spec(self.kind),
    {
        match self.kind {
            IssueKind::MissingEntity => "missing-entity",
            IssueKind::MissingRequired => "missing-required",
            IssueKind::MissingOptional => "missing-optional",
            IssueKind::MisplacedVolatile => "misplaced-volatile",
            IssueKind::MissingVolatile => "missing-volatile",
        }
    }

    fn entity_label(&self) -> (r: &'static str)
        ensures
            r@ == label_spec(self.entity),
    {
        entity_label(self.entity)
    }
}

/// The complete result of running a manifest against an extraction.
///
/// Part of the output document, not a side log: completeness is a claim the
/// tool backs with evidence every time it runs.
#[derive(Debug, Clone, PartialEq, Eq)]
pub struct VerificationReport {
    /// Backend the report applies to.
    pub backend: String,
    /// Backend schema version the manifest was keyed on.
    pub against_version: Version,
    /// All findings, in manifest order.
    pub issues: Vec<VerificationIssue>,
}

/// The number of `Error`-severity findings.
pub open spec fn error_count(issues: Seq<VerificationIssue>) -> nat
    decreases issues.len(),
{
    if issues.len() == 0 {
        0
    } else {
        error_count(issues.drop_last()) + if issues.last().severity == Severity::Error {
            1nat
        } else {
            0nat
        }
    }
}

/// Whether no finding has `Error` severity.
pub open spec fn no_errors(issues: Seq<VerificationIssue>) -> bool {
    forall|i: int| 0 <= i < issues.len() ==> (#[trigger] issues[i]).severity != Severity::Error
}

/// There are no errors exactly when the error count is zero.
pub proof fn lemma_no_errors_iff_zero(issues: Seq<VerificationIssue>)
    ensures
        no_errors(issues) <==> error_count(issues) == 0,
    decreases issues.len(),
{
    if issues.len() > 0 {
        lemma_no_errors_iff_zero(issues.drop_last());
        if no_errors(issues) {
            assert forall|i: int| 0 <= i < issues.drop_last().len() implies (#[trigger] issues.drop_last()[i]).severity != Severity::Error by {
                assert(issues.drop_last()[i] == issues[i]);
            }
        }
        if error_count(issues) == 0 {
            assert forall|i: int| 0 <= i < issues.len() implies (#[trigger] issues[i]).severity != Severity::Error by {
                if i < issues.len() - 1 {
                    assert(issues.drop_last()[i] == issues[i]);
                }
            }
        }
    }
}

/// The text of a report description.
pub open spec fn report_text(r: VerificationReport) -> Seq<char> {
    "VerificationReport("@ + r.backend@ + " @ "@ + version_text(r.against_version) + ", "@
        + decimal(error_count(r.issues@)) + " errors, "@ + decimal(
        (r.issues@.len() - error_count(r.issues@)) as nat,
    ) + " warnings, "@ + decimal(r.issues@.len()) + " issues)"@
}

impl VerificationReport {
    /// Whether the extraction is complete: no `Error`-severity findings.
    pub fn is_complete(&self) -> (r: bool)
        ensures
            r == no_errors(self.issues@),
    {
        let n = self.issues.len();
        for i in 0..n
            invariant
                n == self.issues@.len(),
                forall|j: int| 0 <= j < i ==> (#[trigger] self.issues@[j]).severity != Severity::Error,
        {
            if self.issues[i].severity == Severity::Error {
                return false;
            }
        }
        true
    }

    /// Counts of `(errors, warnings)`.
    pub fn counts(&self) -> (r: (usize, usize))
        ensures
            r.0 == error_count(self.issues@),
            r.0 + r.1 == self.issues@.len(),
    {
        let n = self.issues.len();
        let mut errors: usize = 0;
        assert(self.issues@.take(0) =~= Seq::<VerificationIssue>::empty());
        for i in 0..n
            invariant
                n == self.issues@.len(),
                errors == error_count(self.issues@.take(i as int)),
                errors <= i,
        {
            assert(self.issues@.take(i + 1).drop_last() =~= self.issues@.take(i as int));
            if self.issues[i].severity == Severity::Error {
                errors = errors + 1;
            }
        }
        assert(self.issues@.take(n as int) =~= self.issues@);
        (errors, n - errors)
    }

    /// A one-line description: backend, version and counts.
    pub fn to_string(&self) -> (r: String)
        ensures
            r@ == report_text(*self),
    {
        let (errors, warnings) = self.counts();
        let s = String::from_str("VerificationReport(").concat(self.backend.as_str());
        let s = s.concat(" @ ");
        let s = s.concat(self.against_version.to_string().as_str());
        let s = s.concat(", ");
        let s = s.concat(decimal_string(errors as u64).as_str());
        let s = s.concat(" errors, ");
        let s = s.concat(decimal_string(warnings as u64).as_str());
        let s = s.concat(" warnings, ");
        let s = s.concat(decimal_string(self.issues.len() as u64).as_str());
        s.concat(" issues)")
    }
}

} // verus!
