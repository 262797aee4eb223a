//! The completeness-verification port.

use vstd::prelude::*;
use vstd::string::*;

use crate::model::envelope::CanonicalRealm;
use crate::verify::engine::{ManifestVerifier, issues_view, report_issues};
use crate::verify::manifest::{FieldManifest, manifest_valid};
use crate::verify::report::VerificationReport;
use crate::version::Version;

verus! {

/// Supplies the completeness contract for a backend version and checks an
/// extraction against it.
///
/// Adapters implement `expected_fields`, deriving the manifest from the
/// backend's own schema history. `verify` has a default implementation
/// backed by the shared [`ManifestVerifier`] engine; an adapter only
/// overrides it when its backend needs semantics beyond field presence.
pub trait CompletenessVerifier: Send + Sync {
    /// The fields a given backend schema version is expected to carry.
    fn expected_fields(&self, backend_version: &Version) -> FieldManifest;

    /// Turn an extraction plus its manifest into a report. The report is
    /// part of the output, not a side log. The manifest must pass its own
    /// consistency checks: an inconsistent one is an adapter bug, never an
    /// incomplete realm.
    fn verify(&self, extracted: &CanonicalRealm, manifest: &FieldManifest) -> (r: VerificationReport)
        requires
            manifest_valid(*manifest),
        default_ensures
            r.backend@ == manifest.backend@,
            r.against_version == manifest.for_version,
            issues_view(r.issues@) == report_issues(*extracted, *manifest),
    {
        let engine = ManifestVerifier;
        match engine.verify(extracted, manifest) {
            Ok(report) => report,
            Err(_) => {
                proof {
                    assert(false);
                }
                VerificationReport {
                    backend: String::new(),
                    against_version: Version::new(0, 0, 0),
                    issues: Vec::new(),
                }
            },
        }
    }
}

} // verus!
