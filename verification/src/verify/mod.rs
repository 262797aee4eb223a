//! Completeness verification: manifests, reports, the shared engine, and the
//! path resolver.

pub mod engine;
pub mod laws;
pub mod manifest;
pub mod path;
pub mod report;

pub use engine::{ManifestVerifier, rows_by_entity};
pub use path::resolve_path;
pub use manifest::{EntityExpectation, EntityPresence, FieldExpectation, FieldManifest};
pub use report::{IssueKind, Severity, VerificationIssue, VerificationReport};
