//! Canonical domain model, completeness verification and idempotent output
//! for a read-only tool that pulls the complete configuration state of an
//! IAM system out of its database as one backend-agnostic JSON document.
//!
//! Three guarantees, each proved against its contract:
//!
//! 1. Completeness: a [`FieldManifest`] describes every field a backend
//!    version must carry, and the [`ManifestVerifier`] checks an extraction
//!    against it into a [`VerificationReport`].
//! 2. Idempotency: [`canonical_bytes`] is byte-stable and independent of
//!    object member order, and [`content_hash`] fingerprints the config
//!    portion only, so volatile churn never changes it.
//! 3. Testability: the [`testing`] module holds the contract checks every
//!    adapter runs against its own output.

pub mod canonical;
pub mod error;
pub mod json;
pub mod keyed;
pub mod model;
pub mod port;
pub mod testing;
pub mod text;
pub mod verify;
pub mod version;
pub mod version_order;

pub use canonical::{canonical_bytes, config_bytes, content_hash};
pub use error::{Error, Result};
pub use json::JsonValue;
pub use model::{
    AuthFlow, BackendInfo, CanonicalRealm, CanonicalRow, Client, ClientScope, Credential,
    EntityKind, ExtractScope, Group, IdentityProvider, ProtocolMapper, Realm, Role, User,
    VolatileSection, entity_label,
};
pub use port::{CompletenessVerifier, OutputSink};
pub use verify::{
    EntityExpectation, EntityPresence, FieldExpectation, FieldManifest, IssueKind,
    ManifestVerifier, Severity, VerificationIssue, VerificationReport, resolve_path,
};
pub use version::Version;
