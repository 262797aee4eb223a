//! The canonical (backend-agnostic) model.
//!
//! Every entity carries a minimal set of common fields, including the
//! entity's canonical identity key, plus a single open escape hatch,
//! `native`, which holds the backend's own faithful representation.

pub mod entities;
pub mod envelope;
pub mod kind;
pub mod volatile;

pub use entities::{
    AuthFlow, CanonicalRow, Client, ClientScope, Credential, Group, IdentityProvider,
    ProtocolMapper, Realm, Role, User,
};
pub use envelope::{BackendInfo, CanonicalRealm, ExtractScope};
pub use kind::{EntityKind, entity_label};
pub use volatile::VolatileSection;
