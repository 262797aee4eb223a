//! Deterministic serialization and content hashing.
//!
//! Running an extraction twice against an unchanged source produces
//! byte-identical output, so a diff on the output reflects real configuration
//! change, never extraction noise. Object keys are sorted by the writer
//! itself, arrays keep their order, and the content hash covers only the
//! config portion of an extraction.

pub mod config;
pub mod hash;
pub mod order;
pub mod writer;

pub use config::config_bytes;
pub use hash::content_hash;
pub use writer::canonical_bytes;
