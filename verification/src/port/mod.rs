//! The ports (traits) every backend adapter implements.
//!
//! Core defines what the system needs, knowing nothing about how any backend
//! provides it. Adapters are concrete implementations of these traits
//! against one backend's database.

pub mod completeness_verifier;
pub mod output_sink;

pub use completeness_verifier::CompletenessVerifier;
pub use output_sink::OutputSink;
