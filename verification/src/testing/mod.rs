//! Shared contract checks that every adapter runs against its own output:
//! determinism of canonical serialization, volatile segregation, manifest
//! honesty and completeness of a constructed extraction, with sample data
//! to exercise them.

pub mod assertions;
pub mod sample;

pub use assertions::{
    assert_canonical_deterministic, assert_manifest_valid, assert_verification_complete,
    assert_volatile_segregation, check_manifest_valid, check_verification_complete,
    check_volatile_segregation,
};
pub use sample::{sample_manifest, sample_realm};
