//! Content fingerprinting.

use vstd::prelude::*;

use crate::canonical::config::config_bytes;
use crate::canonical::writer::canonical;
use crate::error::Result;
use crate::model::envelope::{CanonicalRealm, config_json};

verus! {

/// The SHA-256 digest of a byte string.
pub uninterp spec fn sha256_digest(data: Seq<u8>) -> Seq<u8>;

/// `sha2::Sha256`: a fresh hasher fed `data` once, then finalized.
///
/// Trusted: the digest is a function of the input bytes alone; what it is
/// for given bytes is named, not stated.
#[verifier::external_body]
fn sha256(data: &[u8]) -> (r: [u8; 32])
    ensures
        r@ == sha256_digest(data@),
{
    let mut hasher = <sha2::Sha256 as sha2::Digest>::new();
    sha2::Digest::update(&mut hasher, data);
    sha2::Digest::finalize(hasher).into()
}

/// SHA-256 fingerprint of the config portion of an extraction.
///
/// Two runs with the same config have the same hash. The volatile section is
/// excluded, so volatile churn between runs never changes the hash.
pub fn content_hash(realm: &CanonicalRealm) -> (r: Result<[u8; 32]>)
    ensures
        r matches Ok(h) && h@ == sha256_digest(canonical(config_json(*realm))),
{
    let bytes = config_bytes(realm)?;
    Ok(sha256(bytes.as_slice()))
}

} // verus!
