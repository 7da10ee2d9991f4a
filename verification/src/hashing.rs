//! The content hash of a file, by the `metrohash` crate.

use vstd::prelude::*;

verus! {

/// The 64-bit MetroHash of `bytes` with seed 0: `metrohash::MetroHash64`,
/// written to once and finished. The value depends on the byte order of the
/// machine, so nothing is stated of it.
#[verifier::external_body]
pub(crate) fn content_hash(bytes: &[u8]) -> u64 {
    let mut hasher = metrohash::MetroHash64::new();
    std::hash::Hasher::write(&mut hasher, bytes);
    std::hash::Hasher::finish(&hasher)
}

} // verus!
