//! Random numbers, by the `rand` crate.

use vstd::prelude::*;

verus! {

/// `rand::random`: a number of 32 bits drawn at random, of which nothing is
/// stated.
#[verifier::external_body]
pub(crate) fn random_u32() -> u32 {
    rand::random::<u32>()
}

} // verus!
