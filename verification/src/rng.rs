//! Randomness for the random-AND instruction.
use vstd::prelude::*;
use rand::RngExt;

verus! {

/// Relies on `rand::rng()` and `rand::RngExt::random`: one byte from the
/// thread-local generator. Nothing is promised of the value — every
/// caller is verified for all 256 possible bytes.
#[verifier::external_body]
pub(crate) fn random_byte() -> u8 {
    let mut r = rand::rng();
    r.random()
}

} // verus!
