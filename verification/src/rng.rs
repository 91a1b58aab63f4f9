//! The pseudo-random generator, supplied by the `rand` crate.
//!
//! The generator is opaque to the verifier: nothing is promised of the bytes
//! it produces, and every caller states what holds of its state whatever
//! byte comes back.

use vstd::prelude::*;

use rand::Rng;
use rand::SeedableRng;

verus! {

#[verifier::external_type_specification]
#[verifier::external_body]
pub struct ExStdRng(rand::rngs::StdRng);

/// Relies on rand's `StdRng::from_entropy`, which seeds a fresh generator
/// from the operating system's entropy source.
#[verifier::external_body]
pub(crate) fn seed_rng() -> rand::rngs::StdRng {
    rand::rngs::StdRng::from_entropy()
}

/// Relies on rand's `Rng::gen::<u8>`, which draws one byte from the
/// generator; nothing is promised of its value.
#[verifier::external_body]
pub(crate) fn random_byte(rng: &mut rand::rngs::StdRng) -> u8 {
    rng.gen()
}

} // verus!
