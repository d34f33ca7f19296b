use rand::rngs::OsRng;
use rand::rngs::StdRng;
use rand::Rng;
use rand::SeedableRng;
use vstd::prelude::*;

verus! {

/// `rand::rngs::StdRng`, the generator that the draws come from. Its state is
/// not visible here: a value of it is only carried to `next_draw`.
#[verifier::external_type_specification]
#[verifier::external_body]
pub struct ExStdRng(rand::rngs::StdRng);

/// `rand::Error`, which `StdRng::from_rng` returns when its source fails.
#[verifier::external_type_specification]
#[verifier::external_body]
pub struct ExRandError(rand::Error);

/// Calls `StdRng::from_rng(OsRng)`: a fresh generator whose seed is read
/// from the operating system, or the error of that read. Nothing is claimed
/// of either outcome.
#[verifier::external_body]
pub(crate) fn entropy_generator() -> (source: Result<StdRng, rand::Error>) {
    StdRng::from_rng(OsRng)
}

/// Calls `Rng::gen::<u32>` on the generator, which advances it and returns
/// its next 32 bits. Nothing is claimed of the number drawn.
#[verifier::external_body]
pub(crate) fn next_draw(rng: &mut StdRng) -> (draw: u32) {
    rng.gen::<u32>()
}

} // verus!
