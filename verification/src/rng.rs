//! Randomness: the generator type and the one draw the library needs.

use vstd::prelude::*;

verus! {

/// The random generator behind every selection, from the rand crate.
#[verifier::external_type_specification]
#[verifier::external_body]
pub struct ExStdRng(rand::rngs::StdRng);

/// Relies on rand's `Rng::gen_range` over the range `0..n`, which the
/// precondition keeps non-empty. Nothing beyond membership in the range can
/// be promised of a random draw.
#[verifier::external_body]
pub(crate) fn rng_below(rng: &mut rand::rngs::StdRng, n: usize) -> (r: usize)
    requires
        n > 0,
    ensures
        r < n,
{
    rand::Rng::gen_range(rng, 0..n)
}

} // verus!
