//! The randomizer's source of randomness: a seedable generator of the
//! rand crate, held behind a single trusted wrapper. Every contract in the
//! crate holds for every value the generator can produce.

use vstd::prelude::*;

verus! {

/// Declares rand's StdRng so it can stand in signatures; its values are
/// opaque here.
#[verifier::external_type_specification]
#[verifier::external_body]
pub struct ExStdRng(rand::rngs::StdRng);

/// Relies on rand's Rng::gen_range over the half-open range `0..n`: the
/// result is drawn uniformly and is strictly below `n`. The call panics on
/// an empty range, which the precondition rules out.
#[verifier::external_body]
pub(crate) fn rng_index(rng: &mut rand::rngs::StdRng, n: usize) -> (r: usize)
    requires
        n > 0,
    ensures
        r < n,
{
    rand::Rng::gen_range(rng, 0..n)
}

} // verus!
