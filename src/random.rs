//! The random number generators of a request worker.
use vstd::prelude::*;

use rand::Rng;

verus! {

/// rand's cryptographically strong generator, used for cookies; opaque here.
#[verifier::external_type_specification]
#[verifier::external_body]
pub struct ExStdRng(rand::rngs::StdRng);

/// rand's fast generator, used for peer sampling; opaque here.
#[verifier::external_type_specification]
#[verifier::external_body]
pub struct ExSmallRng(rand::rngs::SmallRng);

/// Relies on rand's `Rng::gen` for `u64`: any value may come back.
#[verifier::external_body]
pub(crate) fn gen_u64(rng: &mut rand::rngs::StdRng) -> (r: u64) {
    rng.gen::<u64>()
}

/// Relies on rand's `Rng::gen_range(low, high)`: a value in `[low, high)`; it panics unless
/// `low < high`.
#[verifier::external_body]
pub(crate) fn gen_range_usize(rng: &mut rand::rngs::SmallRng, low: usize, high: usize) -> (r: usize)
    requires
        low < high,
    ensures
        low <= r < high,
{
    rng.gen_range(low, high)
}

} // verus!
