//! Randomness source for sampling and playouts, behind a small trusted
//! boundary around the `rand` crate.

use vstd::prelude::*;

verus! {

/// The pseudo-random generator all sampling runs on.
#[verifier::external_type_specification]
#[verifier::external_body]
pub struct ExSmallRng(rand::rngs::SmallRng);

/// Relies on rand's `Rng::random_range`: returns a value drawn from `0..n`;
/// panics only on an empty range, which the precondition rules out.
#[verifier::external_body]
pub fn rand_below(rng: &mut rand::rngs::SmallRng, n: u64) -> (r: u64)
    requires
        n > 0,
    ensures
        r < n,
{
    rand::Rng::random_range(rng, 0..n)
}

/// Relies on rand's `Rng::random_range`: returns a value drawn from `0..n`;
/// panics only on an empty range, which the precondition rules out.
#[verifier::external_body]
pub fn rand_below_u128(rng: &mut rand::rngs::SmallRng, n: u128) -> (r: u128)
    requires
        n > 0,
    ensures
        r < n,
{
    rand::Rng::random_range(rng, 0..n)
}

/// Relies on rand's `Rng::random_range`: returns a value drawn from `0..n`;
/// panics only on an empty range, which the precondition rules out.
#[verifier::external_body]
pub fn rand_below_usize(rng: &mut rand::rngs::SmallRng, n: usize) -> (r: usize)
    requires
        n > 0,
    ensures
        r < n,
{
    rand::Rng::random_range(rng, 0..n)
}

} // verus!
