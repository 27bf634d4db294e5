//! The library's only sources of nondeterminism: random number generators
//! and the wall clock.  Every item here is a thin trusted boundary around
//! the `rand` crate or `std::time`; everything that depends on the values
//! drawn is verified code that takes them as arguments.
use vstd::prelude::*;

use rand::Rng;
use rand::SeedableRng;

verus! {

#[verifier::external_type_specification]
#[verifier::external_body]
pub struct ExSmallRng(rand::rngs::SmallRng);

#[verifier::external_type_specification]
#[verifier::external_body]
pub struct ExThreadRng(rand::rngs::ThreadRng);

/// Relies on `SeedableRng::seed_from_u64`: builds a generator from a seed;
/// it never fails.  Nothing is claimed of the stream it produces.
#[verifier::external_body]
pub fn rng_from_seed(seed: u64) -> rand::rngs::SmallRng {
    rand::rngs::SmallRng::seed_from_u64(seed)
}

/// Relies on `SeedableRng::from_rng`: forks an independent generator off
/// `master`; it never fails.  Nothing is claimed of the stream it produces.
#[verifier::external_body]
pub fn fork_rng(master: &mut rand::rngs::SmallRng) -> rand::rngs::SmallRng {
    rand::rngs::SmallRng::from_rng(master)
}

/// Relies on `Rng::random_range` over `0..bound`: returns a uniform draw
/// from that range and panics only when the range is empty, which the
/// precondition rules out.
#[verifier::external_body]
pub fn rng_below(rng: &mut rand::rngs::SmallRng, bound: u32) -> (r: u32)
    requires
        0 < bound,
    ensures
        r < bound,
{
    rng.random_range(0..bound)
}

/// Relies on `Rng::random_range` over `0..len`: returns a uniform index
/// below `len` and panics only when the range is empty, which the
/// precondition rules out.
#[verifier::external_body]
pub fn rng_index(rng: &mut rand::rngs::ThreadRng, len: usize) -> (r: usize)
    requires
        0 < len,
    ensures
        r < len,
{
    rng.random_range(0..len)
}

/// A uniformly random element of a non-empty slice.
pub fn random_item<T: Copy>(a: &[T], rng: &mut rand::rngs::ThreadRng) -> (r: T)
    requires
        0 < a@.len(),
    ensures
        exists|i: int| 0 <= i < a@.len() && r == a@[i],
{
    let random_index: usize = rng_index(rng, a.len());
    a[random_index]
}

/// Relies on `std::time::SystemTime`: milliseconds since the Unix epoch,
/// by the machine's clock.  Nothing is claimed of the value.
#[verifier::external_body]
pub fn current_time_millis() -> u128 {
    std::time::SystemTime::now().duration_since(std::time::UNIX_EPOCH).unwrap().as_millis()
}

} // verus!
