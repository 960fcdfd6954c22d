//! The source of randomness: rand's `StdRng`, declared opaquely, behind
//! wrappers that state only what holds of every draw.
//!
//! Every sampling routine of the renderer takes the generator explicitly, so
//! a fixed seed reproduces a render exactly.

use vstd::prelude::*;

verus! {

#[verifier::external_type_specification]
#[verifier::external_body]
pub struct ExStdRng(rand::rngs::StdRng);

/// Relies on rand's `SeedableRng::seed_from_u64`: builds a deterministic
/// generator from a seed.
#[verifier::external_body]
pub fn rng_from_seed(seed: u64) -> rand::rngs::StdRng {
    rand::SeedableRng::seed_from_u64(seed)
}

/// Relies on rand's `Rng::gen_range` over `0..n`: a draw strictly below the
/// bound; the nonempty range never panics.
#[verifier::external_body]
pub fn rand_below(rng: &mut rand::rngs::StdRng, n: u64) -> (r: u64)
    requires
        1 <= n,
    ensures
        r < n,
{
    rand::Rng::gen_range(rng, 0..n)
}

} // verus!
