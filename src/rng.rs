//! The pseudo-random source of a simulation, provided by the `rand` crate.

use rand::Rng;
use rand::SeedableRng;
use vstd::prelude::*;

verus! {

/// The small, fast generator of `rand`, carried through the simulation as
/// an opaque value.
#[verifier::external_type_specification]
#[verifier::external_body]
pub struct ExSmallRng(rand::rngs::SmallRng);

/// Relies on `rand::SeedableRng::seed_from_u64` for `SmallRng`: a generator
/// whose stream is fixed by the seed.
#[verifier::external_body]
pub(crate) fn seeded(seed: u64) -> (r: rand::rngs::SmallRng) {
    rand::rngs::SmallRng::seed_from_u64(seed)
}

/// Relies on `rand::SeedableRng::from_rng` for `SmallRng`, fed by
/// `rand::rngs::OsRng`: a generator seeded by the operating system, or
/// nothing when the operating system cannot supply the seed. It does not
/// panic.
#[verifier::external_body]
pub(crate) fn from_os() -> (r: Option<rand::rngs::SmallRng>) {
    rand::rngs::SmallRng::from_rng(rand::rngs::OsRng).ok()
}

/// Relies on `rand::Rng::gen_range` over `0..bound`: a value below `bound`,
/// uniformly distributed. It panics on an empty range, which `requires`
/// leaves out.
#[verifier::external_body]
pub(crate) fn below(rng: &mut rand::rngs::SmallRng, bound: u64) -> (r: u64)
    requires
        bound > 0,
    ensures
        r < bound,
{
    rng.gen_range(0..bound)
}

} // verus!
