//! Device selection and random-state glue for a CPU tensor backend. The
//! process-wide random generator of the surrounding system is modelled as an
//! explicit state object rather than global mutable state; building the
//! generator from a seed is delegated to the `rand` crate.

use vstd::prelude::*;

verus! {

/// The device type for the CPU array backend.
#[derive(Clone, Copy, Debug, PartialEq, Eq, Structural)]
pub enum NdArrayDevice {
    /// The CPU device.
    Cpu,
}

impl Default for NdArrayDevice {
    fn default() -> (r: Self)
        ensures
            r == NdArrayDevice::Cpu,
    {
        NdArrayDevice::Cpu
    }
}

#[verifier::external_type_specification]
#[verifier::external_body]
pub struct ExStdRng(rand::rngs::StdRng);

/// Relies on rand's `StdRng::seed_from_u64` (via `SeedableRng`) to build a
/// generator from a 64-bit seed. Nothing is assumed of the generator itself.
#[verifier::external_body]
fn rng_from_seed(seed: u64) -> rand::rngs::StdRng {
    <rand::rngs::StdRng as rand::SeedableRng>::seed_from_u64(seed)
}

/// Explicit holder for the backend's random generator: unseeded until `seed`
/// is called, then carries a generator built from the given seed.
#[derive(Debug)]
pub struct SeedState {
    rng: Option<rand::rngs::StdRng>,
}

impl SeedState {
    /// Whether a generator has been installed.
    pub closed spec fn is_seeded(self) -> bool {
        self.rng is Some
    }

    /// A fresh, unseeded state.
    pub fn new() -> (r: Self)
        ensures
            !r.is_seeded(),
    {
        SeedState { rng: None }
    }

    /// Install a generator deterministically derived from `seed`.
    pub fn seed(&mut self, seed: u64)
        ensures
            final(self).is_seeded(),
    {
        self.rng = Some(rng_from_seed(seed));
    }
}

} // verus!
