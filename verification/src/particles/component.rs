//! Handles and options of particle components.
use vstd::prelude::*;

verus! {

/// Handle to the GPU resources of a particle system.
#[derive(Clone, Copy, Debug, PartialEq, Eq, Structural)]
pub struct ParticleSystemHandle {
    /// Index into the buffer pool array.
    pub buffer_index: usize,
    /// Currently alive particles.
    pub alive_count: u32,
    /// Maximum particles.
    pub max_particles: u32,
}

/// How an attractor's force falls off with distance.
#[derive(Clone, Copy, Debug, PartialEq, Eq, Structural)]
pub enum AttractorFalloff {
    /// Constant force within the radius.
    Constant,
    /// Linear falloff.
    Linear,
    /// Inverse square (realistic).
    InverseSquare,
}

impl Default for AttractorFalloff {
    fn default() -> (r: Self)
        ensures
            r == AttractorFalloff::InverseSquare,
    {
        AttractorFalloff::InverseSquare
    }
}

/// One step of the emitters' random sequence, a linear congruential
/// generator: `1103515245 * seed + 12345`, modulo 2^32.
pub open spec fn lcg_step(seed: u32) -> u32 {
    ((seed as nat * 1103515245 + 12345) % 0x1_0000_0000) as u32
}

/// An emitter's next random seed.
pub fn next_seed(seed: u32) -> (r: u32)
    ensures
        r == lcg_step(seed),
{
    let m = seed.wrapping_mul(1103515245);
    let r = m.wrapping_add(12345);
    proof {
        let x = seed as int * 1103515245;
        vstd::arithmetic::div_mod::lemma_add_mod_noop(x, 12345, 0x1_0000_0000);
        assert(12345int % 0x1_0000_0000 == 12345);
        assert(m as int == x % 0x1_0000_0000);
        assert(r as int == (m as int + 12345) % 0x1_0000_0000);
    }
    r
}

} // verus!
