//! Rendering options of particle emitters.
use vstd::prelude::*;

verus! {

/// Blend mode for particle rendering.
#[derive(Clone, Copy, Debug, PartialEq, Eq, Structural)]
pub enum BlendMode {
    /// Standard alpha blending.
    Alpha,
    /// Additive blending (fire, glow).
    Additive,
    /// Multiplicative blending.
    Multiply,
    /// Pre-multiplied alpha.
    PremultipliedAlpha,
}

impl Default for BlendMode {
    fn default() -> (r: Self)
        ensures
            r == BlendMode::Alpha,
    {
        BlendMode::Alpha
    }
}

} // verus!
