//! Indirect draw arguments for GPU-driven particle rendering.
use vstd::prelude::*;

verus! {

/// Indirect draw arguments.
#[derive(Clone, Copy, Debug, PartialEq, Eq, Structural)]
pub struct DrawIndirectArgs {
    /// Vertices per instance (6 for a quad).
    pub vertex_count: u32,
    /// Number of instances (particles).
    pub instance_count: u32,
    /// First vertex.
    pub first_vertex: u32,
    /// First instance.
    pub first_instance: u32,
}

impl Default for DrawIndirectArgs {
    fn default() -> (r: Self)
        ensures
            r == (DrawIndirectArgs {
                vertex_count: 6,
                instance_count: 0,
                first_vertex: 0,
                first_instance: 0,
            }),
    {
        Self { vertex_count: 6, instance_count: 0, first_vertex: 0, first_instance: 0 }
    }
}

} // verus!
