//! The collision world.
use vstd::prelude::*;

verus! {

/// Collision world for managing all colliders. It holds no data yet, so
/// every value of it is the same empty world.
pub struct CollisionWorld {
    _placeholder: (),
}

impl CollisionWorld {
    /// An empty collision world.
    pub fn new() -> Self {
        Self { _placeholder: () }
    }
}

impl Default for CollisionWorld {
    fn default() -> Self {
        Self::new()
    }
}

} // verus!
