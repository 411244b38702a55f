//! Cells of the uniform spatial grid.
use vstd::prelude::*;

verus! {

/// Grid cell identifier.
#[derive(Clone, Copy, Debug, PartialEq, Eq, Hash, Structural)]
pub struct GridCell {
    pub x: i32,
    pub y: i32,
    pub z: i32,
}

impl GridCell {
    /// The cell at the given grid coordinates.
    pub fn new(x: i32, y: i32, z: i32) -> (r: Self)
        ensures
            r == (GridCell { x, y, z }),
    {
        Self { x, y, z }
    }
}

} // verus!
