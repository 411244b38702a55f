//! Isometric tile coordinates and their drawing order.
use vstd::prelude::*;

verus! {

/// A coordinate in tile space.
#[derive(Clone, Copy, Debug, Default, PartialEq, Eq, Structural)]
pub struct IsometricCoord {
    /// Column (east-west).
    pub col: i32,
    /// Row (north-south).
    pub row: i32,
    /// Height layer.
    pub height: i32,
}

impl IsometricCoord {
    /// A coordinate at a column, row and height.
    pub fn new(col: i32, row: i32, height: i32) -> (r: Self)
        ensures
            r == (IsometricCoord { col, row, height }),
    {
        Self { col, row, height }
    }

    /// A coordinate on the ground layer.
    pub fn flat(col: i32, row: i32) -> (r: Self)
        ensures
            r == (IsometricCoord { col, row, height: 0 }),
    {
        Self { col, row, height: 0 }
    }
}

/// The sort key of a tile for 2D isometric drawing: the tile's diagonal
/// (row + column) in steps of 100, plus its height.
pub open spec fn depth_of(c: IsometricCoord) -> int {
    (c.row + c.col) * 100 + c.height
}

/// The depth key fits in an `i32`, and so does every step of computing it.
pub open spec fn depth_fits(c: IsometricCoord) -> bool {
    &&& i32::MIN <= c.row + c.col <= i32::MAX
    &&& i32::MIN <= (c.row + c.col) * 100 <= i32::MAX
    &&& i32::MIN <= depth_of(c) <= i32::MAX
}

/// The depth used to sort sprites: tiles further from the camera (higher
/// row + column) get a larger depth and are drawn first.
pub fn calculate_depth(coord: IsometricCoord) -> (d: i32)
    requires
        depth_fits(coord),
    ensures
        d == depth_of(coord),
{
    (coord.row + coord.col) * 100 + coord.height
}

/// Depth orders tiles by diagonal first, then by height, as long as heights
/// stay within one diagonal step (0 to 99).
pub proof fn lemma_depth_order(a: IsometricCoord, b: IsometricCoord)
    requires
        0 <= a.height < 100,
        0 <= b.height < 100,
    ensures
        a.row + a.col < b.row + b.col ==> depth_of(a) < depth_of(b),
        a.row + a.col == b.row + b.col && a.height < b.height ==> depth_of(a) < depth_of(b),
{
}

} // verus!
