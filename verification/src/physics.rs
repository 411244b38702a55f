//! Collision bookkeeping and spatial grid cells.
pub mod collision;
pub mod spatial;
