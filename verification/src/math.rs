//! Coordinate utilities.
pub mod isometric;
