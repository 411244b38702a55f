//! Keyboard and mouse button state tracking.
pub mod keyboard;
pub mod mouse;
