//! Xtreme Engine: the editor's bookkeeping (prefab overrides and instances,
//! selection, keyboard shortcuts, scene state), input state tracking and a
//! few integer helpers for isometric tiles, all stated and proved with Verus.
pub mod assoc;
pub mod editor;
pub mod input;
pub mod math;
pub mod particles;
pub mod paths;
pub mod physics;
pub mod text;
