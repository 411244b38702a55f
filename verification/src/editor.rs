//! The editor's state: shortcuts, selection, prefabs and scenes.
pub mod shortcuts;
pub mod prefab;
pub mod selection;
pub mod scene;
pub mod panels;
pub mod project;
pub mod viewport;
