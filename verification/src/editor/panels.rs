//! The editor's panels: the state they keep and the choices they make.
pub mod asset_browser;
pub mod console;
pub mod hierarchy;
pub mod inspector;
pub mod scripts;
pub mod toolbar;
