//! Cliché: the verified core of a local screenshot utility.
pub mod text;
pub mod order;
pub mod timing;
pub mod geometry;
pub mod capture;
pub mod settings;
pub mod ipc;
pub mod lifecycle;
pub mod launch;
pub mod compositor;
pub mod clipboard;
pub mod shortcut;
pub mod shortcuts;
pub mod veil;
