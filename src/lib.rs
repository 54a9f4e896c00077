//! Window-placement policy and frame composition for a workspace-based
//! compositor: virtual desktops, z-order, focus, fullscreen and the list of
//! outlined window elements that make up a frame.

pub mod config;
pub mod fullscreen;
pub mod geometry;
pub mod output;
pub mod render;
pub mod shell;
pub mod tracking;
pub mod watcher;
pub mod workspace;
pub mod workspaces;
