//! Core of a tiling window manager: screens, per-screen workspaces, the
//! clients placed on them, tall-layout geometry, and directional navigation.
//!
//! Window and frame identifiers are plain `u32` display-protocol resource
//! ids; all display-server I/O lives outside this crate and hands values in
//! and out through these types.

pub mod color;
pub mod events;
pub mod keysyms;
pub mod position;
pub mod screen;
pub mod screen_manager;
pub mod tall_layout;
