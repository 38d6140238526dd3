//! Core logic of an on-screen application launcher: a launcher controller
//! that owns an application index, narrows a match list as the user types,
//! tracks a selection cursor, and decides what must be redrawn.
//!
//! Everything that touches the display server, the file system or the
//! environment lives outside this crate; the controller works on plain
//! values handed in from that edge.

pub mod args;
pub mod color;
pub mod config;
pub mod errors;
pub mod index;
pub mod matching;
pub mod menu;
pub mod render;
pub mod text;
