//! A network-driven player for small LED signage displays.
//!
//! The crate holds the wire protocol, the command dispatcher and the
//! rendering decisions of the player. Sockets, files and pixel output are
//! left to the program built around it.

pub mod config;
pub mod player;
pub mod program;
pub mod protocol;
pub mod render;
pub mod services;
pub mod text;
