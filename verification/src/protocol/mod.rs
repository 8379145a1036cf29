//! The TCP and UDP dialects spoken with the authoring tool.

pub mod command;
pub mod discovery;
pub mod server;
pub mod session;
