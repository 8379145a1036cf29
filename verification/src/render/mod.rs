//! The rendering decisions: which item plays in an area, in which phase of
//! its effect, and what the effect draws.

pub mod effects;
pub mod engine;
pub mod plugins;
