//! The content renderers' decisions, one module per kind of content.

pub mod clock;
pub mod gif;
pub mod image;
pub mod text;
pub mod video;
