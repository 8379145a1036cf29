//! Programs: the typed tree that a sign shows, and how it is found in a request.

pub mod model;
pub mod parser;
