//! Resolution of a node agent's running configuration from partial sources.

pub mod address;
pub mod config;
pub mod error;
pub mod field;
pub mod json;
pub mod labels;
pub mod laws;
pub mod paths;
pub mod sources;
