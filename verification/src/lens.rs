//! Lens rules: what they are, how they match a file's metadata, and the
//! store that keeps them.

pub mod mapping;
pub mod store;
pub mod metadata;
