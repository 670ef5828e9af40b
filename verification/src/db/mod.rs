//! Stored chunks of indexed code and per-file metadata.
pub mod metadata;
pub mod store;

pub use store::CodeChunk;
