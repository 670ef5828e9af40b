//! Chunks of indexed code.
use vstd::prelude::*;

verus! {

/// The text of an indexed chunk: the file it came from and its content.
/// Its embedding vector (floating point) is held beside it by the index
/// outside this library.
#[derive(Debug, Clone)]
pub struct CodeChunk {
    pub file_path: String,
    pub content: String,
}

} // verus!
