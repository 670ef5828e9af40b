//! The command line: which mode to run in and its paths.
use vstd::prelude::*;

verus! {

/// The parsed command line.
#[derive(Debug, Clone)]
pub struct Cli {
    pub command: Commands,
}

/// The two ways to run the tool. Paths are held as the text given.
#[derive(Debug, Clone)]
pub enum Commands {
    /// The interactive chat, on the project at `path`, indexing it again
    /// first when `reindex` is set.
    Chat { path: String, reindex: bool, index_file: String },
    /// Indexing the directory at `path` without starting the chat.
    Index { path: String, index_file: String },
}

} // verus!
