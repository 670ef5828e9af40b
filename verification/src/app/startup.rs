//! How a chat session starts, and the lines printed while indexing from the
//! command line.
use crate::text::{decimal, push_decimal, push_str, to_string};
use vstd::prelude::*;

verus! {

/// How a chat session starts.
#[derive(Debug, Clone, Copy, PartialEq, Eq, Structural)]
pub enum StartMode {
    /// Load the saved index.
    LoadIndex,
    /// Index the project first.
    IndexFirst,
    /// Start with no index.
    Ready,
}

/// The start of a chat session: an index that exists is loaded unless
/// indexing again was asked for; without one, a project directory is indexed
/// first.
pub open spec fn start_mode_spec(
    index_exists: bool,
    path_exists: bool,
    path_is_dir: bool,
    reindex: bool,
) -> StartMode {
    let auto_index = !index_exists && path_exists && path_is_dir;
    if index_exists && !reindex && !auto_index {
        StartMode::LoadIndex
    } else if reindex || auto_index {
        StartMode::IndexFirst
    } else {
        StartMode::Ready
    }
}

/// How to start, from whether the index file and the project path exist and
/// whether indexing again was asked for.
pub fn start_mode(index_exists: bool, path_exists: bool, path_is_dir: bool, reindex: bool) -> (m:
    StartMode)
    ensures
        m == start_mode_spec(index_exists, path_exists, path_is_dir, reindex),
{
    let auto_index = !index_exists && path_exists && path_is_dir;
    if index_exists && !reindex && !auto_index {
        StartMode::LoadIndex
    } else if reindex || auto_index {
        StartMode::IndexFirst
    } else {
        StartMode::Ready
    }
}

/// The status after loading an index of `chunks` chunks.
pub fn loaded_status(chunks: usize) -> (s: String)
    ensures
        chunks == 0 ==> s@ == "No index. /index <path>"@,
        chunks > 0 ==> s@ == "Loaded "@ + decimal(chunks as nat) + " chunks"@,
{
    if chunks == 0 {
        to_string("No index. /index <path>")
    } else {
        let mut s = to_string("Loaded ");
        push_decimal(&mut s, chunks as u64);
        push_str(&mut s, " chunks");
        s
    }
}

/// The status while the project at `path` is indexed.
pub fn indexing_status(path: &str) -> (s: String)
    ensures
        s@ == "Indexing "@ + path@,
{
    let mut s = to_string("Indexing ");
    push_str(&mut s, path);
    s
}

/// The progress line printed while indexing from the command line; it
/// starts with a carriage return so that it overwrites the previous one.
pub fn index_progress_line(done: usize, total: usize, chunks: usize, file: &str) -> (s: String)
    ensures
        s@ == "\r  ["@ + decimal(done as nat) + "/"@ + decimal(total as nat) + "] files, "@
            + decimal(chunks as nat) + " chunks - "@ + file@,
{
    let mut s = to_string("\r  [");
    push_decimal(&mut s, done as u64);
    push_str(&mut s, "/");
    push_decimal(&mut s, total as u64);
    push_str(&mut s, "] files, ");
    push_decimal(&mut s, chunks as u64);
    push_str(&mut s, " chunks - ");
    push_str(&mut s, file);
    s
}

/// The last line printed after indexing from the command line.
pub fn index_done_line(files: usize, chunks: usize) -> (s: String)
    ensures
        s@ == "Done: "@ + decimal(files as nat) + " files, "@ + decimal(chunks as nat)
            + " chunks"@,
{
    let mut s = to_string("Done: ");
    push_decimal(&mut s, files as u64);
    push_str(&mut s, " files, ");
    push_decimal(&mut s, chunks as u64);
    push_str(&mut s, " chunks");
    s
}

} // verus!
