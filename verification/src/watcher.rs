//! What the file watcher reports.
use crate::scrapper::strings_view;
use vstd::prelude::*;

verus! {

/// A change seen in the watched directory.
#[derive(Debug, Clone)]
pub enum WatchEvent {
    FilesChanged(Vec<String>),
    FilesRemoved(Vec<String>),
    Error(String),
}

/// The event for a batch of debounced changes: the changed paths, or none
/// when the batch is empty.
pub fn changed_event(paths: Vec<String>) -> (r: Option<WatchEvent>)
    ensures
        paths@.len() == 0 <==> r is None,
        r matches Some(e) ==> (e matches WatchEvent::FilesChanged(v) && strings_view(v@)
            == strings_view(paths@)),
{
    if paths.len() == 0 {
        None
    } else {
        Some(WatchEvent::FilesChanged(paths))
    }
}

} // verus!
