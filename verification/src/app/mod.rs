//! The chat application's state, its commands and the actions that change it.
pub mod action;
pub mod command;
pub mod event;
pub mod references;
pub mod startup;
pub mod state;
pub mod suggest;

pub use command::{help_text, parse as parse_command, Command};
pub use state::{App, FileReference, IndexingProgress, IndexingStatus, Message, MessageSource, MouseSelection};
pub use action::{reduce, Action};
