//! Keyboard input.
pub mod handler;

pub use handler::{handle, KeyCode, KeyEvent};
