//! Maps a key press to an action.
use crate::app::action::Action;
use crate::app::command::{is_command_line, is_command_line_spec};
use vstd::prelude::*;

verus! {

/// The key that was pressed.
#[derive(Debug, Clone, Copy, PartialEq, Eq, Structural)]
pub enum KeyCode {
    Backspace,
    Enter,
    Left,
    Right,
    Up,
    Down,
    Home,
    End,
    PageUp,
    PageDown,
    Tab,
    BackTab,
    Delete,
    Esc,
    Char(char),
    /// Any other key.
    Other,
}

/// A key press: the key and whether Control was held.
#[derive(Debug, Clone, Copy, PartialEq, Eq, Structural)]
pub struct KeyEvent {
    pub code: KeyCode,
    pub control: bool,
}

/// The action for a key press, given the input line and whether the
/// suggestion list is shown.
pub open spec fn handle_spec(key: KeyEvent, input: Seq<char>, show_suggestions: bool) -> Option<
    Action,
> {
    if show_suggestions && key.code == KeyCode::Down {
        Some(Action::NextCompletion)
    } else if show_suggestions && key.code == KeyCode::Up {
        Some(Action::PrevCompletion)
    } else if show_suggestions && (key.code == KeyCode::Enter || key.code == KeyCode::Tab) {
        Some(Action::ApplyCompletion)
    } else if show_suggestions && key.code == KeyCode::Esc {
        Some(Action::HideSuggestions)
    } else if input.len() == 0 && key.code == KeyCode::Up {
        Some(Action::ScrollChatUp)
    } else if input.len() == 0 && key.code == KeyCode::Down {
        Some(Action::ScrollChatDown)
    } else {
        match key.code {
            KeyCode::Esc => Some(Action::Cancel),
            KeyCode::Enter => if is_command_line_spec(input) {
                Some(Action::ExecuteCommand)
            } else {
                Some(Action::SendMessage)
            },
            KeyCode::Backspace => if input.len() == 0 {
                None
            } else {
                Some(Action::Backspace)
            },
            KeyCode::Delete => Some(Action::DeleteChar),
            KeyCode::Left => Some(Action::CursorLeft),
            KeyCode::Right => Some(Action::CursorRight),
            KeyCode::Home => Some(Action::CursorTo(0)),
            KeyCode::End => None,
            KeyCode::Tab => Some(Action::ApplyCompletion),
            KeyCode::BackTab => Some(Action::PrevCompletion),
            KeyCode::PageUp => Some(Action::ScrollChatUp),
            KeyCode::PageDown => Some(Action::ScrollChatDown),
            KeyCode::Char(c) => if key.control {
                if c == 'q' || c == 'c' || c == 'd' {
                    Some(Action::Quit)
                } else if c == 'a' {
                    Some(Action::CursorTo(0))
                } else if c == 'b' {
                    Some(Action::CursorLeft)
                } else if c == 'f' {
                    Some(Action::CursorRight)
                } else if c == 'p' {
                    Some(Action::ScrollChatUp)
                } else if c == 'n' {
                    Some(Action::ScrollChatDown)
                } else {
                    None
                }
            } else {
                Some(Action::InsertChar(c))
            },
            _ => None,
        }
    }
}

/// The action for a key press, given the input line and whether the
/// suggestion list is shown.
pub fn handle(key: KeyEvent, input: &str, show_suggestions: bool) -> (r: Option<Action>)
    ensures
        r == handle_spec(key, input@, show_suggestions),
{
    if show_suggestions {
        match key.code {
            KeyCode::Down => return Some(Action::NextCompletion),
            KeyCode::Up => return Some(Action::PrevCompletion),
            KeyCode::Enter | KeyCode::Tab => return Some(Action::ApplyCompletion),
            KeyCode::Esc => return Some(Action::HideSuggestions),
            _ => {},
        }
    }
    let empty = input.is_empty();
    if empty {
        match key.code {
            KeyCode::Up => return Some(Action::ScrollChatUp),
            KeyCode::Down => return Some(Action::ScrollChatDown),
            _ => {},
        }
    }
    match key.code {
        KeyCode::Esc => Some(Action::Cancel),
        KeyCode::Enter => {
            if is_command_line(input) {
                Some(Action::ExecuteCommand)
            } else {
                Some(Action::SendMessage)
            }
        },
        KeyCode::Backspace => {
            if empty {
                None
            } else {
                Some(Action::Backspace)
            }
        },
        KeyCode::Delete => Some(Action::DeleteChar),
        KeyCode::Left => Some(Action::CursorLeft),
        KeyCode::Right => Some(Action::CursorRight),
        KeyCode::Home => Some(Action::CursorTo(0)),
        KeyCode::End => None,
        KeyCode::Tab => Some(Action::ApplyCompletion),
        KeyCode::BackTab => Some(Action::PrevCompletion),
        KeyCode::PageUp => Some(Action::ScrollChatUp),
        KeyCode::PageDown => Some(Action::ScrollChatDown),
        KeyCode::Char(c) => {
            if key.control {
                if c == 'q' || c == 'c' || c == 'd' {
                    Some(Action::Quit)
                } else if c == 'a' {
                    Some(Action::CursorTo(0))
                } else if c == 'e' {
                    None
                } else if c == 'b' {
                    Some(Action::CursorLeft)
                } else if c == 'f' {
                    Some(Action::CursorRight)
                } else if c == 'p' {
                    Some(Action::ScrollChatUp)
                } else if c == 'n' {
                    Some(Action::ScrollChatDown)
                } else {
                    None
                }
            } else {
                Some(Action::InsertChar(c))
            }
        },
        _ => None,
    }
}

} // verus!
