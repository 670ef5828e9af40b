use rust_rag_cli::app::action::{reduce, Action};
use rust_rag_cli::app::state::App;
use rust_rag_cli::app::suggest::DirEntryInfo;
use rust_rag_cli::input::handler::{handle, KeyCode, KeyEvent};

fn typed(text: &str) -> App {
    let mut app = App::new();
    for c in text.chars() {
        app.insert_char(c);
    }
    app
}

fn key(code: KeyCode) -> KeyEvent {
    KeyEvent { code, control: false }
}

fn ctrl(c: char) -> KeyEvent {
    KeyEvent { code: KeyCode::Char(c), control: true }
}

#[test]
fn typing_moves_the_cursor_by_bytes() {
    let app = typed("hé");
    assert_eq!(app.input, "hé");
    assert_eq!(app.cursor_pos, 3);
    assert_eq!(app.input_len(), 3);
}

#[test]
fn insert_then_backspace_restores_the_input() {
    let mut app = typed("abc");
    app.move_cursor_left();
    let before = (app.input.clone(), app.cursor_pos);
    app.insert_char('x');
    assert_eq!(app.input, "abxc");
    assert_eq!(app.cursor_pos, 3);
    app.delete_char_before_cursor();
    assert_eq!((app.input.clone(), app.cursor_pos), before);
}

#[test]
fn backspace_at_the_start_does_nothing() {
    let mut app = typed("ab");
    app.move_cursor_to(0);
    app.delete_char_before_cursor();
    assert_eq!(app.input, "ab");
    assert_eq!(app.cursor_pos, 0);
}

#[test]
fn delete_removes_the_character_at_the_cursor() {
    let mut app = typed("abc");
    app.move_cursor_to(1);
    app.delete_char_at_cursor();
    assert_eq!(app.input, "ac");
    assert_eq!(app.cursor_pos, 1);
    app.move_cursor_to(10);
    assert_eq!(app.cursor_pos, 2);
    app.delete_char_at_cursor();
    assert_eq!(app.input, "ac");
}

#[test]
fn cursor_stays_within_the_input() {
    let mut app = typed("ab");
    app.move_cursor_right();
    assert_eq!(app.cursor_pos, 2);
    app.move_cursor_left();
    app.move_cursor_left();
    app.move_cursor_left();
    assert_eq!(app.cursor_pos, 0);
}

#[test]
fn word_at_cursor_is_an_at_word() {
    let app = typed("look at @src/ma");
    assert_eq!(app.get_word_at_cursor(), Some((8, "@src/ma".to_string())));
    let app = typed("plain words");
    assert_eq!(app.get_word_at_cursor(), None);
}

#[test]
fn sending_a_message_clears_the_input() {
    let mut app = typed("what is this?");
    reduce(&mut app, Action::SendMessage);
    assert_eq!(app.input, "");
    assert_eq!(app.cursor_pos, 0);
    assert!(app.is_loading);
    assert_eq!(app.messages.len(), 1);
    assert_eq!(app.messages[0].content, "what is this?");
}

#[test]
fn commands_are_not_sent_as_messages() {
    let mut app = typed("/models");
    reduce(&mut app, Action::SendMessage);
    assert!(app.messages.is_empty());
    assert_eq!(app.input, "/models");
    reduce(&mut app, Action::ExecuteCommand);
    assert_eq!(app.status, "Executed: /models");
}

#[test]
fn completions_cycle_both_ways() {
    let mut app = App::new();
    app.suggestions = vec!["a".to_string(), "b".to_string(), "c".to_string()];
    app.show_suggestions = true;
    reduce(&mut app, Action::PrevCompletion);
    assert_eq!(app.suggestion_index, 2);
    reduce(&mut app, Action::NextCompletion);
    assert_eq!(app.suggestion_index, 0);
    reduce(&mut app, Action::NextCompletion);
    reduce(&mut app, Action::PrevCompletion);
    assert_eq!(app.suggestion_index, 0);
}

#[test]
fn applying_a_command_completion_adds_a_space() {
    let mut app = typed("/sw");
    app.update_suggestions(None);
    assert_eq!(app.suggestions, vec!["/switch", "/switch-embed"]);
    assert!(app.show_suggestions);
    reduce(&mut app, Action::ApplyCompletion);
    assert_eq!(app.input, "/switch ");
    assert_eq!(app.cursor_pos, 8);
    assert!(!app.show_suggestions);
}

#[test]
fn model_suggestions_follow_the_argument() {
    let mut app = typed("/switch ll");
    app.available_models = vec!["llama3".to_string(), "mistral".to_string(), "llava".to_string()];
    app.update_suggestions(None);
    assert_eq!(app.suggestions, vec!["llama3", "llava"]);
    assert_eq!(app.command_hint, "/switch <model>  - current: llama3");
}

#[test]
fn exact_command_shows_its_hint() {
    let mut app = typed("/quit");
    app.update_suggestions(None);
    assert!(app.suggestions.is_empty());
    assert!(!app.show_suggestions);
    assert_eq!(app.command_hint, "/quit - exit");
}

#[test]
fn file_completions_come_sorted_from_the_listing() {
    let mut app = typed("see @sr");
    assert_eq!(app.completion_dir(), Some(String::new()));
    let listing = vec![
        DirEntryInfo { name: "srv.rs".to_string(), is_dir: false },
        DirEntryInfo { name: "README.md".to_string(), is_dir: false },
        DirEntryInfo { name: "src".to_string(), is_dir: true },
    ];
    app.update_suggestions(Some(listing));
    assert_eq!(app.suggestions, vec!["@src/", "@srv.rs"]);
    reduce(&mut app, Action::NextCompletion);
    reduce(&mut app, Action::PrevCompletion);
    reduce(&mut app, Action::ApplyCompletion);
    assert_eq!(app.input, "see @src/");
    assert_eq!(app.cursor_pos, 9);
}

#[test]
fn completion_dir_names_the_typed_directory() {
    let app = typed("@src/ui/re");
    assert_eq!(app.completion_dir(), Some("src/ui/".to_string()));
    let app = typed("/index ./sr");
    assert_eq!(app.completion_dir(), Some("./".to_string()));
}

#[test]
fn keys_map_to_actions() {
    assert!(matches!(handle(key(KeyCode::Enter), "hi", false), Some(Action::SendMessage)));
    assert!(matches!(handle(key(KeyCode::Enter), " /help", false), Some(Action::ExecuteCommand)));
    assert!(matches!(handle(key(KeyCode::Backspace), "", false), None));
    assert!(matches!(handle(key(KeyCode::Up), "", false), Some(Action::ScrollChatUp)));
    assert!(matches!(handle(key(KeyCode::Up), "", true), Some(Action::PrevCompletion)));
    assert!(matches!(handle(key(KeyCode::Char('x')), "", false), Some(Action::InsertChar('x'))));
    assert!(matches!(handle(ctrl('c'), "abc", false), Some(Action::Quit)));
    assert!(matches!(handle(ctrl('a'), "abc", false), Some(Action::CursorTo(0))));
    assert!(matches!(handle(ctrl('e'), "abc", false), None));
    assert!(matches!(handle(key(KeyCode::End), "abc", false), None));
    assert!(matches!(handle(key(KeyCode::Esc), "abc", false), Some(Action::Cancel)));
    assert!(matches!(handle(key(KeyCode::Esc), "abc", true), Some(Action::HideSuggestions)));
}

#[test]
fn default_app_is_a_new_session() {
    let a = App::default();
    assert!(a.running && a.follow_bottom && a.syntax_highlight);
    assert_eq!(a.current_model, "llama3");
    assert_eq!(a.current_embed_model, "nomic-embed-text");
    assert_eq!(a.theme, "base16-eighties.dark");
    assert!(a.messages.is_empty() && a.input.is_empty());
}

#[test]
fn enter_on_a_question_mark_runs_a_command() {
    assert!(matches!(handle(key(KeyCode::Enter), "?", false), Some(Action::ExecuteCommand)));
    assert!(matches!(handle(key(KeyCode::Enter), "why?", false), Some(Action::SendMessage)));
}

#[test]
fn backspace_at_the_start_changes_nothing() {
    let mut app = App::new();
    for c in "abc".chars() {
        app.insert_char(c);
    }
    app.cursor_pos = 0;
    reduce(&mut app, Action::Backspace);
    assert_eq!(app.input, "abc");
    assert_eq!(app.cursor_pos, 0);
}

#[test]
fn typing_then_backspace_restores_the_input() {
    let mut app = App::new();
    for c in "héllo".chars() {
        app.insert_char(c);
    }
    app.cursor_pos = 1;
    reduce(&mut app, Action::InsertChar('x'));
    assert_eq!(app.input, "hxéllo");
    reduce(&mut app, Action::Backspace);
    assert_eq!(app.input, "héllo");
    assert_eq!(app.cursor_pos, 1);
}
