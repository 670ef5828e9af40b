use rust_rag_cli::app::event::{step, Effect, Event, MouseInput, MouseKind};
use rust_rag_cli::app::references::question_text;
use rust_rag_cli::app::startup::{index_done_line, index_progress_line, indexing_status, loaded_status, start_mode, StartMode};
use rust_rag_cli::app::state::{App, IndexingProgress, MessageSource};
use rust_rag_cli::input::handler::{KeyCode, KeyEvent};

fn typed(text: &str) -> App {
    let mut app = App::new();
    for c in text.chars() {
        app.insert_char(c);
    }
    app
}

fn enter() -> Event {
    Event::Key(KeyEvent { code: KeyCode::Enter, control: false })
}

#[test]
fn sending_a_question_starts_a_streamed_answer() {
    let mut app = typed("what does @src/main.rs do");
    let effects = step(&mut app, enter(), ".semantic-index.json");
    assert_eq!(effects.len(), 1);
    match &effects[0] {
        Effect::SendChat { input } => assert_eq!(input, "what does @src/main.rs do"),
        other => panic!("unexpected {:?}", other),
    }
    assert_eq!(app.messages.len(), 1);
    assert_eq!(app.messages[0].source, MessageSource::User);
    assert_eq!(app.input, "");
    assert!(app.is_loading);
    assert_eq!(app.streaming_message, Some(String::new()));
    assert_eq!(question_text("what does @src/main.rs do"), "what does do");
}

#[test]
fn keys_are_ignored_while_an_answer_is_awaited() {
    let mut app = typed("abc");
    app.is_loading = true;
    let effects = step(&mut app, Event::Key(KeyEvent { code: KeyCode::Char('x'), control: false }), "i");
    assert!(effects.is_empty());
    assert_eq!(app.input, "abc");
}

#[test]
fn switching_model_updates_state_and_service() {
    let mut app = typed("/switch mistral");
    let effects = step(&mut app, enter(), "i");
    match &effects[..] {
        [Effect::SetChatModel { model }] => assert_eq!(model, "mistral"),
        other => panic!("unexpected {:?}", other),
    }
    assert_eq!(app.current_model, "mistral");
    assert_eq!(app.status, "Switched to mistral");
    assert_eq!(app.input, "");
}

#[test]
fn unknown_commands_are_reported() {
    let mut app = typed("/bogus");
    let effects = step(&mut app, enter(), "i");
    assert!(effects.is_empty());
    assert_eq!(app.status, "Unknown: /bogus");
}

#[test]
fn index_and_save_commands_ask_for_background_work() {
    let mut app = typed("/index src");
    let effects = step(&mut app, enter(), "idx.json");
    match &effects[..] {
        [Effect::StartIndex { path }] => assert_eq!(path, "src"),
        other => panic!("unexpected {:?}", other),
    }
    assert_eq!(app.status, "Indexing src");
    assert!(app.indexing_progress.is_some());
    let mut app = typed("/save");
    let effects = step(&mut app, enter(), "idx.json");
    assert!(matches!(&effects[..], [Effect::SaveIndex]));
    assert_eq!(app.status, "Saved to idx.json");
}

#[test]
fn streamed_chunks_become_an_answer() {
    let mut app = App::new();
    app.is_loading = true;
    app.streaming_message = Some(String::new());
    step(&mut app, Event::LlmStreamChunk("Hel".to_string()), "i");
    step(&mut app, Event::LlmStreamChunk("lo".to_string()), "i");
    assert_eq!(app.streaming_message, Some("Hello".to_string()));
    step(&mut app, Event::LlmStreamDone, "i");
    assert!(app.streaming_message.is_none());
    assert!(!app.is_loading);
    assert_eq!(app.messages.len(), 1);
    assert_eq!(app.messages[0].content, "Hello");
    assert_eq!(app.messages[0].source, MessageSource::Assistant);
}

#[test]
fn errors_become_system_messages() {
    let mut app = App::new();
    app.is_loading = true;
    app.streaming_message = Some("part".to_string());
    step(&mut app, Event::LlmError("boom".to_string()), "i");
    assert_eq!(app.messages[0].content, "Error: boom");
    assert_eq!(app.messages[0].source, MessageSource::System);
    assert!(app.streaming_message.is_none());
    assert!(!app.is_loading);
}

#[test]
fn model_list_is_shown_and_kept() {
    let mut app = App::new();
    app.is_loading = true;
    step(&mut app, Event::ModelsList(vec!["llama3".to_string(), "mistral".to_string()]), "i");
    assert_eq!(app.available_models, vec!["llama3", "mistral"]);
    assert_eq!(app.messages[0].content, "Available models:\n  - llama3\n  - mistral");
    assert!(!app.is_loading);
}

#[test]
fn indexing_progress_and_completion_update_the_status() {
    let mut app = App::new();
    let p = IndexingProgress { files_done: 1, files_total: 3, chunks_done: 4, current_file: "a.rs".to_string() };
    step(&mut app, Event::IndexProgress(p), "i");
    assert_eq!(app.indexing_progress.as_ref().unwrap().files_total, 3);
    step(&mut app, Event::IndexComplete { files: 3, chunks: 10 }, "i");
    assert!(app.indexing_progress.is_none());
    assert_eq!(app.status, "Indexed 3 files, 10 chunks");
}

#[test]
fn ticks_animate_only_while_waiting() {
    let mut app = App::new();
    step(&mut app, Event::Tick, "i");
    assert_eq!(app.thinking_dots, 0);
    app.is_loading = true;
    for _ in 0..5 {
        step(&mut app, Event::Tick, "i");
    }
    assert_eq!(app.thinking_dots, 1);
}

#[test]
fn mouse_selection_is_copied_on_release() {
    let mut app = typed("abcdef");
    let at = |kind, column| Event::Mouse(MouseInput { kind, row: 10, column });
    step(&mut app, at(MouseKind::LeftDown, 4), "i");
    assert_eq!(app.cursor_pos, 2);
    step(&mut app, at(MouseKind::LeftDrag, 6), "i");
    let effects = step(&mut app, at(MouseKind::LeftUp, 6), "i");
    match &effects[..] {
        [Effect::CopyToClipboard { text }] => assert_eq!(text, "cd"),
        other => panic!("unexpected {:?}", other),
    }
    assert!(app.mouse_selection.is_none());
}

#[test]
fn session_start_depends_on_the_index_and_the_project() {
    assert_eq!(start_mode(true, true, true, false), StartMode::LoadIndex);
    assert_eq!(start_mode(true, true, true, true), StartMode::IndexFirst);
    assert_eq!(start_mode(false, true, true, false), StartMode::IndexFirst);
    assert_eq!(start_mode(false, true, false, false), StartMode::Ready);
    assert_eq!(start_mode(false, false, false, false), StartMode::Ready);
    assert_eq!(loaded_status(0), "No index. /index <path>");
    assert_eq!(loaded_status(42), "Loaded 42 chunks");
    assert_eq!(indexing_status("."), "Indexing .");
    assert_eq!(index_progress_line(2, 5, 17, "src/a.rs"), "\r  [2/5] files, 17 chunks - src/a.rs");
    assert_eq!(index_done_line(5, 40), "Done: 5 files, 40 chunks");
}

#[test]
fn a_question_mark_shows_the_help() {
    let mut app = typed("?");
    let effects = step(&mut app, enter(), "i");
    assert!(effects.is_empty());
    assert_eq!(app.status, rust_rag_cli::app::command::help_text());
    assert_eq!(app.input, "");
    assert!(app.messages.is_empty());
}
