//! The decisions of the event loop: how each event changes the state, and
//! which outside work (indexing, saving, model calls, chat requests,
//! clipboard) the caller must then perform.
use crate::app::action::{reduce, reduce_post, reduce_pre, Action};
use crate::app::command::{help_text, help_text_spec, parse, parse_spec, Command, CommandSpec};
use crate::app::state::{input_fits, App, IndexingProgress, Message, MessageSource, MouseSelection};
use crate::input::handler::{handle, handle_spec, KeyEvent};
use crate::text::{
    char_index, chars_of_string, decimal, find_char_index, is_boundary, push_decimal, push_str,
    string_of_range, to_string, utf8_len,
};
use crate::app::command::{is_command_line, is_command_line_spec};
use vstd::prelude::*;

verus! {

/// What the mouse did.
#[derive(Debug, Clone, Copy, PartialEq, Eq, Structural)]
pub enum MouseKind {
    LeftDown,
    LeftDrag,
    LeftUp,
    Other,
}

/// A mouse event at a terminal cell.
#[derive(Debug, Clone, Copy, PartialEq, Eq, Structural)]
pub struct MouseInput {
    pub kind: MouseKind,
    pub row: u16,
    pub column: u16,
}

/// An event of the chat loop.
#[derive(Debug, Clone)]
pub enum Event {
    Key(KeyEvent),
    Mouse(MouseInput),
    Resize(u16, u16),
    LlmResponse(String),
    LlmStreamChunk(String),
    LlmStreamDone,
    LlmError(String),
    ModelsList(Vec<String>),
    IndexProgress(IndexingProgress),
    IndexComplete { files: usize, chunks: usize },
    Tick,
}

/// Outside work that an event asks of the caller.
#[derive(Debug, Clone)]
pub enum Effect {
    /// Index the directory at `path` in the background, reporting progress
    /// and completion as events, then save the index.
    StartIndex { path: String },
    /// Save the index to the index file in the background.
    SaveIndex,
    /// Ask for the model list; report it as `ModelsList`.
    ListModels,
    /// Use `model` as the chat model of the service.
    SetChatModel { model: String },
    /// Use `model` as the embedding model of the service.
    SetEmbedModel { model: String },
    /// Read the `@` references of `input`, then stream an answer to the
    /// question with them, reporting chunks, completion or error as events.
    SendChat { input: String },
    /// Recompute the suggestions for the input line.
    UpdateSuggestions,
    /// Put `text` on the clipboard.
    CopyToClipboard { text: String },
}

/// The events are ignored while an answer is awaited.
pub open spec fn busy(app: App) -> bool {
    app.is_loading || app.streaming_message is Some
}

/// The input line is emptied and the suggestions hidden.
pub open spec fn cleared(post: App) -> bool {
    &&& post.input@ == Seq::<char>::empty()
    &&& post.cursor_pos == 0
    &&& !post.show_suggestions
}

/// `post` differs from `pre` only in the input line, the cursor, the
/// suggestion flag and the status, which are cleared and set.
pub open spec fn cleared_with_status(pre: App, post: App, status: Seq<char>) -> bool {
    &&& post == (App {
        input: post.input,
        cursor_pos: post.cursor_pos,
        show_suggestions: post.show_suggestions,
        status: post.status,
        ..pre
    })
    &&& cleared(post)
    &&& post.status@ == status
}

/// The state and the work after the line is executed as a command.
pub open spec fn command_post(
    pre: App,
    post: App,
    index_file: Seq<char>,
    effects: Seq<Effect>,
) -> bool {
    match parse_spec(pre.input@) {
        None => cleared_with_status(pre, post, "Unknown: "@ + pre.input@) && effects.len() == 0,
        Some(cmd) => match cmd {
            CommandSpec::Index { path } => {
                &&& post == (App {
                    input: post.input,
                    cursor_pos: post.cursor_pos,
                    show_suggestions: post.show_suggestions,
                    status: post.status,
                    indexing_progress: post.indexing_progress,
                    ..pre
                })
                &&& cleared(post)
                &&& post.status@ == "Indexing "@ + path
                &&& post.indexing_progress matches Some(p) && p.files_done == 0 && p.files_total
                    == 0 && p.chunks_done == 0 && p.current_file@.len() == 0
                &&& effects.len() == 1
                &&& effects[0] matches Effect::StartIndex { path: p } && p@ == path
            },
            CommandSpec::Save => cleared_with_status(pre, post, "Saved to "@ + index_file)
                && effects.len() == 1 && effects[0] is SaveIndex,
            CommandSpec::Help => cleared_with_status(pre, post, help_text_spec()@) && effects.len()
                == 0,
            CommandSpec::Quit => post == (App { running: false, ..pre }) && effects.len() == 0,
            CommandSpec::Models => {
                &&& post == (App {
                    input: post.input,
                    cursor_pos: post.cursor_pos,
                    show_suggestions: post.show_suggestions,
                    messages: post.messages,
                    is_loading: true,
                    thinking_dots: 0,
                    ..pre
                })
                &&& cleared(post)
                &&& post.messages@.len() == pre.messages@.len() + 1
                &&& post.messages@.take(pre.messages@.len() as int) == pre.messages@
                &&& post.messages@.last().source == MessageSource::User
                &&& post.messages@.last().content@ == pre.input@
                &&& effects.len() == 1
                &&& effects[0] is ListModels
            },
            CommandSpec::Switch { model } => {
                &&& post == (App {
                    input: post.input,
                    cursor_pos: post.cursor_pos,
                    show_suggestions: post.show_suggestions,
                    status: post.status,
                    current_model: post.current_model,
                    ..pre
                })
                &&& cleared(post)
                &&& post.current_model@ == model
                &&& post.status@ == "Switched to "@ + model
                &&& effects.len() == 1
                &&& effects[0] matches Effect::SetChatModel { model: m } && m@ == model
            },
            CommandSpec::SwitchEmbed { model } => {
                &&& cleared_with_status(pre, post, "Switched embed to "@ + model)
                &&& effects.len() == 1
                &&& effects[0] matches Effect::SetEmbedModel { model: m } && m@ == model
            },
            CommandSpec::Clear => {
                &&& post == (App {
                    input: post.input,
                    cursor_pos: post.cursor_pos,
                    show_suggestions: post.show_suggestions,
                    status: post.status,
                    messages: post.messages,
                    ..pre
                })
                &&& cleared(post)
                &&& post.messages@.len() == 0
                &&& post.status@ == "Cleared"@
                &&& effects.len() == 0
            },
            CommandSpec::Reindex => cleared_with_status(pre, post, "Use /index <path>"@)
                && effects.len() == 0,
            _ => post == pre && effects.len() == 0,
        },
    }
}

/// The state and the work after a key press.
pub open spec fn key_post(
    pre: App,
    post: App,
    key: KeyEvent,
    index_file: Seq<char>,
    effects: Seq<Effect>,
) -> bool {
    if busy(pre) {
        post == pre && effects.len() == 0
    } else {
        match handle_spec(key, pre.input@, pre.show_suggestions) {
            None => post == pre && effects.len() == 0,
            Some(a) => match a {
                Action::ExecuteCommand => command_post(pre, post, index_file, effects),
                Action::InsertChar(_) => reduce_post(pre, post, a) && effects.len() == 1
                    && effects[0] is UpdateSuggestions,
                Action::Backspace => reduce_post(pre, post, a) && effects.len() == 1
                    && effects[0] is UpdateSuggestions,
                Action::SendMessage => if pre.input@.len() > 0 && !is_command_line_spec(pre.input@) {
                    &&& post == (App {
                        input: post.input,
                        cursor_pos: 0,
                        messages: post.messages,
                        is_loading: true,
                        thinking_dots: 0,
                        streaming_message: post.streaming_message,
                        show_suggestions: false,
                        ..pre
                    })
                    &&& post.input@.len() == 0
                    &&& post.streaming_message matches Some(s) && s@.len() == 0
                    &&& post.messages@.len() == pre.messages@.len() + 1
                    &&& post.messages@.take(pre.messages@.len() as int) == pre.messages@
                    &&& post.messages@.last().source == MessageSource::User
                    &&& post.messages@.last().content@ == pre.input@
                    &&& effects.len() == 1
                    &&& effects[0] matches Effect::SendChat { input } && input@ == pre.input@
                } else {
                    post == pre && effects.len() == 0
                },
                _ => reduce_post(pre, post, a) && effects.len() == 0,
            },
        }
    }
}

/// What a key press needs to run without panicking or overflowing.
pub open spec fn key_pre(app: App, key: KeyEvent) -> bool {
    !busy(app) ==> match handle_spec(key, app.input@, app.show_suggestions) {
        Some(a) => match a {
            Action::ExecuteCommand => true,
            Action::SendMessage => true,
            _ => reduce_pre(app, a),
        },
        None => true,
    }
}

/// Column of the input line under a mouse column (the border and padding
/// take two cells).
pub open spec fn input_column(column: u16) -> int {
    if column >= 2 {
        column - 2
    } else {
        0
    }
}

/// A selection within one row, of at least one cell.
pub open spec fn selection_spans(sel: MouseSelection) -> bool {
    sel.start_row == sel.end_row && sel.start_col != sel.end_col
}

/// Byte range of the input that a finished selection copies.
pub open spec fn selection_range(app: App, sel: MouseSelection) -> (int, int) {
    let start = if sel.start_col < sel.end_col {
        sel.start_col
    } else {
        sel.end_col
    };
    let end = if sel.start_col < sel.end_col {
        sel.end_col
    } else {
        sel.start_col
    };
    let len = utf8_len(app.input@) as int;
    (start as int, if (end as int) < len {
        end as int
    } else {
        len
    })
}

/// A selection is copied when it spans cells of the input.
pub open spec fn selection_copies(app: App, sel: MouseSelection) -> bool {
    let (start, end) = selection_range(app, sel);
    selection_spans(sel) && start < end && start < utf8_len(app.input@)
}

/// The text a finished selection copies.
pub open spec fn selected_text(app: App, sel: MouseSelection) -> Seq<char> {
    let (start, end) = selection_range(app, sel);
    app.input@.subrange(char_index(app.input@, start), char_index(app.input@, end))
}

/// What a mouse event needs: the cursor can be placed, and a copied
/// selection does not cut a character in two.
pub open spec fn mouse_pre(app: App, m: MouseInput) -> bool {
    busy(app) || match m.kind {
        MouseKind::LeftDown => input_fits(app),
        MouseKind::LeftUp => input_fits(app) && match app.mouse_selection {
            Some(sel) => selection_copies(app, sel) ==> is_boundary(
                app.input@,
                selection_range(app, sel).0,
            ) && is_boundary(app.input@, selection_range(app, sel).1),
            None => true,
        },
        _ => true,
    }
}

/// The state and the work after a mouse event.
pub open spec fn mouse_post(pre: App, post: App, m: MouseInput, effects: Seq<Effect>) -> bool {
    if busy(pre) {
        post == pre && effects.len() == 0
    } else {
        match m.kind {
            MouseKind::LeftDown => {
                let col = input_column(m.column);
                let len = utf8_len(pre.input@) as int;
                &&& post == (App {
                    mouse_selection: post.mouse_selection,
                    cursor_pos: (if col < len {
                        col
                    } else {
                        len
                    }) as usize,
                    ..pre
                })
                &&& post.mouse_selection matches Some(sel) && sel.start_row == m.row && sel.end_row
                    == m.row && sel.start_col == col && sel.end_col == col
                &&& effects.len() == 0
            },
            MouseKind::LeftDrag => match pre.mouse_selection {
                Some(sel) => {
                    &&& post == (App { mouse_selection: post.mouse_selection, ..pre })
                    &&& post.mouse_selection matches Some(s) && s.start_row == sel.start_row
                        && s.start_col == sel.start_col && s.end_row == m.row && s.end_col
                        == input_column(m.column)
                    &&& effects.len() == 0
                },
                None => post == pre && effects.len() == 0,
            },
            MouseKind::LeftUp => {
                &&& post == (App { mouse_selection: None, ..pre })
                &&& match pre.mouse_selection {
                    Some(sel) => if selection_copies(pre, sel) && selected_text(pre, sel).len()
                        > 0 {
                        effects.len() == 1 && (effects[0] matches Effect::CopyToClipboard { text }
                            && text@ == selected_text(pre, sel))
                    } else {
                        effects.len() == 0
                    },
                    None => effects.len() == 0,
                }
            },
            MouseKind::Other => post == pre && effects.len() == 0,
        }
    }
}

/// Each model name on its own line after two spaces and a dash.
pub open spec fn models_listing(models: Seq<Seq<char>>) -> Seq<char>
    decreases models.len(),
{
    if models.len() == 0 {
        seq![]
    } else if models.len() == 1 {
        "  - "@ + models[0]
    } else {
        models_listing(models.drop_last()) + "\n"@ + "  - "@ + models.last()
    }
}

/// What an event needs to run without panicking or overflowing.
pub open spec fn step_pre(app: App, event: Event) -> bool {
    match event {
        Event::Key(k) => key_pre(app, k),
        Event::Mouse(m) => mouse_pre(app, m),
        Event::Resize(_, _) => busy(app) ==> app.thinking_dots < usize::MAX,
        Event::Tick => busy(app) ==> app.thinking_dots < usize::MAX,
        _ => true,
    }
}

/// The state and the work after an event.
pub open spec fn step_post(
    pre: App,
    post: App,
    event: Event,
    index_file: Seq<char>,
    effects: Seq<Effect>,
) -> bool {
    match event {
        Event::Key(k) => key_post(pre, post, k, index_file, effects),
        Event::Mouse(m) => mouse_post(pre, post, m, effects),
        Event::LlmResponse(r) => {
            &&& post == (App { messages: post.messages, is_loading: false, ..pre })
            &&& post.messages@ == pre.messages@.push(
                Message { source: MessageSource::Assistant, content: r },
            )
            &&& effects.len() == 0
        },
        Event::LlmStreamChunk(c) => {
            &&& effects.len() == 0
            &&& match pre.streaming_message {
                Some(s) => post == (App { streaming_message: post.streaming_message, ..pre })
                    && (post.streaming_message matches Some(t) && t@ == s@ + c@),
                None => post == pre,
            }
        },
        Event::LlmStreamDone => {
            &&& effects.len() == 0
            &&& match pre.streaming_message {
                Some(s) => post == (App {
                    messages: post.messages,
                    streaming_message: None,
                    is_loading: false,
                    ..pre
                }) && post.messages@ == pre.messages@.push(
                    Message { source: MessageSource::Assistant, content: s },
                ),
                None => post == (App { is_loading: false, ..pre }),
            }
        },
        Event::LlmError(e) => {
            &&& post == (App {
                messages: post.messages,
                is_loading: false,
                streaming_message: None,
                ..pre
            })
            &&& post.messages@.len() == pre.messages@.len() + 1
            &&& post.messages@.take(pre.messages@.len() as int) == pre.messages@
            &&& post.messages@.last().source == MessageSource::System
            &&& post.messages@.last().content@ == "Error: "@ + e@
            &&& effects.len() == 0
        },
        Event::ModelsList(models) => {
            &&& post == (App {
                messages: post.messages,
                is_loading: false,
                available_models: models,
                ..pre
            })
            &&& post.messages@.len() == pre.messages@.len() + 1
            &&& post.messages@.take(pre.messages@.len() as int) == pre.messages@
            &&& post.messages@.last().source == MessageSource::Assistant
            &&& post.messages@.last().content@ == "Available models:\n"@ + models_listing(
                models@.map_values(|m: String| m@),
            )
            &&& effects.len() == 0
        },
        Event::IndexProgress(p) => post == (App { indexing_progress: Some(p), ..pre })
            && effects.len() == 0,
        Event::IndexComplete { files, chunks } => {
            &&& post == (App { indexing_progress: None, status: post.status, ..pre })
            &&& post.status@ == "Indexed "@ + decimal(files as nat) + " files, "@ + decimal(
                chunks as nat,
            ) + " chunks"@
            &&& effects.len() == 0
        },
        Event::Resize(_, _) => post == (App {
            thinking_dots: if busy(pre) {
                ((pre.thinking_dots + 1) % 4) as usize
            } else {
                pre.thinking_dots
            },
            ..pre
        }) && effects.len() == 0,
        Event::Tick => post == (App {
            thinking_dots: if busy(pre) {
                ((pre.thinking_dots + 1) % 4) as usize
            } else {
                pre.thinking_dots
            },
            ..pre
        }) && effects.len() == 0,
    }
}

} // verus!

verus! {

/// Empties the input line and hides the suggestions.
fn clear_input(app: &mut App)
    ensures
        *final(app) == (App {
            input: final(app).input,
            cursor_pos: 0,
            show_suggestions: false,
            ..*old(app)
        }),
        final(app).input@ == Seq::<char>::empty(),
{
    app.input = String::new();
    app.cursor_pos = 0;
    app.show_suggestions = false;
}

/// A string made of the literal `lit` followed by `s`.
fn lit_then(lit: &str, s: &str) -> (r: String)
    ensures
        r@ == lit@ + s@,
{
    let mut r = to_string(lit);
    push_str(&mut r, s);
    r
}

/// Runs the command typed in the input line.
fn execute_command(app: &mut App, index_file: &str) -> (effects: Vec<Effect>)
    ensures
        command_post(*old(app), *final(app), index_file@, effects@),
{
    let mut effects: Vec<Effect> = Vec::new();
    match parse(app.input.as_str()) {
        Some(cmd) => match cmd {
            Command::Index { path } => {
                app.indexing_progress = Some(IndexingProgress::default());
                app.status = lit_then("Indexing ", path.as_str());
                clear_input(app);
                effects.push(Effect::StartIndex { path });
            },
            Command::Save => {
                app.status = lit_then("Saved to ", index_file);
                clear_input(app);
                effects.push(Effect::SaveIndex);
            },
            Command::Help => {
                app.status = to_string(help_text());
                clear_input(app);
            },
            Command::Quit => {
                app.running = false;
            },
            Command::Models => {
                app.is_loading = true;
                app.thinking_dots = 0;
                let content = app.input.clone();
                let ghost before = app.messages@;
                app.messages.push(Message::user(content));
                assert(app.messages@.take(before.len() as int) =~= before);
                clear_input(app);
                effects.push(Effect::ListModels);
            },
            Command::Switch { model } => {
                app.current_model = model.clone();
                app.status = lit_then("Switched to ", model.as_str());
                clear_input(app);
                effects.push(Effect::SetChatModel { model });
            },
            Command::SwitchEmbed { model } => {
                app.status = lit_then("Switched embed to ", model.as_str());
                clear_input(app);
                effects.push(Effect::SetEmbedModel { model });
            },
            Command::Clear => {
                app.messages = Vec::new();
                app.status = to_string("Cleared");
                clear_input(app);
            },
            Command::Reindex => {
                app.status = to_string("Use /index <path>");
                clear_input(app);
            },
            _ => {},
        },
        None => {
            app.status = lit_then("Unknown: ", app.input.as_str());
            clear_input(app);
        },
    }
    effects
}

/// Handles a key press.
fn key_step(app: &mut App, key: KeyEvent, index_file: &str) -> (effects: Vec<Effect>)
    requires
        key_pre(*old(app), key),
    ensures
        key_post(*old(app), *final(app), key, index_file@, effects@),
{
    let mut effects: Vec<Effect> = Vec::new();
    if app.is_loading || app.streaming_message.is_some() {
        return effects;
    }
    match handle(key, app.input.as_str(), app.show_suggestions) {
        None => {},
        Some(action) => match action {
            Action::ExecuteCommand => {
                effects = execute_command(app, index_file);
            },
            Action::InsertChar(c) => {
                reduce(app, Action::InsertChar(c));
                effects.push(Effect::UpdateSuggestions);
            },
            Action::Backspace => {
                reduce(app, Action::Backspace);
                effects.push(Effect::UpdateSuggestions);
            },
            Action::SendMessage => {
                if !app.input.as_str().is_empty() && !is_command_line(app.input.as_str()) {
                    let input = app.input.clone();
                    let content = app.input.clone();
                    let ghost before = app.messages@;
                    app.messages.push(Message::user(content));
                    assert(app.messages@.take(before.len() as int) =~= before);
                    clear_input(app);
                    app.is_loading = true;
                    app.thinking_dots = 0;
                    app.streaming_message = Some(String::new());
                    effects.push(Effect::SendChat { input });
                }
            },
            a => {
                reduce(app, a);
            },
        },
    }
    effects
}

/// Handles a mouse event.
fn mouse_step(app: &mut App, m: MouseInput) -> (effects: Vec<Effect>)
    requires
        mouse_pre(*old(app), m),
    ensures
        mouse_post(*old(app), *final(app), m, effects@),
{
    let mut effects: Vec<Effect> = Vec::new();
    if app.is_loading || app.streaming_message.is_some() {
        return effects;
    }
    let col: u16 = if m.column >= 2 {
        m.column - 2
    } else {
        0
    };
    match m.kind {
        MouseKind::LeftDown => {
            app.mouse_selection = Some(
                MouseSelection { start_row: m.row, start_col: col, end_row: m.row, end_col: col },
            );
            let n = app.input_len();
            let pos = col as usize;
            app.cursor_pos = if pos < n {
                pos
            } else {
                n
            };
        },
        MouseKind::LeftDrag => {
            let old_sel: Option<(u16, u16)> = match &app.mouse_selection {
                Some(sel) => Some((sel.start_row, sel.start_col)),
                None => None,
            };
            match old_sel {
                Some((sr, sc)) => {
                    app.mouse_selection = Some(
                        MouseSelection { start_row: sr, start_col: sc, end_row: m.row, end_col: col },
                    );
                },
                None => {},
            }
        },
        MouseKind::LeftUp => {
            match &app.mouse_selection {
                Some(sel) => {
                    if sel.start_row == sel.end_row && sel.start_col != sel.end_col {
                        let start: usize = if sel.start_col < sel.end_col {
                            sel.start_col as usize
                        } else {
                            sel.end_col as usize
                        };
                        let end: usize = if sel.start_col < sel.end_col {
                            sel.end_col as usize
                        } else {
                            sel.start_col as usize
                        };
                        let n = app.input_len();
                        if start < end && start < n {
                            let copy_end = if end < n {
                                end
                            } else {
                                n
                            };
                            let v = chars_of_string(&app.input);
                            let a = find_char_index(&v, start).unwrap();
                            let b = find_char_index(&v, copy_end).unwrap();
                            if a > b {
                                proof {
                                    crate::text::lemma_utf8_len_take_mono(v@, b as int, a as int);
                                }
                                assert(false);
                            }
                            if a < b {
                                let text = string_of_range(&v, a, b);
                                effects.push(Effect::CopyToClipboard { text });
                            }
                        }
                    }
                },
                None => {},
            }
            app.mouse_selection = None;
        },
        MouseKind::Other => {},
    }
    effects
}

/// The listing of model names that the `ModelsList` event shows.
fn listing_of(models: &Vec<String>) -> (s: String)
    ensures
        s@ == models_listing(models@.map_values(|m: String| m@)),
{
    let mut s = String::new();
    let ghost f = |m: String| m@;
    let mut i: usize = 0;
    assert(models@.take(0).map_values(f) =~= Seq::<Seq<char>>::empty());
    while i < models.len()
        invariant
            i <= models@.len(),
            f == (|m: String| m@),
            s@ == models_listing(models@.take(i as int).map_values(f)),
        decreases models@.len() - i,
    {
        let ghost prev = models@.take(i as int).map_values(f);
        let ghost next = models@.take(i + 1).map_values(f);
        assert(next.drop_last() =~= prev);
        assert(next.last() == models@[i as int]@);
        if i > 0 {
            push_str(&mut s, "\n");
        }
        push_str(&mut s, "  - ");
        push_str(&mut s, models[i].as_str());
        proof {
            if i == 0 {
                assert(s@ =~= "  - "@ + next[0]);
            } else {
                assert(s@ =~= prev_listing(prev) + "\n"@ + "  - "@ + next.last());
            }
        }
        i += 1;
    }
    assert(models@.take(models@.len() as int) =~= models@);
    s
}

spec fn prev_listing(m: Seq<Seq<char>>) -> Seq<char> {
    models_listing(m)
}

/// Applies an event to the state and returns the outside work it asks for.
/// `index_file` is the path of the index file as shown to the user.
pub fn step(app: &mut App, event: Event, index_file: &str) -> (effects: Vec<Effect>)
    requires
        step_pre(*old(app), event),
    ensures
        step_post(*old(app), *final(app), event, index_file@, effects@),
{
    let mut effects: Vec<Effect> = Vec::new();
    match event {
        Event::Key(k) => {
            effects = key_step(app, k, index_file);
        },
        Event::Mouse(m) => {
            effects = mouse_step(app, m);
        },
        Event::LlmResponse(r) => {
            app.messages.push(Message::assistant(r));
            app.is_loading = false;
        },
        Event::LlmStreamChunk(c) => {
            match app.streaming_message.take() {
                Some(mut s) => {
                    push_str(&mut s, c.as_str());
                    app.streaming_message = Some(s);
                },
                None => {},
            }
        },
        Event::LlmStreamDone => {
            match app.streaming_message.take() {
                Some(s) => {
                    app.messages.push(Message::assistant(s));
                },
                None => {},
            }
            app.is_loading = false;
        },
        Event::LlmError(e) => {
            let ghost before = app.messages@;
            app.messages.push(Message::system(lit_then("Error: ", e.as_str())));
            assert(app.messages@.take(before.len() as int) =~= before);
            app.is_loading = false;
            app.streaming_message = None;
        },
        Event::ModelsList(models) => {
            let listing = listing_of(&models);
            let mut text = to_string("Available models:\n");
            push_str(&mut text, listing.as_str());
            let ghost before = app.messages@;
            app.messages.push(Message::assistant(text));
            assert(app.messages@.take(before.len() as int) =~= before);
            app.is_loading = false;
            reduce(app, Action::SetModels(models));
        },
        Event::IndexProgress(p) => {
            app.indexing_progress = Some(p);
        },
        Event::IndexComplete { files, chunks } => {
            app.indexing_progress = None;
            let mut s = to_string("Indexed ");
            push_decimal(&mut s, files as u64);
            push_str(&mut s, " files, ");
            push_decimal(&mut s, chunks as u64);
            push_str(&mut s, " chunks");
            app.status = s;
        },
        Event::Resize(_, _) => {
            if app.is_loading || app.streaming_message.is_some() {
                app.thinking_dots = (app.thinking_dots + 1) % 4;
            }
        },
        Event::Tick => {
            if app.is_loading || app.streaming_message.is_some() {
                app.thinking_dots = (app.thinking_dots + 1) % 4;
            }
        },
    }
    effects
}

} // verus!
