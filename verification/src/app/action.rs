//! Actions that change the application state, and the reducer applying them.
use crate::app::state::{
    backspaced, can_backspace, can_insert, input_fits, inserted, word_at_cursor,
    word_at_cursor_defined, word_start, App, Message, MessageSource,
};
use crate::text::{
    byte_len_of, char_index, chars_of_string, find_char_index, is_boundary,
    lemma_utf8_len_concat, splice, starts_with_char, string_of, trim, trimmed_chars, utf8_len,
};
use crate::app::command::{is_command_line, is_command_line_spec};
use vstd::prelude::*;

verus! {

/// Something the user asked of the application.
#[derive(Debug, Clone)]
pub enum Action {
    Quit,
    InsertChar(char),
    DeleteChar,
    Backspace,
    CursorLeft,
    CursorRight,
    CursorTo(usize),
    SendMessage,
    ExecuteCommand,
    ScrollChatUp,
    ScrollChatDown,
    ScrollContextUp,
    ScrollContextDown,
    NextCompletion,
    PrevCompletion,
    ApplyCompletion,
    HideSuggestions,
    SetModels(Vec<String>),
    /// Escape without open suggestions; it leaves the state as it is.
    Cancel,
}

/// Index of the first occurrence of `c` in `s`, or `s.len()` when absent.
pub open spec fn first_index_of(s: Seq<char>, c: char) -> int
    decreases s.len(),
{
    if s.len() == 0 {
        0
    } else if s[0] == c {
        0
    } else {
        1 + first_index_of(s.drop_first(), c)
    }
}

pub proof fn lemma_first_index_of(s: Seq<char>, c: char)
    ensures
        0 <= first_index_of(s, c) <= s.len(),
        first_index_of(s, c) < s.len() ==> s[first_index_of(s, c)] == c,
        forall|j: int| 0 <= j < first_index_of(s, c) ==> #[trigger] s[j] != c,
    decreases s.len(),
{
    if s.len() > 0 && s[0] != c {
        lemma_first_index_of(s.drop_first(), c);
        assert forall|j: int| 0 <= j < first_index_of(s, c) implies #[trigger] s[j] != c by {
            if j > 0 {
                assert(s[j] == s.drop_first()[j - 1]);
            }
        }
    }
}

/// The suggestion that `ApplyCompletion` applies, when there is one.
pub open spec fn applied_suggestion(app: App) -> Option<Seq<char>> {
    if app.show_suggestions && app.suggestions@.len() > 0 && app.suggestion_index
        < app.suggestions@.len() {
        Some(app.suggestions@[app.suggestion_index as int]@)
    } else {
        None
    }
}

/// The input that applying suggestion `s` to a command line produces.
pub open spec fn command_completion(input: Seq<char>, s: Seq<char>) -> Seq<char> {
    if starts_with_char(s, '/') {
        s + " "@
    } else {
        input.take(first_index_of(input, ' ')) + " "@ + s
    }
}

/// The input that applying suggestion `s` to the `@word` at the cursor produces.
pub open spec fn word_completion(input: Seq<char>, cursor: int, s: Seq<char>) -> Seq<char> {
    input.take(word_start(input, cursor)) + s + input.skip(char_index(input, cursor))
}

/// What `reduce` needs to run without panicking or overflowing.
pub open spec fn reduce_pre(app: App, action: Action) -> bool {
    match action {
        Action::InsertChar(c) => can_insert(app, c),
        Action::DeleteChar => input_fits(app) && (app.cursor_pos < utf8_len(app.input@)
            ==> is_boundary(app.input@, app.cursor_pos as int)),
        Action::Backspace => can_backspace(app),
        Action::CursorRight => input_fits(app),
        Action::CursorTo(_) => input_fits(app),
        Action::ScrollChatDown => app.chat_scroll < usize::MAX,
        Action::ScrollContextDown => app.context_scroll < usize::MAX,
        Action::ApplyCompletion => match applied_suggestion(app) {
            Some(s) => if starts_with_char(trim(app.input@), '/') {
                utf8_len(command_completion(app.input@, s)) <= usize::MAX
            } else {
                &&& word_at_cursor_defined(app.input@, app.cursor_pos as int)
                &&& word_at_cursor(app.input@, app.cursor_pos as int) is Some ==> utf8_len(
                    word_completion(app.input@, app.cursor_pos as int, s),
                ) <= usize::MAX
            },
            None => true,
        },
        _ => true,
    }
}

/// How `reduce` relates the state before an action to the state after it.
pub open spec fn reduce_post(pre: App, post: App, action: Action) -> bool {
    match action {
        Action::Quit => post == (App { running: false, ..pre }),
        Action::InsertChar(c) => inserted(pre, post, c),
        Action::DeleteChar => if pre.cursor_pos < utf8_len(pre.input@) {
            &&& post == (App { input: post.input, ..pre })
            &&& post.input@ == pre.input@.remove(char_index(pre.input@, pre.cursor_pos as int))
        } else {
            post == pre
        },
        Action::Backspace => backspaced(pre, post),
        Action::CursorLeft => post == (App {
            cursor_pos: if pre.cursor_pos > 0 {
                (pre.cursor_pos - 1) as usize
            } else {
                pre.cursor_pos
            },
            ..pre
        }),
        Action::CursorRight => post == (App {
            cursor_pos: if pre.cursor_pos < utf8_len(pre.input@) {
                (pre.cursor_pos + 1) as usize
            } else {
                pre.cursor_pos
            },
            ..pre
        }),
        Action::CursorTo(pos) => post == (App {
            cursor_pos: if pos < utf8_len(pre.input@) {
                pos
            } else {
                utf8_len(pre.input@) as usize
            },
            ..pre
        }),
        Action::SendMessage => if pre.input@.len() > 0 && !is_command_line_spec(pre.input@) {
            &&& post == (App {
                input: post.input,
                messages: post.messages,
                cursor_pos: 0,
                is_loading: true,
                show_suggestions: false,
                ..pre
            })
            &&& post.input@ == Seq::<char>::empty()
            &&& post.messages@.len() == pre.messages@.len() + 1
            &&& post.messages@.take(pre.messages@.len() as int) == pre.messages@
            &&& post.messages@.last().source == MessageSource::User
            &&& post.messages@.last().content@ == pre.input@
        } else {
            post == pre
        },
        Action::ExecuteCommand => if is_command_line_spec(pre.input@) {
            &&& post == (App { status: post.status, ..pre })
            &&& post.status@ == "Executed: "@ + pre.input@
        } else {
            post == pre
        },
        Action::ScrollChatUp => post == (App {
            chat_scroll: if pre.chat_scroll > 0 {
                (pre.chat_scroll - 1) as usize
            } else {
                0
            },
            ..pre
        }),
        Action::ScrollChatDown => post == (App { chat_scroll: (pre.chat_scroll + 1) as usize, ..pre }),
        Action::ScrollContextUp => post == (App {
            context_scroll: if pre.context_scroll > 0 {
                (pre.context_scroll - 1) as usize
            } else {
                0
            },
            ..pre
        }),
        Action::ScrollContextDown => post == (App {
            context_scroll: (pre.context_scroll + 1) as usize,
            ..pre
        }),
        Action::NextCompletion => if pre.show_suggestions {
            post == (App {
                suggestion_index: if pre.suggestion_index + 1 < pre.suggestions@.len() {
                    (pre.suggestion_index + 1) as usize
                } else {
                    0
                },
                ..pre
            })
        } else {
            post == pre
        },
        Action::PrevCompletion => if pre.show_suggestions {
            post == (App {
                suggestion_index: if pre.suggestion_index > 0 {
                    (pre.suggestion_index - 1) as usize
                } else if pre.suggestions@.len() > 0 {
                    (pre.suggestions@.len() - 1) as usize
                } else {
                    0
                },
                ..pre
            })
        } else {
            post == pre
        },
        Action::ApplyCompletion => if !pre.show_suggestions || pre.suggestions@.len() == 0 {
            post == pre
        } else {
            match applied_suggestion(pre) {
                None => post == (App { show_suggestions: false, ..pre }),
                Some(s) => if starts_with_char(trim(pre.input@), '/') {
                    let ni = command_completion(pre.input@, s);
                    &&& post == (App {
                        input: post.input,
                        cursor_pos: utf8_len(ni) as usize,
                        show_suggestions: false,
                        ..pre
                    })
                    &&& post.input@ == ni
                } else {
                    match word_at_cursor(pre.input@, pre.cursor_pos as int) {
                        Some((start, _)) => {
                            let ni = word_completion(pre.input@, pre.cursor_pos as int, s);
                            &&& post == (App {
                                input: post.input,
                                cursor_pos: (start + utf8_len(s)) as usize,
                                show_suggestions: false,
                                ..pre
                            })
                            &&& post.input@ == ni
                        },
                        None => post == (App { show_suggestions: false, ..pre }),
                    }
                },
            }
        },
        Action::HideSuggestions => post == (App { show_suggestions: false, ..pre }),
        Action::SetModels(models) => post == (App { available_models: models, ..pre }),
        Action::Cancel => post == pre,
    }
}

/// Applies an action to the state.
pub fn reduce(app: &mut App, action: Action)
    requires
        reduce_pre(*old(app), action),
    ensures
        reduce_post(*old(app), *final(app), action),
{
    match action {
        Action::Quit => {
            app.running = false;
        },
        Action::InsertChar(c) => {
            app.insert_char(c);
        },
        Action::DeleteChar => {
            app.delete_char_at_cursor();
        },
        Action::Backspace => {
            app.delete_char_before_cursor();
        },
        Action::CursorLeft => {
            app.move_cursor_left();
        },
        Action::CursorRight => {
            app.move_cursor_right();
        },
        Action::CursorTo(pos) => {
            app.move_cursor_to(pos);
        },
        Action::SendMessage => {
            let is_empty = app.input.as_str().is_empty();
            if !is_empty && !is_command_line(app.input.as_str()) {
                let content = app.input.clone();
                let ghost before = app.messages@;
                app.messages.push(Message::user(content));
                assert(app.messages@.take(before.len() as int) =~= before);
                app.input = String::new();
                app.cursor_pos = 0;
                app.is_loading = true;
                app.show_suggestions = false;
            }
        },
        Action::ExecuteCommand => {
            if is_command_line(app.input.as_str()) {
                let mut status = crate::text::to_string("Executed: ");
                crate::text::push_str(&mut status, app.input.as_str());
                app.status = status;
            }
        },
        Action::ScrollChatUp => {
            if app.chat_scroll > 0 {
                app.chat_scroll -= 1;
            }
        },
        Action::ScrollChatDown => {
            app.chat_scroll += 1;
        },
        Action::ScrollContextUp => {
            if app.context_scroll > 0 {
                app.context_scroll -= 1;
            }
        },
        Action::ScrollContextDown => {
            app.context_scroll += 1;
        },
        Action::NextCompletion => {
            if app.show_suggestions {
                let last = if app.suggestions.len() > 0 {
                    app.suggestions.len() - 1
                } else {
                    0
                };
                if app.suggestion_index < last {
                    app.suggestion_index += 1;
                } else {
                    app.suggestion_index = 0;
                }
            }
        },
        Action::PrevCompletion => {
            if app.show_suggestions {
                if app.suggestion_index > 0 {
                    app.suggestion_index -= 1;
                } else {
                    app.suggestion_index = if app.suggestions.len() > 0 {
                        app.suggestions.len() - 1
                    } else {
                        0
                    };
                }
            }
        },
        Action::ApplyCompletion => {
            apply_completion(app);
        },
        Action::HideSuggestions => {
            app.show_suggestions = false;
        },
        Action::SetModels(models) => {
            app.available_models = models;
        },
        Action::Cancel => {},
    }
}

/// Position of the first `c` in `v`, or `v.len()`.
pub fn find_char(v: &Vec<char>, c: char) -> (i: usize)
    ensures
        i == first_index_of(v@, c),
        i <= v.len(),
{
    proof {
        lemma_first_index_of(v@, c);
    }
    let mut i: usize = 0;
    assert(v@.skip(0) =~= v@);
    while i < v.len() && v[i] != c
        invariant
            i <= v.len(),
            first_index_of(v@, c) == i + first_index_of(v@.skip(i as int), c),
        decreases v.len() - i,
    {
        assert(v@.skip(i as int).drop_first() =~= v@.skip(i + 1));
        i += 1;
    }
    i
}

/// The new input when a suggestion is applied to a command line.
fn complete_command(input: &Vec<char>, sugg: &Vec<char>) -> (nv: Vec<char>)
    ensures
        nv@ == command_completion(input@, sugg@),
{
    if sugg.len() > 0 && sugg[0] == '/' {
        let mut sp: Vec<char> = Vec::new();
        sp.push(' ');
        let nv = splice(sugg, sugg.len(), sugg.len(), &sp);
        proof {
            assert(sugg@.take(sugg@.len() as int) =~= sugg@);
            assert(sugg@.skip(sugg@.len() as int) =~= Seq::<char>::empty());
            assert(" "@ =~= sp@) by {
                reveal_strlit(" ");
            }
            assert(nv@ =~= command_completion(input@, sugg@));
        }
        nv
    } else {
        let sp_pos = find_char(input, ' ');
        let mut ins: Vec<char> = Vec::new();
        ins.push(' ');
        let mut j: usize = 0;
        while j < sugg.len()
            invariant
                j <= sugg.len(),
                ins@ == seq![' '] + sugg@.take(j as int),
            decreases sugg.len() - j,
        {
            ins.push(sugg[j]);
            j += 1;
            assert(ins@ =~= seq![' '] + sugg@.take(j as int));
        }
        let nv = splice(input, sp_pos, input.len(), &ins);
        proof {
            assert(sugg@.take(sugg@.len() as int) =~= sugg@);
            assert(input@.skip(input@.len() as int) =~= Seq::<char>::empty());
            assert(" "@ =~= seq![' ']) by {
                reveal_strlit(" ");
            }
            assert(nv@ =~= command_completion(input@, sugg@));
        }
        nv
    }
}

fn apply_completion(app: &mut App)
    requires
        reduce_pre(*old(app), Action::ApplyCompletion),
    ensures
        reduce_post(*old(app), *final(app), Action::ApplyCompletion),
{
    if !(app.show_suggestions && app.suggestions.len() > 0) {
        return;
    }
    if app.suggestion_index < app.suggestions.len() {
        let sugg = chars_of_string(&app.suggestions[app.suggestion_index]);
        let t = trimmed_chars(app.input.as_str());
        if t.len() > 0 && t[0] == '/' {
            let input = chars_of_string(&app.input);
            let nv = complete_command(&input, &sugg);
            let n = byte_len_of(&nv);
            app.input = string_of(&nv);
            app.cursor_pos = n;
        } else {
            match app.get_word_at_cursor() {
                Some((start, _)) => {
                    let (nv, w) = complete_word(app, &sugg);
                    app.input = string_of(&nv);
                    app.cursor_pos = start + w;
                },
                None => {},
            }
        }
    }
    app.show_suggestions = false;
}

/// The new input when a suggestion replaces the `@word` at the cursor, and
/// the suggestion's byte length.
fn complete_word(app: &App, sugg: &Vec<char>) -> (r: (Vec<char>, usize))
    requires
        word_at_cursor_defined(app.input@, app.cursor_pos as int),
        word_at_cursor(app.input@, app.cursor_pos as int) is Some,
        utf8_len(word_completion(app.input@, app.cursor_pos as int, sugg@)) <= usize::MAX,
    ensures
        r.0@ == word_completion(app.input@, app.cursor_pos as int, sugg@),
        r.1 == utf8_len(sugg@),
        match word_at_cursor(app.input@, app.cursor_pos as int) {
            Some((start, _)) => start + utf8_len(sugg@) <= usize::MAX,
            None => true,
        },
{
    let input = chars_of_string(&app.input);
    let k = find_char_index(&input, app.cursor_pos).unwrap();
    let ws = word_start_index(&input, k);
    let nv = splice(&input, ws, k, sugg);
    proof {
        lemma_utf8_len_concat(input@.take(ws as int), sugg@);
        lemma_utf8_len_concat(input@.take(ws as int) + sugg@, input@.skip(k as int));
    }
    let w = byte_len_of(sugg);
    (nv, w)
}

/// The character index at which the word ending at character `k` starts.
fn word_start_index(v: &Vec<char>, k: usize) -> (j: usize)
    requires
        k <= v.len(),
    ensures
        j == crate::app::state::last_ws_before(v@, k as int) + 1,
        j <= k,
{
    let mut j: usize = k;
    while j > 0 && !crate::text::is_whitespace(v[j - 1])
        invariant
            j <= k <= v.len(),
            crate::app::state::last_ws_before(v@, k as int)
                == crate::app::state::last_ws_before(v@, j as int),
        decreases j,
    {
        j -= 1;
    }
    j
}

} // verus!
