//! What the model-facing and input-facing operations are for, stated over
//! their inputs and results: the streamed answer keeps every text, the
//! prompt holds every read file, list items get bullets, each command word
//! names its own command, and the Delete key removes the character at the
//! cursor.
use crate::app::action::{reduce_post, reduce_pre, Action};
use crate::app::command::{parse_spec, CommandSpec};
use crate::laws::lemma_parse_word_with_argument;
use crate::app::state::{input_fits, App, FileReference};
use crate::client::types::ChatStreamResponse;
use crate::clients::ollama::{concat, stream_fold};
use crate::db::store::CodeChunk;
use crate::input::handler::{handle_spec, KeyCode, KeyEvent};
use crate::service::chat::{prompt_parts, ref_part, ref_parts};
use crate::text::{char_index, char_width, decimal, is_boundary, is_ws, starts_with, trim_start, utf8_len};
use crate::ui::markdown::{inline_spans, message_line_spans, message_line_spans_with};
use crate::ui::style::SpanStyle;
use vstd::prelude::*;

verus! {

// ---------------------------------------------------------------------------
// The streamed answer

/// The text a reply line carries (none for a line that is not a reply).
pub open spec fn reply_text(o: Option<ChatStreamResponse>) -> Seq<char> {
    match o {
        Some(r) => r.response@,
        None => seq![],
    }
}

/// The texts of reply lines, one after the other.
pub open spec fn replies_text(rs: Seq<Option<ChatStreamResponse>>) -> Seq<char> {
    rs.map_values(|o: Option<ChatStreamResponse>| reply_text(o)).flatten()
}

/// A reply line that neither ends the answer nor reports an error.
pub open spec fn continues(o: Option<ChatStreamResponse>) -> bool {
    match o {
        Some(r) => r.error is None && !r.done,
        None => true,
    }
}

proof fn lemma_concat_append(a: Seq<Seq<char>>, b: Seq<Seq<char>>)
    ensures
        concat(a + b) == concat(a) + concat(b),
    decreases b.len(),
{
    if b.len() == 0 {
        assert(a + b =~= a);
        assert(concat(a) + concat(b) =~= concat(a));
    } else {
        lemma_concat_append(a, b.drop_last());
        assert((a + b).drop_last() =~= a + b.drop_last());
        assert((a + b).last() == b.last());
        assert(concat(a) + concat(b.drop_last()) + b.last() =~= concat(a) + (concat(
            b.drop_last(),
        ) + b.last()));
    }
}

proof fn lemma_concat_one(t: Seq<char>)
    ensures
        concat(seq![t]) == t,
{
    assert(seq![t].drop_last() =~= Seq::<Seq<char>>::empty());
    assert(concat(seq![t].drop_last()) =~= Seq::<char>::empty());
    assert(Seq::<char>::empty() + t =~= t);
}

proof fn lemma_replies_text_first(rs: Seq<Option<ChatStreamResponse>>)
    requires
        rs.len() > 0,
    ensures
        replies_text(rs) == reply_text(rs[0]) + replies_text(rs.drop_first()),
{
    let f = |o: Option<ChatStreamResponse>| reply_text(o);
    assert(rs.map_values(f).drop_first() =~= rs.drop_first().map_values(f));
}

/// The answer gathered from a stream is every reply's text, in order, with
/// nothing left out: when the replies before position `k` neither end the
/// answer nor report an error, the emitted texts put together are all the
/// texts up to and including the reply at `k` that is marked done, or all
/// the texts before the reply at `k` that reports an error (which is then
/// handed back), or all the texts when no reply ends the stream.
pub proof fn law_stream_answer_keeps_every_text(
    replies: Seq<Option<ChatStreamResponse>>,
    k: int,
)
    requires
        0 <= k <= replies.len(),
        forall|j: int| 0 <= j < k ==> continues(#[trigger] replies[j]),
    ensures
        k == replies.len() ==> concat(stream_fold(replies).0) == replies_text(replies)
            && stream_fold(replies).1 is None,
        k < replies.len() && (replies[k] matches Some(r) && r.error is None && r.done) ==> concat(
            stream_fold(replies).0,
        ) == replies_text(replies.take(k + 1)) && stream_fold(replies).1 is None,
        k < replies.len() && (replies[k] matches Some(r) && r.error is Some) ==> concat(
            stream_fold(replies).0,
        ) == replies_text(replies.take(k)) && stream_fold(replies).1 == Some(
            replies[k]->0.error->0@,
        ),
    decreases k,
{
    let f = |o: Option<ChatStreamResponse>| reply_text(o);
    if replies.len() == 0 {
        assert(replies.map_values(f) =~= Seq::<Seq<char>>::empty());
        assert(concat(Seq::<Seq<char>>::empty()) =~= Seq::<char>::empty());
    } else {
        let rest = replies.drop_first();
        let fold = stream_fold(replies);
        lemma_replies_text_first(replies);
        if k == 0 {
            assert(replies.take(0).map_values(f) =~= Seq::<Seq<char>>::empty());
            assert(concat(Seq::<Seq<char>>::empty()) =~= Seq::<char>::empty());
            if k < replies.len() && (replies[k] matches Some(r) && r.error is None && r.done) {
                let r = replies[0]->0;
                lemma_replies_text_first(replies.take(1));
                assert(replies.take(1)[0] == replies[0]);
                assert(replies.take(1).drop_first().map_values(f) =~= Seq::<Seq<char>>::empty());
                assert(replies_text(replies.take(1)) =~= r.response@);
                if r.response@.len() > 0 {
                    lemma_concat_one(r.response@);
                } else {
                    assert(r.response@ =~= Seq::<char>::empty());
                }
            }
        } else {
            assert(continues(replies[0]));
            assert forall|j: int| 0 <= j < k - 1 implies continues(#[trigger] rest[j]) by {
                assert(rest[j] == replies[j + 1]);
            }
            law_stream_answer_keeps_every_text(rest, k - 1);
            assert(replies.take(k).drop_first() =~= rest.take(k - 1));
            lemma_replies_text_first(replies.take(k));
            assert(replies.take(k)[0] == replies[0]);
            if k < replies.len() {
                assert(rest[k - 1] == replies[k]);
                assert(replies.take(k + 1).drop_first() =~= rest.take(k));
                lemma_replies_text_first(replies.take(k + 1));
                assert(replies.take(k + 1)[0] == replies[0]);
            } else {
                assert(rest.take(k - 1) =~= rest);
                assert(replies.take(k) =~= replies);
            }
            match replies[0] {
                None => {
                    assert(reply_text(replies[0]) =~= Seq::<char>::empty());
                },
                Some(r) => {
                    let rf = stream_fold(rest);
                    let head: Seq<Seq<char>> = if r.response@.len() > 0 {
                        seq![r.response@]
                    } else {
                        seq![]
                    };
                    assert(fold == (head + rf.0, rf.1));
                    lemma_concat_append(head, rf.0);
                    if r.response@.len() > 0 {
                        lemma_concat_one(r.response@);
                    } else {
                        assert(r.response@ =~= Seq::<char>::empty());
                        assert(concat(head) =~= Seq::<char>::empty());
                    }
                },
            }
        }
    }
}

// ---------------------------------------------------------------------------
// The prompt

/// How many of the references from position `k` on have their content.
pub open spec fn read_count(refs: Seq<FileReference>, k: int) -> nat
    decreases refs.len() - k,
{
    if k < 0 || k >= refs.len() {
        0
    } else {
        read_count(refs, k + 1) + if refs[k].content is Some {
            1nat
        } else {
            0nat
        }
    }
}

proof fn lemma_read_count_mono(refs: Seq<FileReference>, k: int, i: int)
    requires
        0 <= k <= i <= refs.len(),
    ensures
        read_count(refs, i) <= read_count(refs, k),
    decreases i - k,
{
    if k < i {
        lemma_read_count_mono(refs, k + 1, i);
    }
}

proof fn lemma_ref_parts(refs: Seq<FileReference>, k: nat)
    ensures
        ref_parts(refs, k).len() == read_count(refs, k as int),
        forall|i: int|
            k <= i < refs.len() && (#[trigger] refs[i]).content is Some ==> read_count(
                refs,
                i,
            ) >= 1 && read_count(refs, k as int) >= read_count(refs, i) && ref_parts(refs, k)[read_count(
                refs,
                k as int,
            ) - read_count(refs, i)] == ref_part(i as nat, refs[i].path@, refs[i].content->0@),
    decreases refs.len() - k,
{
    if k < refs.len() {
        lemma_ref_parts(refs, k + 1);
        assert forall|i: int|
            k <= i < refs.len() && (#[trigger] refs[i]).content is Some implies read_count(
                refs,
                i,
            ) >= 1 && read_count(refs, k as int) >= read_count(refs, i) && ref_parts(refs, k)[read_count(
                refs,
                k as int,
            ) - read_count(refs, i)] == ref_part(i as nat, refs[i].path@, refs[i].content->0@) by {
            if i == k {
            } else {
                lemma_read_count_mono(refs, (k + 1) as int, i);
            }
        }
    }
}

/// The prompt holds one part per referenced file whose content was read,
/// in the order of the references, right after the `Referenced files:`
/// heading: the file at position `i` gives the part
/// `"\n[i+1] path:\ncontent\n"`, placed after the parts of the read files
/// before it. There are exactly as many file parts as read files, and the
/// prompt ends with the question.
pub proof fn law_prompt_holds_every_read_file(
    query: Seq<char>,
    refs: Seq<FileReference>,
    ctx: Seq<CodeChunk>,
)
    ensures
        ref_parts(refs, 0).len() == read_count(refs, 0),
        refs.len() > 0 ==> prompt_parts(query, refs, ctx)[0] == "Referenced files:"@,
        forall|i: int|
            0 <= i < refs.len() && (#[trigger] refs[i]).content is Some ==> prompt_parts(
                query,
                refs,
                ctx,
            )[1 + read_count(refs, 0) - read_count(refs, i)] == "\n["@ + decimal((i + 1) as nat)
                + "] "@ + refs[i].path@ + ":\n"@ + refs[i].content->0@ + "\n"@,
        prompt_parts(query, refs, ctx).last() == "\nQuestion: "@ + query,
{
    lemma_ref_parts(refs, 0);
}

// ---------------------------------------------------------------------------
// List items

/// A line whose text, after its leading whitespace, starts with `-` or `*`
/// and a space is a list item: a bullet `"• "` followed by the inline spans
/// of what comes after the marker.
pub proof fn law_list_items_get_bullets(line: Seq<char>, first_numeric: bool)
    requires
        trim_start(line).len() >= 2,
        trim_start(line)[0] == '-' || trim_start(line)[0] == '*',
        trim_start(line)[1] == ' ',
    ensures
        message_line_spans_with(line, first_numeric) == seq![("• "@, SpanStyle::Bullet)]
            + inline_spans(trim_start(line).skip(2)),
        message_line_spans(line) == seq![("• "@, SpanStyle::Bullet)] + inline_spans(
            trim_start(line).skip(2),
        ),
{
    reveal_strlit("### ");
    reveal_strlit("## ");
    reveal_strlit("# ");
    reveal_strlit("- ");
    reveal_strlit("* ");
    let t = trim_start(line);
    assert(!starts_with(t, "### "@)) by {
        if 4 <= t.len() {
            assert(t.take(4)[0] == t[0]);
        }
    }
    assert(!starts_with(t, "## "@)) by {
        if 3 <= t.len() {
            assert(t.take(3)[0] == t[0]);
        }
    }
    assert(!starts_with(t, "# "@)) by {
        assert(t.take(2)[0] == t[0]);
    }
    if t[0] == '-' {
        assert(t.take(2) =~= "- "@);
    } else {
        assert(t.take(2) =~= "* "@);
    }
}

// ---------------------------------------------------------------------------
// Commands

/// `/`, a command word, a space and an argument.
pub open spec fn typed(word: Seq<char>, arg: Seq<char>) -> Seq<char> {
    seq!['/'] + word + seq![' '] + arg
}

/// An argument that is one word.
pub open spec fn one_word(arg: Seq<char>) -> bool {
    arg.len() > 0 && forall|i: int| 0 <= i < arg.len() ==> !is_ws(#[trigger] arg[i])
}

/// Each command word of the help text, typed with a one-word argument,
/// names its own command; a model, path or name it takes is the argument.
#[verifier::spinoff_prover]
#[verifier::rlimit(80)]
pub proof fn law_each_command_word_names_its_command(arg: Seq<char>)
    requires
        one_word(arg),
    ensures
        parse_spec(typed("models"@, arg)) == Some(CommandSpec::Models),
        parse_spec(typed("switch"@, arg)) == Some(CommandSpec::Switch { model: arg }),
        parse_spec(typed("switch-embed"@, arg)) == Some(CommandSpec::SwitchEmbed { model: arg }),
        parse_spec(typed("index"@, arg)) == Some(CommandSpec::Index { path: arg }),
        parse_spec(typed("incremental-index"@, arg)) == Some(
            CommandSpec::IncrementalIndex { path: arg },
        ),
        parse_spec(typed("reindex"@, arg)) == Some(CommandSpec::Reindex),
        parse_spec(typed("save"@, arg)) == Some(CommandSpec::Save),
        parse_spec(typed("export"@, arg)) == Some(CommandSpec::Export { path: Some(arg) }),
        parse_spec(typed("import"@, arg)) == Some(CommandSpec::Import { path: arg }),
        parse_spec(typed("clear"@, arg)) == Some(CommandSpec::Clear),
        parse_spec(typed("clear-history"@, arg)) == Some(CommandSpec::ClearHistory),
        parse_spec(typed("benchmark"@, arg)) == Some(CommandSpec::Benchmark),
        parse_spec(typed("profiles"@, arg)) == Some(CommandSpec::Profiles),
        parse_spec(typed("profile"@, arg)) == Some(CommandSpec::Profile { name: arg }),
        parse_spec(typed("syntax"@, arg)) == Some(CommandSpec::SyntaxToggle),
        parse_spec(typed("help"@, arg)) == Some(CommandSpec::Help),
        parse_spec(typed("quit"@, arg)) == Some(CommandSpec::Quit),
{
    reveal_strlit("models");
    reveal_strlit("switch");
    reveal_strlit("switch-embed");
    reveal_strlit("index");
    reveal_strlit("incremental-index");
    reveal_strlit("smart-index");
    reveal_strlit("reindex");
    reveal_strlit("save");
    reveal_strlit("export");
    reveal_strlit("import");
    reveal_strlit("clear");
    reveal_strlit("clear-history");
    reveal_strlit("benchmark");
    reveal_strlit("bench");
    reveal_strlit("profiles");
    reveal_strlit("profile");
    reveal_strlit("syntax");
    reveal_strlit("highlight");
    reveal_strlit("help");
    reveal_strlit("h");
    reveal_strlit("?");
    reveal_strlit("quit");
    reveal_strlit("q");
    reveal_strlit("exit");
    assert("switch"@[0] != "models"@[0]);
    assert("export"@[0] != "models"@[0]);
    assert("export"@[0] != "switch"@[0]);
    assert("import"@[0] != "models"@[0]);
    assert("import"@[0] != "switch"@[0]);
    assert("import"@[0] != "export"@[0]);
    assert("clear"@[0] != "index"@[0]);
    assert("profile"@[0] != "reindex"@[0]);
    assert("syntax"@[0] != "models"@[0]);
    assert("syntax"@[1] != "switch"@[1]);
    assert("syntax"@[0] != "export"@[0]);
    assert("syntax"@[0] != "import"@[0]);
    assert("help"@[0] != "save"@[0]);
    assert("quit"@[0] != "save"@[0]);
    assert("quit"@[0] != "help"@[0]);
    lemma_parse_word_with_argument("models"@, arg);
    lemma_parse_word_with_argument("switch"@, arg);
    lemma_parse_word_with_argument("switch-embed"@, arg);
    lemma_parse_word_with_argument("index"@, arg);
    lemma_parse_word_with_argument("incremental-index"@, arg);
    lemma_parse_word_with_argument("reindex"@, arg);
    lemma_parse_word_with_argument("save"@, arg);
    lemma_parse_word_with_argument("export"@, arg);
    lemma_parse_word_with_argument("import"@, arg);
    lemma_parse_word_with_argument("clear"@, arg);
    lemma_parse_word_with_argument("clear-history"@, arg);
    lemma_parse_word_with_argument("benchmark"@, arg);
    lemma_parse_word_with_argument("profiles"@, arg);
    lemma_parse_word_with_argument("profile"@, arg);
    lemma_parse_word_with_argument("syntax"@, arg);
    lemma_parse_word_with_argument("help"@, arg);
    lemma_parse_word_with_argument("quit"@, arg);
}

// ---------------------------------------------------------------------------
// Editing keys

/// The action a key press (without Control, no suggestions shown) leads to.
pub open spec fn key_action(code: KeyCode, input: Seq<char>) -> Option<Action> {
    handle_spec(KeyEvent { code, control: false }, input, false)
}

/// The editing keys do what they say on the input line: Left and Right move
/// the cursor one place back or forward within the input, Home moves it to
/// the start, a typed character is inserted at the cursor with the cursor
/// after it, Backspace on a non-empty input removes the character before
/// the cursor and moves the cursor back over it, and End does nothing.
/// (The input's length and the cursor past a typed character fit in a
/// `usize`.)
pub proof fn law_editing_keys(app: App, post: App, c: char)
    requires
        input_fits(app),
        app.cursor_pos + char_width(c) <= usize::MAX,
    ensures
        key_action(KeyCode::Left, app.input@) matches Some(a) && (reduce_post(app, post, a)
            ==> post == (App {
            cursor_pos: if app.cursor_pos > 0 {
                (app.cursor_pos - 1) as usize
            } else {
                0
            },
            ..app
        })),
        key_action(KeyCode::Right, app.input@) matches Some(a) && (reduce_post(app, post, a) ==> (
        post == (App {
            cursor_pos: post.cursor_pos,
            ..app
        }) && post.cursor_pos == if app.cursor_pos < utf8_len(app.input@) {
            app.cursor_pos + 1
        } else {
            app.cursor_pos as int
        })),
        key_action(KeyCode::Home, app.input@) matches Some(a) && (reduce_post(app, post, a)
            ==> post == (App { cursor_pos: 0, ..app })),
        key_action(KeyCode::End, app.input@) is None,
        key_action(KeyCode::Char(c), app.input@) matches Some(a) && (reduce_post(app, post, a) ==> {
            let k = char_index(app.input@, app.cursor_pos as int);
            &&& post == (App { input: post.input, cursor_pos: post.cursor_pos, ..app })
            &&& post.input@ == app.input@.take(k) + seq![c] + app.input@.skip(k)
            &&& post.cursor_pos == app.cursor_pos + char_width(c)
        }),
        app.input@.len() > 0 ==> (key_action(KeyCode::Backspace, app.input@) matches Some(a) && (
        reduce_post(app, post, a) && app.cursor_pos > 0 ==> {
            let k = char_index(app.input@, app.cursor_pos - 1);
            &&& post == (App { input: post.input, cursor_pos: post.cursor_pos, ..app })
            &&& post.input@ == app.input@.take(k) + app.input@.skip(k + 1)
            &&& post.cursor_pos == app.cursor_pos - 1
        })),
{
    let k = char_index(app.input@, app.cursor_pos as int);
    assert(app.input@.take(k).push(c) =~= app.input@.take(k) + seq![c]);
    if app.input@.len() > 0 && app.cursor_pos > 0 {
        let j = char_index(app.input@, app.cursor_pos - 1);
        if 0 <= j < app.input@.len() {
            assert(app.input@.remove(j) =~= app.input@.take(j) + app.input@.skip(j + 1));
        }
    }
}

// ---------------------------------------------------------------------------
// The Delete key

/// Pressing Delete (no suggestions shown) removes the character at the
/// cursor and leaves the cursor where it is: the character before the
/// cursor stays, and at the start of the input the first character goes.
pub proof fn law_delete_key_removes_the_character_at_the_cursor(app: App, post: App)
    requires
        app.cursor_pos < utf8_len(app.input@),
        is_boundary(app.input@, app.cursor_pos as int),
        input_fits(app),
    ensures
        handle_spec(KeyEvent { code: KeyCode::Delete, control: false }, app.input@, false) matches Some(
            a,
        ) && reduce_pre(app, a) && (reduce_post(app, post, a) ==> post == (App {
            input: post.input,
            ..app
        }) && post.input@ == app.input@.remove(char_index(app.input@, app.cursor_pos as int))),
{
}

} // verus!
