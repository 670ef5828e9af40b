//! The chat panel: the conversation laid out as wrapped lines, the part of
//! it that fits the panel, and the style of each shown line.
use crate::app::state::{App, Message, MessageSource};
use crate::scrapper::strings_view;
use crate::text::{lines, split_lines, starts_with, string_of, to_string};
use crate::ui::markdown::{highlight_message_line, message_line_spans};
use crate::ui::render::{wrap_line, wrapped};
use crate::ui::style::{single, spans_view, SpanStyle, StyledSpan};
use vstd::prelude::*;

verus! {

broadcast use vstd::seq_lib::group_seq_properties;

/// The wrapped pieces of the lines `ls`, one after another.
pub open spec fn wrapped_all(ls: Seq<Seq<char>>, w: nat) -> Seq<Seq<char>>
    decreases ls.len(),
{
    if ls.len() == 0 {
        seq![]
    } else {
        wrapped_all(ls.drop_last(), w) + wrapped(ls.last(), w)
    }
}

/// The lines of `text`, each wrapped to `w` characters.
pub open spec fn wrapped_text(text: Seq<char>, w: nat) -> Seq<Seq<char>> {
    wrapped_all(lines(text), w)
}

/// The line that names who wrote a message.
pub open spec fn source_label(s: MessageSource) -> Seq<char> {
    match s {
        MessageSource::User => "You:"@,
        MessageSource::Assistant => "AI:"@,
        MessageSource::System => "System:"@,
    }
}

/// A message as shown: its author line, its wrapped text and an empty line.
pub open spec fn message_block(m: Message, w: nat) -> Seq<Seq<char>> {
    seq![source_label(m.source)] + wrapped_text(m.content@, w) + seq![seq![]]
}

/// The blocks of the messages `ms`, one after another.
pub open spec fn messages_lines(ms: Seq<Message>, w: nat) -> Seq<Seq<char>>
    decreases ms.len(),
{
    if ms.len() == 0 {
        seq![]
    } else {
        messages_lines(ms.drop_last(), w) + message_block(ms.last(), w)
    }
}

/// `"Thinking"` followed by `dots % 4` dots.
pub open spec fn thinking_line(dots: nat) -> Seq<char> {
    "Thinking"@ + Seq::new(dots % 4, |i: int| '.')
}

/// What follows the messages: the answer being streamed under an `AI:` line,
/// or a "Thinking" line while it is empty or while an answer is awaited.
pub open spec fn pending_lines(app: App, w: nat) -> Seq<Seq<char>> {
    match app.streaming_message {
        Some(s) => if s@.len() == 0 {
            seq![thinking_line(app.thinking_dots as nat)]
        } else {
            seq!["AI:"@] + wrapped_text(s@, w)
        },
        None => if app.is_loading {
            seq![thinking_line(app.thinking_dots as nat)]
        } else {
            seq![]
        },
    }
}

/// Every line of the chat panel, before scrolling.
pub open spec fn chat_lines_spec(app: App, w: nat) -> Seq<Seq<char>> {
    messages_lines(app.messages@, w) + pending_lines(app, w)
}

/// How a chat line is shown: an author line as a label, a "Thinking" line
/// in its own style, any other line with its markdown styling.
pub open spec fn chat_line_spans(line: Seq<char>) -> Seq<(Seq<char>, SpanStyle)> {
    if line == "You:"@ {
        seq![(" You: "@, SpanStyle::UserLabel)]
    } else if line == "AI:"@ {
        seq![(" AI: "@, SpanStyle::AssistantLabel)]
    } else if line == "System:"@ {
        seq![(" System: "@, SpanStyle::SystemLabel)]
    } else if starts_with(line, "Thinking"@) {
        seq![(line, SpanStyle::Thinking)]
    } else {
        message_line_spans(line)
    }
}

/// `a - b`, or 0 when `b` is larger.
pub open spec fn sat_sub(a: int, b: int) -> int {
    if a > b {
        a - b
    } else {
        0
    }
}

/// The first line shown: the last page when following the bottom, else the
/// scroll position kept within `max_scroll`.
pub open spec fn scroll_offset(app: App, max_scroll: int) -> int {
    if app.follow_bottom {
        max_scroll
    } else if app.chat_scroll < max_scroll {
        app.chat_scroll as int
    } else {
        max_scroll
    }
}

/// Appends `pieces` to `out`.
fn append_strings(out: &mut Vec<String>, pieces: Vec<String>)
    ensures
        strings_view(final(out)@) == strings_view(old(out)@) + strings_view(pieces@),
{
    let mut p = pieces;
    let ghost pv = strings_view(p@);
    out.append(&mut p);
    assert(strings_view(out@) =~= strings_view(old(out)@) + pv);
}

/// Appends the lines of `text`, each wrapped to `w` characters.
fn push_wrapped_text(out: &mut Vec<String>, text: &str, w: usize)
    ensures
        strings_view(final(out)@) == strings_view(old(out)@) + wrapped_text(text@, w as nat),
{
    let ls = split_lines(text);
    let ghost all = lines(text@);
    let mut i: usize = 0;
    assert(all.take(0) =~= Seq::<Seq<char>>::empty());
    assert(strings_view(out@) =~= strings_view(old(out)@) + wrapped_all(all.take(0), w as nat));
    while i < ls.len()
        invariant
            i <= ls@.len(),
            all == lines(text@),
            ls@.len() == all.len(),
            forall|k: int| 0 <= k < ls@.len() ==> (#[trigger] ls@[k])@ == all[k],
            strings_view(out@) == strings_view(old(out)@) + wrapped_all(all.take(i as int), w as nat),
        decreases ls@.len() - i,
    {
        let line = string_of(&ls[i]);
        let pieces = wrap_line(line.as_str(), w);
        append_strings(out, pieces);
        assert(all.take(i + 1).drop_last() =~= all.take(i as int));
        assert(all.take(i + 1).last() == all[i as int]);
        i += 1;
    }
    assert(all.take(ls@.len() as int) =~= all);
}

fn push_string(out: &mut Vec<String>, s: String)
    ensures
        strings_view(final(out)@) == strings_view(old(out)@).push(s@),
{
    let ghost sv = s@;
    out.push(s);
    assert(strings_view(out@) =~= strings_view(old(out)@).push(sv));
}

fn label_of(s: MessageSource) -> (r: String)
    ensures
        r@ == source_label(s),
{
    match s {
        MessageSource::User => to_string("You:"),
        MessageSource::Assistant => to_string("AI:"),
        MessageSource::System => to_string("System:"),
    }
}

/// The "Thinking" line for `dots`.
pub fn thinking_text(dots: usize) -> (r: String)
    ensures
        r@ == thinking_line(dots as nat),
{
    let mut s = to_string("Thinking");
    let k = dots % 4;
    let ghost base = s@;
    let mut i: usize = 0;
    while i < k
        invariant
            i <= k,
            k == dots % 4,
            base == "Thinking"@,
            s@ == base + Seq::new(i as nat, |j: int| '.'),
        decreases k - i,
    {
        s.push('.');
        i += 1;
        assert(s@ =~= base + Seq::new(i as nat, |j: int| '.'));
    }
    s
}

/// Every line of the chat panel, before scrolling, for a text width of
/// `width` characters.
pub fn chat_lines(app: &App, width: usize) -> (r: Vec<String>)
    ensures
        strings_view(r@) == chat_lines_spec(*app, width as nat),
{
    let mut out: Vec<String> = Vec::new();
    let mut i: usize = 0;
    let ghost w = width as nat;
    let ghost ms = app.messages@;
    assert(ms.take(0) =~= Seq::<Message>::empty());
    assert(strings_view(out@) =~= messages_lines(ms.take(0), w));
    while i < app.messages.len()
        invariant
            i <= ms.len(),
            ms == app.messages@,
            w == width as nat,
            strings_view(out@) == messages_lines(ms.take(i as int), w),
        decreases ms.len() - i,
    {
        let m = &app.messages[i];
        let ghost before = strings_view(out@);
        push_string(&mut out, label_of(m.source));
        push_wrapped_text(&mut out, m.content.as_str(), width);
        push_string(&mut out, String::new());
        assert(ms.take(i + 1).drop_last() =~= ms.take(i as int));
        assert(ms.take(i + 1).last() == *m);
        assert(strings_view(out@) =~= before + message_block(*m, w));
        i += 1;
    }
    assert(ms.take(ms.len() as int) =~= ms);
    let ghost head = strings_view(out@);
    match &app.streaming_message {
        Some(s) => {
            if s.as_str().is_empty() {
                push_string(&mut out, thinking_text(app.thinking_dots));
            } else {
                push_string(&mut out, to_string("AI:"));
                push_wrapped_text(&mut out, s.as_str(), width);
            }
        },
        None => {
            if app.is_loading {
                push_string(&mut out, thinking_text(app.thinking_dots));
            }
        },
    }
    assert(strings_view(out@) =~= head + pending_lines(*app, w));
    out
}

/// The styled spans of one chat line.
pub fn style_chat_line(line: &str) -> (r: Vec<StyledSpan>)
    ensures
        spans_view(r@) == chat_line_spans(line@),
{
    let v = crate::text::chars_of(line);
    if crate::text::eq_lit(&v, "You:") {
        single(to_string(" You: "), SpanStyle::UserLabel)
    } else if crate::text::eq_lit(&v, "AI:") {
        single(to_string(" AI: "), SpanStyle::AssistantLabel)
    } else if crate::text::eq_lit(&v, "System:") {
        single(to_string(" System: "), SpanStyle::SystemLabel)
    } else if crate::text::starts_with_lit(&v, "Thinking") {
        single(to_string(line), SpanStyle::Thinking)
    } else {
        highlight_message_line(line)
    }
}

impl App {
    /// Lays out the chat panel for `visible` rows of `width` characters:
    /// records how far it can scroll in `max_scroll` and returns the styled
    /// lines shown, from the scroll offset on.
    pub fn chat_view(&mut self, visible: usize, width: usize) -> (r: Vec<Vec<StyledSpan>>)
        ensures
            ({
                let all = chat_lines_spec(*old(self), width as nat);
                let max = sat_sub(all.len() as int, visible as int);
                let off = scroll_offset(*old(self), max);
                &&& *final(self) == (App { max_scroll: max as usize, ..*old(self) })
                &&& r@.len() == if all.len() - off < visible {
                    all.len() - off
                } else {
                    visible as int
                }
                &&& forall|k: int|
                    0 <= k < r@.len() ==> spans_view((#[trigger] r@[k])@) == chat_line_spans(
                        all[off + k],
                    )
            }),
    {
        let all = chat_lines(self, width);
        let ghost av = strings_view(all@);
        let total = all.len();
        self.max_scroll = if total > visible {
            total - visible
        } else {
            0
        };
        let offset = if self.follow_bottom {
            self.max_scroll
        } else if self.chat_scroll < self.max_scroll {
            self.chat_scroll
        } else {
            self.max_scroll
        };
        let end = if total - offset < visible {
            total
        } else {
            offset + visible
        };
        let mut r: Vec<Vec<StyledSpan>> = Vec::new();
        let mut k: usize = offset;
        while k < end
            invariant
                offset <= k <= end <= total,
                total == all@.len(),
                av == strings_view(all@),
                r@.len() == k - offset,
                forall|j: int|
                    0 <= j < r@.len() ==> spans_view((#[trigger] r@[j])@) == chat_line_spans(
                        av[offset + j],
                    ),
            decreases end - k,
        {
            let line = style_chat_line(all[k].as_str());
            r.push(line);
            k += 1;
        }
        r
    }
}

/// What the chat panel's border tells: an answer arriving, an answer
/// awaited, or neither.
#[derive(Debug, Clone, Copy, PartialEq, Eq, Structural)]
pub enum ChatActivity {
    Streaming,
    Loading,
    Idle,
}

/// The activity shown by the chat panel's border.
pub fn chat_activity(app: &App) -> (a: ChatActivity)
    ensures
        a == if app.streaming_message is Some {
            ChatActivity::Streaming
        } else if app.is_loading {
            ChatActivity::Loading
        } else {
            ChatActivity::Idle
        },
{
    if app.streaming_message.is_some() {
        ChatActivity::Streaming
    } else if app.is_loading {
        ChatActivity::Loading
    } else {
        ChatActivity::Idle
    }
}

} // verus!
