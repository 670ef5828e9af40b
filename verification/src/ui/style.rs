//! How the pieces of text on screen are styled.
use vstd::prelude::*;

verus! {

/// Severity of a log line.
#[derive(Debug, Clone, Copy, PartialEq, Eq, Structural)]
pub enum LogLevel {
    Error,
    Warn,
    Info,
    Debug,
}

/// How a piece of text is shown.
#[derive(Debug, Clone, Copy, PartialEq, Eq, Structural)]
pub enum SpanStyle {
    /// Unstyled text.
    Plain,
    /// Inline code.
    Code,
    Bold,
    Italic,
    /// An `@` file reference.
    Reference,
    /// The bullet of a list item.
    Bullet,
    /// The number of a numbered list item.
    ListNumber,
    Header1,
    Header2,
    Header3,
    /// The author line above a message.
    UserLabel,
    AssistantLabel,
    SystemLabel,
    /// The "Thinking" line shown while an answer is awaited.
    Thinking,
    /// The character under the input cursor.
    Cursor,
    /// A character inside the mouse selection.
    Selected,
    /// Secondary text (gray).
    Muted,
    /// Faint decoration (dark gray).
    Faint,
    /// The level tag of a log line.
    Level(LogLevel),
    /// A heading of the context panel.
    Heading,
    /// A referenced file path.
    FilePath,
    /// The title of a retrieved chunk.
    ChunkTitle,
    /// The marker in front of the chosen suggestion.
    Pointer,
    /// The chosen suggestion.
    Chosen,
    /// The editing mode in the status bar.
    Mode,
    /// Indexing progress in the status bar.
    Progress,
    /// The command hint in the status bar.
    Hint,
    /// The status message in the status bar.
    Status,
    /// The model name in the status bar.
    Model,
}

/// A piece of text with its style.
#[derive(Debug, Clone)]
pub struct StyledSpan {
    pub text: String,
    pub style: SpanStyle,
}

/// The spans, by value.
pub open spec fn spans_view(v: Seq<StyledSpan>) -> Seq<(Seq<char>, SpanStyle)> {
    v.map_values(|s: StyledSpan| (s.text@, s.style))
}

/// Lines of spans, by value.
pub open spec fn span_lines_view(v: Seq<Vec<StyledSpan>>) -> Seq<Seq<(Seq<char>, SpanStyle)>> {
    v.map_values(|l: Vec<StyledSpan>| spans_view(l@))
}

/// Appends a span.
pub fn push_span(spans: &mut Vec<StyledSpan>, text: String, style: SpanStyle)
    ensures
        spans_view(final(spans)@) == spans_view(old(spans)@).push((text@, style)),
{
    let t = text;
    let ghost tv = t@;
    spans.push(StyledSpan { text: t, style });
    assert(spans_view(spans@) =~= spans_view(old(spans)@).push((tv, style)));
}

/// Appends a line of spans.
pub fn push_line(lines: &mut Vec<Vec<StyledSpan>>, line: Vec<StyledSpan>)
    ensures
        span_lines_view(final(lines)@) == span_lines_view(old(lines)@).push(spans_view(line@)),
{
    let ghost lv = spans_view(line@);
    lines.push(line);
    assert(span_lines_view(lines@) =~= span_lines_view(old(lines)@).push(lv));
}

/// A line of one span.
pub fn single(text: String, style: SpanStyle) -> (r: Vec<StyledSpan>)
    ensures
        spans_view(r@) == seq![(text@, style)],
{
    let mut r: Vec<StyledSpan> = Vec::new();
    push_span(&mut r, text, style);
    assert(spans_view(r@) =~= seq![(text@, style)]);
    r
}

} // verus!
