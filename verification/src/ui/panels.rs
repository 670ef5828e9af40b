//! The smaller panels: the input line with its cursor, selection and
//! `@references`, the suggestion list, the context panel and the status bar.
use crate::app::state::{App, FileReference, MouseSelection};
use crate::db::store::CodeChunk;
use crate::text::{
    chars_of, chars_of_string, decimal, is_whitespace, is_ws, len_utf8, lines, push_chars,
    push_decimal, push_str, split_lines, string_of, to_string, trim, trim_vec, utf8_len,
};
use crate::ui::markdown::pending;
use crate::ui::style::{
    push_line, push_span, single, span_lines_view, spans_view, SpanStyle, StyledSpan,
};
use vstd::prelude::*;

verus! {

broadcast use vstd::seq_lib::group_seq_properties;

// ---------------------------------------------------------------------------
// input line
/// The columns `[lo, hi)` selected with the mouse: a selection within one
/// row that is not empty.
pub open spec fn selected_columns(sel: Option<MouseSelection>) -> Option<(int, int)> {
    match sel {
        Some(s) => if s.start_row == s.end_row && s.start_col != s.end_col {
            if s.start_col < s.end_col {
                Some((s.start_col as int, s.end_col as int))
            } else {
                Some((s.end_col as int, s.start_col as int))
            }
        } else {
            None
        },
        None => None,
    }
}

pub open spec fn in_selection(r: Option<(int, int)>, i: int) -> bool {
    match r {
        Some((lo, hi)) => lo <= i < hi,
        None => false,
    }
}

/// The style of the character at position `i` shown on its own.
pub open spec fn char_style(i: int, cursor: int, r: Option<(int, int)>) -> SpanStyle {
    if i == cursor {
        SpanStyle::Cursor
    } else if in_selection(r, i) {
        SpanStyle::Selected
    } else {
        SpanStyle::Plain
    }
}

/// The spans of `ch[i..]`, with `cur` the reference being collected and
/// `in_ref` telling whether one is open. An unselected `@` opens a
/// reference (a reference still open is first shown plain); whitespace or a
/// selected character closes it (shown as a reference unless that character
/// is selected, in which case it stays pending); other characters are shown
/// one by one, styled by the cursor and the selection. A pending reference
/// is shown at the end.
pub open spec fn input_scan(
    ch: Seq<char>,
    i: int,
    cur: Seq<char>,
    in_ref: bool,
    cursor: int,
    r: Option<(int, int)>,
) -> Seq<(Seq<char>, SpanStyle)>
    decreases ch.len() - i,
{
    if i < 0 || i >= ch.len() {
        if cur.len() > 0 {
            seq![(cur, SpanStyle::Reference)]
        } else {
            seq![]
        }
    } else {
        let c = ch[i];
        let sel = in_selection(r, i);
        let one = (seq![c], char_style(i, cursor, r));
        if c == '@' && !sel {
            pending(cur) + input_scan(ch, i + 1, seq![c], true, cursor, r)
        } else if in_ref && (is_ws(c) || sel) {
            if cur.len() > 0 && !sel {
                seq![(cur, SpanStyle::Reference), one] + input_scan(
                    ch,
                    i + 1,
                    seq![],
                    false,
                    cursor,
                    r,
                )
            } else {
                seq![one] + input_scan(ch, i + 1, cur, false, cursor, r)
            }
        } else if in_ref {
            input_scan(ch, i + 1, cur.push(c), true, cursor, r)
        } else {
            seq![one] + input_scan(ch, i + 1, cur, false, cursor, r)
        }
    }
}

/// The spans of the input line: its characters as scanned, and a cursor
/// block after them when the cursor is at the end of the input.
pub open spec fn input_line_spans(
    input: Seq<char>,
    cursor: int,
    sel: Option<MouseSelection>,
) -> Seq<(Seq<char>, SpanStyle)> {
    input_scan(input, 0, seq![], false, cursor, selected_columns(sel)) + if cursor == utf8_len(
        input,
    ) {
        seq![(" "@, SpanStyle::Cursor)]
    } else {
        seq![]
    }
}

/// Whether the UTF-8 length of `v` is `n`.
pub fn byte_len_is(v: &Vec<char>, n: usize) -> (b: bool)
    ensures
        b == (utf8_len(v@) == n),
{
    let mut left: usize = n;
    let mut i: usize = 0;
    while i < v.len()
        invariant
            i <= v.len(),
            left + utf8_len(v@.take(i as int)) == n,
        decreases v.len() - i,
    {
        assert(v@.take(i + 1).drop_last() =~= v@.take(i as int));
        let w = len_utf8(v[i]);
        if w > left {
            proof {
                crate::text::lemma_utf8_len_take_mono(v@, i + 1, v@.len() as int);
                assert(v@.take(v@.len() as int) =~= v@);
            }
            return false;
        }
        left = left - w;
        i += 1;
    }
    assert(v@.take(v.len() as int) =~= v@);
    left == 0
}

fn char_string(c: char) -> (s: String)
    ensures
        s@ == seq![c],
{
    let mut s = String::new();
    s.push(c);
    assert(s@ =~= seq![c]);
    s
}

fn selection_columns(sel: &Option<MouseSelection>) -> (r: Option<(u16, u16)>)
    ensures
        match r {
            Some((lo, hi)) => selected_columns(*sel) == Some((lo as int, hi as int)),
            None => selected_columns(*sel) is None,
        },
{
    match sel {
        Some(s) => {
            if s.start_row == s.end_row && s.start_col != s.end_col {
                if s.start_col < s.end_col {
                    Some((s.start_col, s.end_col))
                } else {
                    Some((s.end_col, s.start_col))
                }
            } else {
                None
            }
        },
        None => None,
    }
}

/// The styled spans of the input line.
pub fn input_spans(input: &str, cursor: usize, selection: &Option<MouseSelection>) -> (r: Vec<
    StyledSpan,
>)
    ensures
        spans_view(r@) == input_line_spans(input@, cursor as int, *selection),
{
    let ch = chars_of(input);
    let cols = selection_columns(selection);
    let ghost rg = selected_columns(*selection);
    let n = ch.len();
    let mut spans: Vec<StyledSpan> = Vec::new();
    let mut cur: Vec<char> = Vec::new();
    let mut in_ref = false;
    let mut i: usize = 0;
    let ghost whole = input_scan(ch@, 0, seq![], false, cursor as int, rg);
    assert(whole =~= spans_view(spans@) + input_scan(ch@, 0, cur@, in_ref, cursor as int, rg));
    while i < n
        invariant
            n == ch@.len(),
            ch@ == input@,
            i <= n,
            rg == selected_columns(*selection),
            match cols {
                Some((lo, hi)) => rg == Some((lo as int, hi as int)),
                None => rg is None,
            },
            whole == input_scan(ch@, 0, seq![], false, cursor as int, rg),
            whole == spans_view(spans@) + input_scan(ch@, i as int, cur@, in_ref, cursor as int, rg),
        decreases n - i,
    {
        let c = ch[i];
        let sel = match cols {
            Some((lo, hi)) => lo as usize <= i && i < hi as usize,
            None => false,
        };
        assert(sel == in_selection(rg, i as int));
        let style = if i == cursor {
            SpanStyle::Cursor
        } else if sel {
            SpanStyle::Selected
        } else {
            SpanStyle::Plain
        };
        let ghost sv = spans_view(spans@);
        let ghost cv = cur@;
        let ghost ii = i as int;
        if c == '@' && !sel {
            if cur.len() > 0 {
                push_span(&mut spans, string_of(&cur), SpanStyle::Plain);
            }
            cur = Vec::new();
            cur.push(c);
            in_ref = true;
            assert(cur@ =~= seq![c]);
            assert(spans_view(spans@) =~= sv + pending(cv));
        } else if in_ref && (is_whitespace(c) || sel) {
            if cur.len() > 0 && !sel {
                push_span(&mut spans, string_of(&cur), SpanStyle::Reference);
                cur = Vec::new();
            }
            in_ref = false;
            push_span(&mut spans, char_string(c), style);
        } else if in_ref {
            cur.push(c);
        } else {
            push_span(&mut spans, char_string(c), style);
        }
        i += 1;
        assert(whole =~= spans_view(spans@) + input_scan(ch@, i as int, cur@, in_ref, cursor as int, rg));
    }
    let ghost before_end = spans_view(spans@);
    if cur.len() > 0 {
        push_span(&mut spans, string_of(&cur), SpanStyle::Reference);
    }
    assert(spans_view(spans@) =~= whole);
    if byte_len_is(&ch, cursor) {
        push_span(&mut spans, to_string(" "), SpanStyle::Cursor);
    }
    assert(spans_view(spans@) =~= input_line_spans(input@, cursor as int, *selection));
    spans
}

// ---------------------------------------------------------------------------
// shared helpers
/// The first `k` characters of `s` (all of them when it is shorter).
pub open spec fn take_upto(s: Seq<char>, k: int) -> Seq<char> {
    if k < s.len() {
        s.take(k)
    } else {
        s
    }
}

fn prefix_chars(s: &str, k: usize) -> (r: Vec<char>)
    ensures
        r@ == take_upto(s@, k as int),
{
    let v = chars_of(s);
    if k < v.len() {
        let r = crate::text::sub_vec(&v, 0, k);
        assert(r@ =~= v@.take(k as int));
        r
    } else {
        v
    }
}

/// `"[" + (i + 1) + "] "`, the number in front of a listed item.
pub open spec fn item_number(i: nat) -> Seq<char> {
    "["@ + decimal(i + 1) + "] "@
}

fn push_item_number(s: &mut String, i: usize)
    requires
        i < usize::MAX,
    ensures
        final(s)@ == old(s)@ + item_number(i as nat),
{
    let ghost s0 = s@;
    push_str(s, "[");
    push_decimal(s, (i + 1) as u64);
    push_str(s, "] ");
    assert(s@ =~= s0 + item_number(i as nat));
}

// ---------------------------------------------------------------------------
// suggestions
/// The title of the suggestion list: commands when the input starts with
/// `/` (after leading whitespace), files otherwise.
pub open spec fn suggestions_title(input: Seq<char>) -> Seq<char> {
    if trim(input).len() > 0 && trim(input)[0] == '/' {
        " Commands "@
    } else {
        " Files "@
    }
}

/// The index of the first suggestion shown in `visible` rows: 0, or far
/// enough that the chosen one is on the last row.
pub open spec fn first_suggestion(index: int, visible: int) -> int {
    if index >= visible {
        index - (if visible > 0 {
            visible - 1
        } else {
            0
        })
    } else {
        0
    }
}

/// A suggestion row: the chosen one behind a pointer, the others indented.
pub open spec fn suggestion_row(s: Seq<char>, chosen: bool) -> Seq<(Seq<char>, SpanStyle)> {
    if chosen {
        seq![("▶ "@, SpanStyle::Pointer), (s, SpanStyle::Chosen)]
    } else {
        seq![("  "@, SpanStyle::Plain), (s, SpanStyle::Muted)]
    }
}

/// Rows in the suggestion box for a box `height` rows high (its border takes
/// two).
pub open spec fn suggestion_rows_count(n: int, start: int, visible: int) -> int {
    if start >= n {
        0
    } else if n - start < visible {
        n - start
    } else {
        visible
    }
}

/// The suggestion box: `None` when there is nothing to suggest, else its
/// title and the rows that fit in `height` rows, scrolled to show the chosen
/// suggestion.
pub fn suggestion_rows(app: &App, height: u16) -> (r: Option<(String, Vec<Vec<StyledSpan>>)>)
    ensures
        app.suggestions@.len() == 0 <==> r is None,
        match r {
            Some((title, rows)) => {
                let visible = if height >= 2 {
                    height - 2
                } else {
                    0
                };
                let start = first_suggestion(app.suggestion_index as int, visible);
                &&& title@ == suggestions_title(app.input@)
                &&& rows@.len() == suggestion_rows_count(app.suggestions@.len() as int, start, visible)
                &&& forall|k: int|
                    0 <= k < rows@.len() ==> spans_view((#[trigger] rows@[k])@) == suggestion_row(
                        app.suggestions@[start + k]@,
                        start + k == app.suggestion_index,
                    )
            },
            None => true,
        },
{
    if app.suggestions.len() == 0 {
        return None;
    }
    let t = trim_vec(&chars_of_string(&app.input));
    let title = if t.len() > 0 && t[0] == '/' {
        to_string(" Commands ")
    } else {
        to_string(" Files ")
    };
    let visible: usize = if height >= 2 {
        (height - 2) as usize
    } else {
        0
    };
    let index = app.suggestion_index;
    let start: usize = if index >= visible {
        index - (if visible > 0 {
            visible - 1
        } else {
            0
        })
    } else {
        0
    };
    let n = app.suggestions.len();
    let count: usize = if start >= n {
        0
    } else if n - start < visible {
        n - start
    } else {
        visible
    };
    let mut rows: Vec<Vec<StyledSpan>> = Vec::new();
    let mut k: usize = 0;
    while k < count
        invariant
            k <= count,
            count == suggestion_rows_count(n as int, start as int, visible as int),
            n == app.suggestions@.len(),
            start == first_suggestion(index as int, visible as int),
            index == app.suggestion_index,
            rows@.len() == k,
            forall|j: int|
                0 <= j < rows@.len() ==> spans_view((#[trigger] rows@[j])@) == suggestion_row(
                    app.suggestions@[start + j]@,
                    start + j == index,
                ),
        decreases count - k,
    {
        let s = app.suggestions[start + k].clone();
        let mut row: Vec<StyledSpan> = Vec::new();
        if start + k == index {
            push_span(&mut row, to_string("▶ "), SpanStyle::Pointer);
            push_span(&mut row, s, SpanStyle::Chosen);
        } else {
            push_span(&mut row, to_string("  "), SpanStyle::Plain);
            push_span(&mut row, s, SpanStyle::Muted);
        }
        assert(spans_view(row@) =~= suggestion_row(app.suggestions@[start + k]@, start + k == index));
        rows.push(row);
        k += 1;
    }
    Some((title, rows))
}

/// Rows given to the suggestion box: up to seven suggestions and the
/// border, or none when the box is hidden.
pub fn suggestions_height(app: &App) -> (h: u16)
    ensures
        h == if app.show_suggestions {
            (if app.suggestions@.len() < 7 {
                app.suggestions@.len() as int
            } else {
                7
            }) + 2
        } else {
            0
        },
{
    if app.show_suggestions {
        let n: u16 = if app.suggestions.len() < 7 {
            app.suggestions.len() as u16
        } else {
            7
        };
        n + 2
    } else {
        0
    }
}

// ---------------------------------------------------------------------------
// context panel
/// The title of the context panel.
pub open spec fn context_title(refs: Seq<FileReference>) -> Seq<char> {
    if refs.len() == 0 {
        " RAG Context "@
    } else {
        " Files & Context "@
    }
}

/// The lines naming the referenced files, numbered from 1, each path cut to
/// `tw` characters.
pub open spec fn reference_lines(refs: Seq<FileReference>, tw: int) -> Seq<Seq<(Seq<char>, SpanStyle)>>
    decreases refs.len(),
{
    if refs.len() == 0 {
        seq![]
    } else {
        reference_lines(refs.drop_last(), tw).push(
            seq![
                ("  "@ + item_number((refs.len() - 1) as nat) + take_upto(refs.last().path@, tw),
                SpanStyle::FilePath),
            ],
        )
    }
}

/// The first three lines of a chunk, indented and cut to `tw` characters.
pub open spec fn chunk_preview(content: Seq<char>, tw: int) -> Seq<Seq<(Seq<char>, SpanStyle)>> {
    let ls = lines(content);
    let k = if ls.len() < 3 {
        ls.len() as int
    } else {
        3
    };
    Seq::new(k as nat, |j: int| seq![("  "@ + take_upto(ls[j], tw), SpanStyle::Muted)])
}

/// A retrieved chunk: its numbered file path, its preview and an empty line.
pub open spec fn chunk_block(i: nat, c: CodeChunk, tw: int) -> Seq<Seq<(Seq<char>, SpanStyle)>> {
    seq![seq![(item_number(i) + c.file_path@, SpanStyle::ChunkTitle)]] + chunk_preview(
        c.content@,
        tw,
    ) + seq![seq![(seq![], SpanStyle::Plain)]]
}

pub open spec fn chunk_blocks(cs: Seq<CodeChunk>, tw: int) -> Seq<Seq<(Seq<char>, SpanStyle)>>
    decreases cs.len(),
{
    if cs.len() == 0 {
        seq![]
    } else {
        chunk_blocks(cs.drop_last(), tw) + chunk_block((cs.len() - 1) as nat, cs.last(), tw)
    }
}

/// The lines of the context panel `width` columns wide: the referenced
/// files under a heading, the retrieved chunks, or a hint when there is
/// neither.
pub open spec fn context_panel(app: App, width: int) -> Seq<Seq<(Seq<char>, SpanStyle)>> {
    let refs = app.file_references@;
    let chunks = app.context_chunks@;
    let head = if refs.len() == 0 {
        seq![]
    } else {
        seq![seq![(" Referenced:"@, SpanStyle::Heading)]] + reference_lines(
            refs,
            if width > 8 {
                width - 8
            } else {
                0
            },
        ) + seq![seq![(seq![], SpanStyle::Plain)]]
    };
    let body = chunk_blocks(
        chunks,
        if width > 6 {
            width - 6
        } else {
            0
        },
    );
    let hint = if chunks.len() == 0 && refs.len() == 0 {
        seq![seq![(" Use @files or /index <path>"@, SpanStyle::Faint)]]
    } else {
        seq![]
    };
    head + body + hint
}

fn empty_line() -> (r: Vec<StyledSpan>)
    ensures
        spans_view(r@) == seq![(Seq::<char>::empty(), SpanStyle::Plain)],
{
    single(String::new(), SpanStyle::Plain)
}

fn push_chunk_block(out: &mut Vec<Vec<StyledSpan>>, i: usize, c: &CodeChunk, tw: usize)
    requires
        i < usize::MAX,
    ensures
        span_lines_view(final(out)@) == span_lines_view(old(out)@) + chunk_block(
            i as nat,
            *c,
            tw as int,
        ),
{
    let ghost o0 = span_lines_view(out@);
    let mut title = String::new();
    push_item_number(&mut title, i);
    push_str(&mut title, c.file_path.as_str());
    push_line(out, single(title, SpanStyle::ChunkTitle));
    let ls = split_lines(c.content.as_str());
    let k: usize = if ls.len() < 3 {
        ls.len()
    } else {
        3
    };
    let ghost o1 = span_lines_view(out@);
    let ghost pv = chunk_preview(c.content@, tw as int);
    let mut j: usize = 0;
    while j < k
        invariant
            j <= k,
            k as int == pv.len(),
            pv == chunk_preview(c.content@, tw as int),
            ls@.len() == lines(c.content@).len(),
            forall|q: int| 0 <= q < ls@.len() ==> (#[trigger] ls@[q])@ == lines(c.content@)[q],
            k <= ls@.len(),
            span_lines_view(out@) == o1 + pv.take(j as int),
        decreases k - j,
    {
        let mut t = to_string("  ");
        let line = string_of(&ls[j]);
        let cut = prefix_chars(line.as_str(), tw);
        push_chars(&mut t, &cut);
        push_line(out, single(t, SpanStyle::Muted));
        assert(pv.take(j + 1) =~= pv.take(j as int).push(pv[j as int]));
        j += 1;
    }
    assert(pv.take(k as int) =~= pv);
    push_line(out, empty_line());
    assert(span_lines_view(out@) =~= o0 + chunk_block(i as nat, *c, tw as int));
}

/// The context panel `width` columns wide: its title and its lines.
pub fn context_lines(app: &App, width: u16) -> (r: (String, Vec<Vec<StyledSpan>>))
    ensures
        r.0@ == context_title(app.file_references@),
        span_lines_view(r.1@) == context_panel(*app, width as int),
{
    let refs = &app.file_references;
    let chunks = &app.context_chunks;
    let title = if refs.len() == 0 {
        to_string(" RAG Context ")
    } else {
        to_string(" Files & Context ")
    };
    let mut out: Vec<Vec<StyledSpan>> = Vec::new();
    assert(span_lines_view(out@) =~= seq![]);
    if refs.len() > 0 {
        push_line(&mut out, single(to_string(" Referenced:"), SpanStyle::Heading));
        let tw: usize = if width > 8 {
            (width - 8) as usize
        } else {
            0
        };
        let ghost o1 = span_lines_view(out@);
        let mut i: usize = 0;
        assert(refs@.take(0) =~= Seq::<FileReference>::empty());
        while i < refs.len()
            invariant
                i <= refs@.len(),
                refs@.len() > 0,
                span_lines_view(out@) == o1 + reference_lines(refs@.take(i as int), tw as int),
            decreases refs@.len() - i,
        {
            let mut t = to_string("  ");
            push_item_number(&mut t, i);
            let cut = prefix_chars(refs[i].path.as_str(), tw);
            push_chars(&mut t, &cut);
            push_line(&mut out, single(t, SpanStyle::FilePath));
            assert(refs@.take(i + 1).drop_last() =~= refs@.take(i as int));
            i += 1;
        }
        assert(refs@.take(refs@.len() as int) =~= refs@);
        push_line(&mut out, empty_line());
    }
    let ghost head = span_lines_view(out@);
    let tw: usize = if width > 6 {
        (width - 6) as usize
    } else {
        0
    };
    let mut i: usize = 0;
    assert(chunks@.take(0) =~= Seq::<CodeChunk>::empty());
    while i < chunks.len()
        invariant
            i <= chunks@.len(),
            span_lines_view(out@) == head + chunk_blocks(chunks@.take(i as int), tw as int),
        decreases chunks@.len() - i,
    {
        push_chunk_block(&mut out, i, &chunks[i], tw);
        assert(chunks@.take(i + 1).drop_last() =~= chunks@.take(i as int));
        i += 1;
    }
    assert(chunks@.take(chunks@.len() as int) =~= chunks@);
    if chunks.len() == 0 && refs.len() == 0 {
        push_line(&mut out, single(to_string(" Use @files or /index <path>"), SpanStyle::Faint));
    }
    assert(span_lines_view(out@) =~= context_panel(*app, width as int));
    (title, out)
}

// ---------------------------------------------------------------------------
// status bar
/// The status bar: the mode, then indexing progress (with `percent` done),
/// else the command hint (up to 80 characters), else the status (up to 60),
/// and the model in use.
pub open spec fn status_bar(app: App, percent: nat) -> Seq<(Seq<char>, SpanStyle)> {
    let middle = match app.indexing_progress {
        Some(p) => seq![
            (" ["@ + decimal(percent) + "%] "@ + p.current_file@ + " "@, SpanStyle::Progress),
        ],
        None => if app.command_hint@.len() > 0 {
            seq![(" "@ + take_upto(app.command_hint@, 80) + " "@, SpanStyle::Hint)]
        } else if app.status@.len() > 0 {
            seq![(" "@ + take_upto(app.status@, 60) + " "@, SpanStyle::Status)]
        } else {
            seq![]
        },
    };
    seq![(" INS "@, SpanStyle::Mode)] + middle + seq![
        (" "@ + app.current_model@ + " "@, SpanStyle::Model),
    ]
}

fn padded(inner: &Vec<char>) -> (r: String)
    ensures
        r@ == " "@ + inner@ + " "@,
{
    let mut t = to_string(" ");
    push_chars(&mut t, inner);
    push_str(&mut t, " ");
    t
}

/// The spans of the status bar, with `percent` of the indexing done.
pub fn status_spans(app: &App, percent: usize) -> (r: Vec<StyledSpan>)
    ensures
        spans_view(r@) == status_bar(*app, percent as nat),
{
    let mut r: Vec<StyledSpan> = Vec::new();
    push_span(&mut r, to_string(" INS "), SpanStyle::Mode);
    let ghost r1 = spans_view(r@);
    match &app.indexing_progress {
        Some(p) => {
            let mut t = to_string(" [");
            push_decimal(&mut t, percent as u64);
            push_str(&mut t, "%] ");
            push_str(&mut t, p.current_file.as_str());
            push_str(&mut t, " ");
            push_span(&mut r, t, SpanStyle::Progress);
        },
        None => {
            if !app.command_hint.as_str().is_empty() {
                let cut = prefix_chars(app.command_hint.as_str(), 80);
                push_span(&mut r, padded(&cut), SpanStyle::Hint);
            } else if !app.status.as_str().is_empty() {
                let cut = prefix_chars(app.status.as_str(), 60);
                push_span(&mut r, padded(&cut), SpanStyle::Status);
            }
        },
    }
    let model = chars_of_string(&app.current_model);
    push_span(&mut r, padded(&model), SpanStyle::Model);
    assert(spans_view(r@) =~= status_bar(*app, percent as nat));
    r
}

} // verus!
