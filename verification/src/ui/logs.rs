//! The log panel: the last log lines, each split into its level tag and
//! body, and cut to the panel's width.
use crate::scrapper::contains_sub;
use crate::text::{chars_of_string, push_str, string_of, sub_vec, to_string};
use crate::ui::panels::take_upto;
use crate::ui::render::{find_closing_marker, first_marker, lemma_first_marker, marker_at};
use crate::ui::style::{
    push_line, push_span, single, span_lines_view, spans_view, LogLevel, SpanStyle, StyledSpan,
};
use vstd::prelude::*;
use vstd::utf8::{decode_utf8, encode_utf8, valid_utf8};

verus! {

broadcast use vstd::seq_lib::group_seq_properties;

/// What `String::from_utf8_lossy` makes of `bytes`.
pub uninterp spec fn lossy_text(bytes: Seq<u8>) -> Seq<char>;

/// `String::from_utf8_lossy`: the text of `bytes`, with each invalid UTF-8
/// sequence replaced by U+FFFD; valid UTF-8 is decoded as it is.
#[verifier::external_body]
fn from_utf8_lossy(bytes: &[u8]) -> (s: String)
    ensures
        s@ == lossy_text(bytes@),
        valid_utf8(bytes@) ==> s@ == decode_utf8(bytes@),
{
    String::from_utf8_lossy(bytes).to_string()
}

/// The tag of a level, as the log lines write it.
pub open spec fn level_tag(l: LogLevel) -> Seq<char> {
    match l {
        LogLevel::Error => "ERROR"@,
        LogLevel::Warn => "WARN"@,
        LogLevel::Info => "INFO"@,
        LogLevel::Debug => "DEBUG"@,
    }
}

/// The tag with a space on each side, as it stands in a log line.
pub open spec fn level_marker(l: LogLevel) -> Seq<char> {
    " "@ + level_tag(l) + " "@
}

/// The text after the first occurrence of `m` in `log`.
pub open spec fn after_marker(log: Seq<char>, m: Seq<char>) -> Seq<char> {
    match first_marker(log, 0, m) {
        Some(i) => log.skip(i + m.len()),
        None => log,
    }
}

/// The level of a log line and its body: the first of ERROR, WARN, INFO and
/// DEBUG whose marker the line contains, and what follows the first
/// occurrence of that marker.
pub open spec fn split_level(log: Seq<char>) -> Option<(LogLevel, Seq<char>)> {
    if contains_sub(log, level_marker(LogLevel::Error)) {
        Some((LogLevel::Error, after_marker(log, level_marker(LogLevel::Error))))
    } else if contains_sub(log, level_marker(LogLevel::Warn)) {
        Some((LogLevel::Warn, after_marker(log, level_marker(LogLevel::Warn))))
    } else if contains_sub(log, level_marker(LogLevel::Info)) {
        Some((LogLevel::Info, after_marker(log, level_marker(LogLevel::Info))))
    } else if contains_sub(log, level_marker(LogLevel::Debug)) {
        Some((LogLevel::Debug, after_marker(log, level_marker(LogLevel::Debug))))
    } else {
        None
    }
}

/// Lines of `bytes` cut into chunks of `w` bytes, each decoded as
/// `from_utf8_lossy` does and led by `lead` (the first) or two spaces (the
/// others).
pub open spec fn chunk_lines(bytes: Seq<u8>, w: nat, lead: Seq<char>) -> Seq<
    Seq<(Seq<char>, SpanStyle)>,
>
    decreases bytes.len(),
{
    if w == 0 || bytes.len() == 0 {
        seq![]
    } else {
        let c = if bytes.len() <= w {
            bytes
        } else {
            bytes.take(w as int)
        };
        seq![seq![(lead, SpanStyle::Faint), (lossy_text(c), SpanStyle::Muted)]] + chunk_lines(
            bytes.skip(c.len() as int),
            w,
            "  "@,
        )
    }
}

/// `a - b`, or 0 when `b` is larger.
pub open spec fn sat_sub(a: int, b: int) -> int {
    if a > b {
        a - b
    } else {
        0
    }
}

/// The lines of one log entry in a panel `max_width` columns wide (inside
/// its border). With a level: `- [LEVEL] ` and as much of the body as fits,
/// then the rest in chunks of `max_width - 2` bytes. Without: the whole line
/// in such chunks, the first behind `- `.
pub open spec fn entry_lines(log: Seq<char>, max_width: int) -> Seq<Seq<(Seq<char>, SpanStyle)>> {
    let wrap = sat_sub(max_width, 2) as nat;
    match split_level(log) {
        Some((lv, body)) => {
            let body_max = sat_sub(max_width, (4 + level_tag(lv).len() + 3) as int);
            let rest = if body_max < body.len() {
                body.skip(body_max)
            } else {
                seq![]
            };
            seq![
                seq![
                    ("- "@, SpanStyle::Faint),
                    ("["@ + level_tag(lv) + "] "@, SpanStyle::Level(lv)),
                    (take_upto(body, body_max), SpanStyle::Muted),
                ],
            ] + chunk_lines(encode_utf8(rest), wrap, "  "@)
        },
        None => chunk_lines(encode_utf8(log), wrap, "- "@),
    }
}

pub open spec fn entries_lines(logs: Seq<Seq<char>>, max_width: int) -> Seq<
    Seq<(Seq<char>, SpanStyle)>,
>
    decreases logs.len(),
{
    if logs.len() == 0 {
        seq![]
    } else {
        entries_lines(logs.drop_last(), max_width) + entry_lines(logs.last(), max_width)
    }
}

/// The log panel `height` rows high and `width` columns wide (border
/// included): the entries of the last logs that fit, or `- Ready` when there
/// are none.
pub open spec fn log_panel(logs: Seq<Seq<char>>, height: int, width: int) -> Seq<
    Seq<(Seq<char>, SpanStyle)>,
> {
    let visible = sat_sub(height, 2);
    let start = sat_sub(logs.len() as int, visible);
    entries_lines(logs.skip(start), sat_sub(width, 4)) + if logs.len() == 0 {
        seq![seq![("- Ready"@, SpanStyle::Muted)]]
    } else {
        seq![]
    }
}

/// Whether the panel shows any entry: there are logs and room for them.
pub open spec fn shows_entries(n: int, height: int) -> bool {
    n > 0 && height > 2
}

fn push_chunk_lines(out: &mut Vec<Vec<StyledSpan>>, bytes: &[u8], w: usize, lead: &str)
    requires
        w > 0,
    ensures
        span_lines_view(final(out)@) == span_lines_view(old(out)@) + chunk_lines(
            bytes@,
            w as nat,
            lead@,
        ),
{
    let ghost o0 = span_lines_view(out@);
    let ghost whole = chunk_lines(bytes@, w as nat, lead@);
    let n = bytes.len();
    let mut pos: usize = 0;
    let mut first = true;
    proof {
        reveal_strlit("  ");
        assert(bytes@.skip(0) =~= bytes@);
    }
    while pos < n
        invariant
            pos <= n,
            n == bytes@.len(),
            w > 0,
            whole == chunk_lines(bytes@, w as nat, lead@),
            o0 + whole == span_lines_view(out@) + chunk_lines(
                bytes@.skip(pos as int),
                w as nat,
                if first {
                    lead@
                } else {
                    "  "@
                },
            ),
        decreases n - pos,
    {
        let end = if n - pos <= w {
            n
        } else {
            pos + w
        };
        let piece = vstd::slice::slice_subrange(bytes, pos, end);
        let ghost rest = bytes@.skip(pos as int);
        assert(piece@ =~= if rest.len() <= w {
            rest
        } else {
            rest.take(w as int)
        });
        let ghost lead_now = if first {
            lead@
        } else {
            "  "@
        };
        let mut line: Vec<StyledSpan> = Vec::new();
        if first {
            push_span(&mut line, to_string(lead), SpanStyle::Faint);
        } else {
            push_span(&mut line, to_string("  "), SpanStyle::Faint);
        }
        push_span(&mut line, from_utf8_lossy(piece), SpanStyle::Muted);
        assert(spans_view(line@) =~= seq![
            (lead_now, SpanStyle::Faint),
            (lossy_text(piece@), SpanStyle::Muted),
        ]);
        let ghost before = span_lines_view(out@);
        push_line(out, line);
        assert(rest.skip(piece@.len() as int) =~= bytes@.skip(end as int));
        assert(chunk_lines(rest, w as nat, lead_now) == seq![
            seq![(lead_now, SpanStyle::Faint), (lossy_text(piece@), SpanStyle::Muted)],
        ] + chunk_lines(bytes@.skip(end as int), w as nat, "  "@));
        assert(span_lines_view(out@) == before.push(
            seq![(lead_now, SpanStyle::Faint), (lossy_text(piece@), SpanStyle::Muted)],
        ));
        pos = end;
        first = false;
    }
    assert(bytes@.skip(n as int) =~= Seq::<u8>::empty());
}

fn level_text(l: LogLevel) -> (r: String)
    ensures
        r@ == level_tag(l),
{
    match l {
        LogLevel::Error => to_string("ERROR"),
        LogLevel::Warn => to_string("WARN"),
        LogLevel::Info => to_string("INFO"),
        LogLevel::Debug => to_string("DEBUG"),
    }
}

fn tag_len(l: LogLevel) -> (n: usize)
    ensures
        n == level_tag(l).len(),
        n <= 5,
{
    proof {
        reveal_strlit("ERROR");
        reveal_strlit("WARN");
        reveal_strlit("INFO");
        reveal_strlit("DEBUG");
    }
    match l {
        LogLevel::Error => 5,
        LogLevel::Warn => 4,
        LogLevel::Info => 4,
        LogLevel::Debug => 5,
    }
}

fn marker_len(l: LogLevel) -> (n: usize)
    ensures
        n == level_marker(l).len(),
{
    proof {
        reveal_strlit(" ");
    }
    tag_len(l) + 2
}

fn marker_text(l: LogLevel) -> (r: &'static str)
    ensures
        r@ == level_marker(l),
{
    proof {
        reveal_strlit(" ERROR ");
        reveal_strlit(" WARN ");
        reveal_strlit(" INFO ");
        reveal_strlit(" DEBUG ");
        reveal_strlit(" ");
        reveal_strlit("ERROR");
        reveal_strlit("WARN");
        reveal_strlit("INFO");
        reveal_strlit("DEBUG");
    }
    match l {
        LogLevel::Error => {
            assert(" ERROR "@ =~= level_marker(l));
            " ERROR "
        },
        LogLevel::Warn => {
            assert(" WARN "@ =~= level_marker(l));
            " WARN "
        },
        LogLevel::Info => {
            assert(" INFO "@ =~= level_marker(l));
            " INFO "
        },
        LogLevel::Debug => {
            assert(" DEBUG "@ =~= level_marker(l));
            " DEBUG "
        },
    }
}

/// Where `m` first occurs in `v`, found by [`find_closing_marker`].
fn find_marker(v: &Vec<char>, m: &str) -> (r: Option<usize>)
    ensures
        r is Some <==> contains_sub(v@, m@),
        match r {
            Some(i) => first_marker(v@, 0, m@) == Some(i as int) && i + m@.len() <= v@.len(),
            None => true,
        },
{
    let r = find_closing_marker(v.as_slice(), 0, m);
    proof {
        lemma_first_marker(v@, 0, m@);
        if contains_sub(v@, m@) {
            let j = choose|j: int|
                0 <= j && j + m@.len() <= v@.len() && #[trigger] v@.subrange(j, j + m@.len())
                    == m@;
            assert(marker_at(v@, m@, j));
        }
        match r {
            Some(i) => {
                assert(v@.subrange(i as int, i + m@.len()) == m@);
            },
            None => {},
        }
    }
    r
}

/// The body after the first marker of level `l` in `v`, when `v` has one.
fn body_after_level(v: &Vec<char>, l: LogLevel) -> (r: Option<Vec<char>>)
    ensures
        r is Some <==> contains_sub(v@, level_marker(l)),
        match r {
            Some(body) => body@ == after_marker(v@, level_marker(l)),
            None => true,
        },
{
    let m = marker_text(l);
    let k = marker_len(l);
    match find_marker(v, m) {
        Some(i) => {
            let n = v.len();
            assert(i + k <= n);
            let body = sub_vec(v, i + k, n);
            assert(body@ =~= after_marker(v@, level_marker(l)));
            Some(body)
        },
        None => None,
    }
}

/// The level and body of a log line.
fn level_of(v: &Vec<char>) -> (r: Option<(LogLevel, Vec<char>)>)
    ensures
        match r {
            Some((l, body)) => split_level(v@) == Some((l, body@)),
            None => split_level(v@) is None,
        },
{
    if let Some(body) = body_after_level(v, LogLevel::Error) {
        return Some((LogLevel::Error, body));
    }
    if let Some(body) = body_after_level(v, LogLevel::Warn) {
        return Some((LogLevel::Warn, body));
    }
    if let Some(body) = body_after_level(v, LogLevel::Info) {
        return Some((LogLevel::Info, body));
    }
    if let Some(body) = body_after_level(v, LogLevel::Debug) {
        return Some((LogLevel::Debug, body));
    }
    None
}

fn push_entry_lines(out: &mut Vec<Vec<StyledSpan>>, log: &String, max_width: usize)
    requires
        max_width > 2,
    ensures
        span_lines_view(final(out)@) == span_lines_view(old(out)@) + entry_lines(
            log@,
            max_width as int,
        ),
{
    let ghost o0 = span_lines_view(out@);
    let v = chars_of_string(log);
    let wrap = max_width - 2;
    match level_of(&v) {
        Some((lv, body)) => {
            let tag = level_text(lv);
            let prefix_len = 4 + tag_len(lv) + 3;
            let body_max: usize = if max_width > prefix_len {
                max_width - prefix_len
            } else {
                0
            };
            let first: Vec<char> = if body_max < body.len() {
                sub_vec(&body, 0, body_max)
            } else {
                sub_vec(&body, 0, body.len())
            };
            assert(first@ =~= take_upto(body@, body_max as int));
            let rest: Vec<char> = if body_max < body.len() {
                sub_vec(&body, body_max, body.len())
            } else {
                Vec::new()
            };
            let mut line: Vec<StyledSpan> = Vec::new();
            push_span(&mut line, to_string("- "), SpanStyle::Faint);
            let mut t = to_string("[");
            push_str(&mut t, tag.as_str());
            push_str(&mut t, "] ");
            push_span(&mut line, t, SpanStyle::Level(lv));
            push_span(&mut line, string_of(&first), SpanStyle::Muted);
            push_line(out, line);
            let rest_s = string_of(&rest);
            let bytes = rest_s.as_str().as_bytes();
            let ghost head = seq![
                ("- "@, SpanStyle::Faint),
                ("["@ + level_tag(lv) + "] "@, SpanStyle::Level(lv)),
                (take_upto(body@, body_max as int), SpanStyle::Muted),
            ];
            assert(spans_view(line@) =~= head);
            assert(body_max as int == sat_sub(max_width as int, (4 + level_tag(lv).len() + 3) as int));
            assert(rest@ =~= if (body_max as int) < body@.len() {
                body@.skip(body_max as int)
            } else {
                seq![]
            });
            push_chunk_lines(out, bytes, wrap, "  ");
            assert(entry_lines(log@, max_width as int) == seq![head] + chunk_lines(
                encode_utf8(rest@),
                wrap as nat,
                "  "@,
            ));
            assert(span_lines_view(out@) =~= o0 + entry_lines(log@, max_width as int));
        },
        None => {
            let bytes = log.as_str().as_bytes();
            push_chunk_lines(out, bytes, wrap, "- ");
        },
    }
}

/// The lines of the log panel `height` rows high and `width` columns wide
/// (border included), for the log lines `logs`, oldest first.
pub fn log_lines(logs: &Vec<String>, height: u16, width: u16) -> (r: Vec<Vec<StyledSpan>>)
    requires
        shows_entries(logs@.len() as int, height as int) ==> width > 6,
    ensures
        span_lines_view(r@) == log_panel(logs@.map_values(|s: String| s@), height as int, width as int),
{
    let ghost lv = logs@.map_values(|s: String| s@);
    let visible: usize = if height > 2 {
        (height - 2) as usize
    } else {
        0
    };
    let start: usize = if logs.len() > visible {
        logs.len() - visible
    } else {
        0
    };
    let max_width: usize = if width > 4 {
        (width - 4) as usize
    } else {
        0
    };
    let mut out: Vec<Vec<StyledSpan>> = Vec::new();
    let ghost window = lv.skip(start as int);
    let mut i: usize = start;
    assert(window.take(0) =~= Seq::<Seq<char>>::empty());
    assert(span_lines_view(out@) =~= entries_lines(window.take(0), max_width as int));
    while i < logs.len()
        invariant
            start <= i <= logs@.len(),
            lv == logs@.map_values(|s: String| s@),
            window == lv.skip(start as int),
            start < logs@.len() ==> max_width > 2,
            span_lines_view(out@) == entries_lines(window.take(i - start), max_width as int),
        decreases logs@.len() - i,
    {
        push_entry_lines(&mut out, &logs[i], max_width);
        assert(window.take(i + 1 - start).drop_last() =~= window.take(i - start));
        assert(window.take(i + 1 - start).last() == logs@[i as int]@);
        i += 1;
    }
    assert(window.take(logs@.len() - start) =~= window);
    if logs.len() == 0 {
        push_line(&mut out, single(to_string("- Ready"), SpanStyle::Muted));
    }
    assert(span_lines_view(out@) =~= log_panel(lv, height as int, width as int));
    out
}

} // verus!
