//! Light markdown styling of answer lines: headers, list items, inline
//! code, bold, italic and `@references`.
use crate::text::{
    chars_of, count_leading_ws, is_whitespace, is_ws, starts_with, string_of, string_of_range,
    sub_vec, to_string, trim_start, vec_starts_with,
};
use crate::ui::render::{find_closing_marker, first_marker, lemma_first_marker};
use crate::ui::style::{push_span, spans_view, SpanStyle, StyledSpan};
use vstd::prelude::*;

verus! {

/// Index of the first whitespace character at or after `j`, or the length.
pub open spec fn word_end(ch: Seq<char>, j: int) -> int
    decreases ch.len() - j,
{
    if j >= ch.len() {
        ch.len() as int
    } else if is_ws(ch[j]) {
        j
    } else {
        word_end(ch, j + 1)
    }
}

pub proof fn lemma_word_end(ch: Seq<char>, j: int)
    requires
        0 <= j <= ch.len(),
    ensures
        j <= word_end(ch, j) <= ch.len(),
    decreases ch.len() - j,
{
    if j < ch.len() && !is_ws(ch[j]) {
        lemma_word_end(ch, j + 1);
    }
}

/// The pending plain text as a span, when there is any.
pub open spec fn pending(cur: Seq<char>) -> Seq<(Seq<char>, SpanStyle)> {
    if cur.len() > 0 {
        seq![(cur, SpanStyle::Plain)]
    } else {
        seq![]
    }
}

/// The spans of `ch[i..]`, with plain text `cur` pending and `bt` telling
/// whether a backtick opened inline code: a backtick opens or closes code;
/// outside code `**text**` is bold and `*text*` italic when closed (a lone
/// marker stays as text), and `@` starts a reference up to the next
/// whitespace.
pub open spec fn scan(ch: Seq<char>, i: int, cur: Seq<char>, bt: bool) -> Seq<(Seq<char>, SpanStyle)>
    decreases ch.len() - i,
{
    if i < 0 || i >= ch.len() {
        if cur.len() > 0 {
            seq![(cur, if bt {
                SpanStyle::Code
            } else {
                SpanStyle::Plain
            })]
        } else {
            seq![]
        }
    } else {
        let c = ch[i];
        if c == '`' {
            if bt {
                seq![(cur, SpanStyle::Code)] + scan(ch, i + 1, seq![], false)
            } else {
                pending(cur) + scan(ch, i + 1, seq![], true)
            }
        } else if c == '*' && !bt {
            if i + 1 < ch.len() && ch[i + 1] == '*' {
                match first_marker(ch, i + 2, seq!['*', '*']) {
                    Some(e) => {
                        proof {
                            lemma_first_marker(ch, i + 2, seq!['*', '*']);
                        }
                        pending(cur) + seq![(ch.subrange(i + 2, e), SpanStyle::Bold)] + scan(
                            ch,
                            e + 2,
                            seq![],
                            false,
                        )
                    },
                    None => pending(cur) + seq![(seq!['*', '*'], SpanStyle::Plain)] + scan(
                        ch,
                        i + 2,
                        seq![],
                        false,
                    ),
                }
            } else {
                match first_marker(ch, i + 1, seq!['*']) {
                    Some(e) => {
                        proof {
                            lemma_first_marker(ch, i + 1, seq!['*']);
                        }
                        pending(cur) + seq![(ch.subrange(i + 1, e), SpanStyle::Italic)] + scan(
                            ch,
                            e + 1,
                            seq![],
                            false,
                        )
                    },
                    None => pending(cur) + seq![(seq!['*'], SpanStyle::Plain)] + scan(
                        ch,
                        i + 1,
                        seq![],
                        false,
                    ),
                }
            }
        } else if c == '@' && !bt {
            let w = word_end(ch, i + 1);
            proof {
                lemma_word_end(ch, i + 1);
            }
            pending(cur) + seq![(ch.subrange(i, w), SpanStyle::Reference)] + scan(
                ch,
                w,
                seq![],
                false,
            )
        } else {
            scan(ch, i + 1, cur.push(c), bt)
        }
    }
}

/// The spans of a line: its scan, or the whole line as plain text when the
/// scan gives none.
pub open spec fn inline_spans(line: Seq<char>) -> Seq<(Seq<char>, SpanStyle)> {
    let s = scan(line, 0, seq![], false);
    if s.len() == 0 {
        seq![(line, SpanStyle::Plain)]
    } else {
        s
    }
}

fn flush_plain(spans: &mut Vec<StyledSpan>, cur: &mut Vec<char>)
    ensures
        spans_view(final(spans)@) == spans_view(old(spans)@) + pending(old(cur)@),
        final(cur)@ == Seq::<char>::empty(),
{
    if cur.len() > 0 {
        push_span(spans, string_of(cur), SpanStyle::Plain);
    } else {
        assert(spans_view(spans@) + pending(cur@) =~= spans_view(spans@));
    }
    *cur = Vec::new();
}

fn find_word_end(chars: &Vec<char>, from: usize) -> (r: usize)
    requires
        from <= chars@.len(),
    ensures
        r as int == word_end(chars@, from as int),
{
    let n = chars.len();
    let mut i = from;
    while i < n && !is_whitespace(chars[i])
        invariant
            from <= i <= n,
            n == chars@.len(),
            word_end(chars@, from as int) == word_end(chars@, i as int),
        decreases n - i,
    {
        i += 1;
    }
    i
}

/// Splits a line into styled spans.
pub fn parse_inline_formatting(line: &str) -> (r: Vec<StyledSpan>)
    ensures
        spans_view(r@) == inline_spans(line@),
{
    let chars = chars_of(line);
    let n = chars.len();
    let mut spans: Vec<StyledSpan> = Vec::new();
    let mut current: Vec<char> = Vec::new();
    let mut in_backtick = false;
    let mut i: usize = 0;
    let ghost whole = scan(chars@, 0, seq![], false);
    assert(spans_view(spans@) =~= Seq::<(Seq<char>, SpanStyle)>::empty());
    assert(whole =~= spans_view(spans@) + scan(chars@, i as int, current@, in_backtick));
    proof {
        reveal_strlit("**");
        reveal_strlit("*");
    }
    while i < n
        invariant
            n == chars@.len(),
            chars@ == line@,
            i <= n,
            whole == scan(chars@, 0, seq![], false),
            whole == spans_view(spans@) + scan(chars@, i as int, current@, in_backtick),
            "**"@ == seq!['*', '*'],
            "*"@ == seq!['*'],
        decreases n - i,
    {
        let c = chars[i];
        let ghost sv = spans_view(spans@);
        let ghost cv = current@;
        if c == '`' {
            if in_backtick {
                let t = string_of(&current);
                push_span(&mut spans, t, SpanStyle::Code);
                current = Vec::new();
                in_backtick = false;
            } else {
                flush_plain(&mut spans, &mut current);
                in_backtick = true;
            }
            i += 1;
            assert(whole =~= spans_view(spans@) + scan(chars@, i as int, current@, in_backtick));
        } else if c == '*' && !in_backtick {
            let ghost i0 = i as int;
            flush_plain(&mut spans, &mut current);
            if i + 1 < n && chars[i + 1] == '*' {
                let end = find_closing_marker(chars.as_slice(), i + 2, "**");
                match end {
                    Some(e) => {
                        proof {
                            lemma_first_marker(chars@, i0 + 2, seq!['*', '*']);
                        }
                        assert(first_marker(chars@, i0 + 2, seq!['*', '*']) == Some(e as int));
                        let bold = string_of_range(&chars, i + 2, e);
                        push_span(&mut spans, bold, SpanStyle::Bold);
                        i = e + 2;
                        assert(scan(chars@, i0, cv, false) == pending(cv) + seq![
                            (chars@.subrange(i0 + 2, e as int), SpanStyle::Bold)] + scan(
                            chars@,
                            i as int,
                            seq![],
                            false,
                        ));
                    },
                    None => {
                        assert(first_marker(chars@, i0 + 2, seq!['*', '*']) is None);
                        push_span(&mut spans, to_string("**"), SpanStyle::Plain);
                        i += 2;
                        assert(scan(chars@, i0, cv, false) == pending(cv) + seq![
                            (seq!['*', '*'], SpanStyle::Plain)] + scan(
                            chars@,
                            i as int,
                            seq![],
                            false,
                        ));
                    },
                }
            } else {
                let end = find_closing_marker(chars.as_slice(), i + 1, "*");
                match end {
                    Some(e) => {
                        proof {
                            lemma_first_marker(chars@, i0 + 1, seq!['*']);
                        }
                        assert(first_marker(chars@, i0 + 1, seq!['*']) == Some(e as int));
                        let it = string_of_range(&chars, i + 1, e);
                        push_span(&mut spans, it, SpanStyle::Italic);
                        i = e + 1;
                        assert(scan(chars@, i0, cv, false) == pending(cv) + seq![
                            (chars@.subrange(i0 + 1, e as int), SpanStyle::Italic)] + scan(
                            chars@,
                            i as int,
                            seq![],
                            false,
                        ));
                    },
                    None => {
                        assert(first_marker(chars@, i0 + 1, seq!['*']) is None);
                        push_span(&mut spans, to_string("*"), SpanStyle::Plain);
                        i += 1;
                        assert(scan(chars@, i0, cv, false) == pending(cv) + seq![
                            (seq!['*'], SpanStyle::Plain)] + scan(chars@, i as int, seq![], false));
                    },
                }
            }
            assert(whole =~= spans_view(spans@) + scan(chars@, i as int, current@, in_backtick));
        } else if c == '@' && !in_backtick {
            flush_plain(&mut spans, &mut current);
            let start = i;
            proof {
                lemma_word_end(chars@, start + 1);
            }
            i = find_word_end(&chars, start + 1);
            let r = string_of_range(&chars, start, i);
            push_span(&mut spans, r, SpanStyle::Reference);
            assert(whole =~= spans_view(spans@) + scan(chars@, i as int, current@, in_backtick));
        } else {
            current.push(c);
            i += 1;
            assert(whole =~= spans_view(spans@) + scan(chars@, i as int, current@, in_backtick));
        }
    }
    let ghost sv = spans_view(spans@);
    if current.len() > 0 {
        let t = string_of(&current);
        if in_backtick {
            push_span(&mut spans, t, SpanStyle::Code);
        } else {
            push_span(&mut spans, t, SpanStyle::Plain);
        }
    }
    assert(spans_view(spans@) =~= whole);
    if spans.len() == 0 {
        let mut only: Vec<StyledSpan> = Vec::new();
        push_span(&mut only, to_string(line), SpanStyle::Plain);
        assert(spans_view(only@) =~= inline_spans(line@));
        return only;
    }
    spans
}

/// `char::is_numeric` (Unicode general categories Nd, Nl and No).
pub uninterp spec fn numeric(c: char) -> bool;

/// `char::is_numeric`: whether `c` is in one of Unicode's number
/// categories; its value is named by [`numeric`]. The ASCII digits are
/// decimal digits (category Nd), so they are numeric.
#[verifier::external_body]
fn is_numeric(c: char) -> (b: bool)
    ensures
        b == numeric(c),
        '0' <= c <= '9' ==> b,
{
    c.is_numeric()
}

/// The spans of an answer line: a `#`, `##` or `###` header, a `-` or `*`
/// list item with a bullet, a numbered item whose number is kept, or the
/// line's inline spans. `first_numeric` tells whether the first character of
/// the line, once leading whitespace is removed, is numeric.
pub open spec fn message_line_spans_with(line: Seq<char>, first_numeric: bool) -> Seq<
    (Seq<char>, SpanStyle),
> {
    let t = trim_start(line);
    if starts_with(t, "### "@) {
        seq![(t.skip(4), SpanStyle::Header3)]
    } else if starts_with(t, "## "@) {
        seq![(t.skip(3), SpanStyle::Header2)]
    } else if starts_with(t, "# "@) {
        seq![(t.skip(2), SpanStyle::Header1)]
    } else if starts_with(t, "- "@) || starts_with(t, "* "@) {
        seq![("• "@, SpanStyle::Bullet)] + inline_spans(t.skip(2))
    } else if first_numeric && crate::scrapper::contains_sub(t, ". "@) {
        let d = first_dot_space(t);
        seq![(t.take(d + 2), SpanStyle::ListNumber)] + inline_spans(t.skip(d + 2))
    } else {
        inline_spans(line)
    }
}

/// The spans of an answer line, its first non-blank character tested with
/// `char::is_numeric`.
pub open spec fn message_line_spans(line: Seq<char>) -> Seq<(Seq<char>, SpanStyle)> {
    let t = trim_start(line);
    message_line_spans_with(line, t.len() > 0 && numeric(t[0]))
}

/// Index of the first `". "` in `t`.
pub open spec fn first_dot_space(t: Seq<char>) -> int {
    match first_marker(t, 0, ". "@) {
        Some(d) => d,
        None => t.len() as int,
    }
}

fn spans_of_rest(t: &Vec<char>, k: usize) -> (r: Vec<StyledSpan>)
    requires
        k <= t@.len(),
    ensures
        spans_view(r@) == inline_spans(t@.skip(k as int)),
{
    let rest = string_of(&sub_vec(t, k, t.len()));
    assert(rest@ =~= t@.skip(k as int));
    parse_inline_formatting(rest.as_str())
}

fn prepend_span(head: StyledSpan, rest: Vec<StyledSpan>) -> (r: Vec<StyledSpan>)
    ensures
        spans_view(r@) == seq![(head.text@, head.style)] + spans_view(rest@),
{
    let mut r: Vec<StyledSpan> = Vec::new();
    let ghost h = (head.text@, head.style);
    r.push(head);
    let mut rest = rest;
    let ghost rv = spans_view(rest@);
    r.append(&mut rest);
    assert(spans_view(r@) =~= seq![h] + rv);
    r
}

/// Styles an answer line.
pub fn highlight_message_line(line: &str) -> (r: Vec<StyledSpan>)
    ensures
        spans_view(r@) == message_line_spans(line@),
{
    let all = chars_of(line);
    let lo = count_leading_ws(&all, 0);
    assert(all@.skip(0) =~= all@);
    let first_numeric = lo < all.len() && is_numeric(all[lo]);
    proof {
        let t = trim_start(line@);
        assert(t.len() > 0 ==> t[0] == all@[lo as int]);
    }
    style_message_line(line, first_numeric)
}

/// Styles an answer line, given whether its first non-blank character is
/// numeric.
pub fn style_message_line(line: &str, first_numeric: bool) -> (r: Vec<StyledSpan>)
    ensures
        spans_view(r@) == message_line_spans_with(line@, first_numeric),
{
    let all = chars_of(line);
    let lo = count_leading_ws(&all, 0);
    assert(all@.skip(0) =~= all@);
    let t = sub_vec(&all, lo, all.len());
    assert(t@ =~= trim_start(line@));
    proof {
        reveal_strlit("### ");
        reveal_strlit("## ");
        reveal_strlit("# ");
        reveal_strlit("- ");
        reveal_strlit("* ");
        reveal_strlit(". ");
    }
    if vec_starts_with(&t, &chars_of("### ")) {
        let mut r: Vec<StyledSpan> = Vec::new();
        push_span(&mut r, string_of(&sub_vec(&t, 4, t.len())), SpanStyle::Header3);
        assert(spans_view(r@) =~= message_line_spans_with(line@, first_numeric));
        return r;
    }
    if vec_starts_with(&t, &chars_of("## ")) {
        let mut r: Vec<StyledSpan> = Vec::new();
        push_span(&mut r, string_of(&sub_vec(&t, 3, t.len())), SpanStyle::Header2);
        assert(spans_view(r@) =~= message_line_spans_with(line@, first_numeric));
        return r;
    }
    if vec_starts_with(&t, &chars_of("# ")) {
        let mut r: Vec<StyledSpan> = Vec::new();
        push_span(&mut r, string_of(&sub_vec(&t, 2, t.len())), SpanStyle::Header1);
        assert(spans_view(r@) =~= message_line_spans_with(line@, first_numeric));
        return r;
    }
    if vec_starts_with(&t, &chars_of("- ")) || vec_starts_with(&t, &chars_of("* ")) {
        let rest = spans_of_rest(&t, 2);
        let r = prepend_span(StyledSpan { text: to_string("• "), style: SpanStyle::Bullet }, rest);
        return r;
    }
    if first_numeric {
        let found = find_closing_marker(t.as_slice(), 0, ". ");
        match found {
            Some(d) => {
                proof {
                    lemma_first_marker(t@, 0, ". "@);
                    assert(first_dot_space(t@) == d);
                    assert(t@.subrange(d as int, d + 2) == ". "@);
                    assert(crate::scrapper::contains_sub(t@, ". "@));
                }
                let num = string_of(&sub_vec(&t, 0, d + 2));
                assert(num@ =~= t@.take(d + 2));
                let rest = spans_of_rest(&t, d + 2);
                let r = prepend_span(StyledSpan { text: num, style: SpanStyle::ListNumber }, rest);
                return r;
            },
            None => {
                proof {
                    if crate::scrapper::contains_sub(t@, ". "@) {
                        let j = choose|j: int| 0 <= j && j + 2 <= t@.len() && #[trigger] t@.subrange(j, j + 2) == ". "@;
                        assert(crate::ui::render::marker_at(t@, ". "@, j));
                    }
                }
            },
        }
    }
    parse_inline_formatting(line)
}

} // verus!
