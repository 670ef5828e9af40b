//! Properties that hold across the library's operations.
use crate::app::action::{reduce_post, Action};
use crate::app::command::{
    command_of_words, command_words, help_text_spec, leading_slashes, parse_spec,
};
use crate::app::event::{busy, step_post, Effect, Event};
use crate::app::state::{backspaced, can_backspace, can_insert, inserted, App};
use crate::db::metadata::{changed_since, FileMetadata, FileStat};
use crate::dev::debug::{after_write, MAX_LOG_LINES};
use crate::service::indexing::{file_chunks, index_steps_spec, steps_from, IndexStepView};
use crate::scrapper::{chunk_bounds, chunk_count, chunk_step, contains_sub};
use crate::text::{
    char_index, char_width, is_boundary, is_ws, leading_ws, lemma_char_index_unique,
    join_lines, lemma_split_nl_len, lemma_trim_idempotent, lemma_utf8_len_concat, lines,
    split_nl, starts_with_char, strip_cr, trailing_ws, trim, trim_end, utf8_len, words,
};
use crate::ui::chat::{sat_sub, scroll_offset};
use crate::ui::markdown::pending;
use crate::ui::panels::{input_line_spans, input_scan};
use crate::ui::render::{wrap_count, wrapped};
use crate::ui::style::SpanStyle;
use vstd::prelude::*;

verus! {

broadcast use vstd::seq_lib::group_seq_properties;

/// Typing a one-byte character (any ASCII one) with `App::insert_char` and
/// then pressing backspace (`App::delete_char_before_cursor`, which the
/// reducer runs for `Action::Backspace`) gives back the state that was there
/// before: backspace is allowed after the insertion, and it removes exactly
/// the inserted character and moves the cursor back to where it was.
pub proof fn law_insert_then_backspace(pre: App, mid: App, post: App, c: char)
    requires
        char_width(c) == 1,
        can_insert(pre, c),
        inserted(pre, mid, c),
    ensures
        can_backspace(mid),
        backspaced(mid, post) ==> post == (App { input: post.input, ..pre }) && post.input@
            == pre.input@,
{
    let s = pre.input@;
    let b = pre.cursor_pos as int;
    let k = char_index(s, b);
    assert(is_boundary(s, b));
    assert(0 <= k <= s.len() && utf8_len(s.take(k)) == b);
    let t = mid.input@;
    assert(t == s.take(k).push(c) + s.skip(k));
    assert(t.take(k) =~= s.take(k));
    assert(t.take(k + 1) =~= s.take(k).push(c));
    assert(t.take(k + 1).drop_last() =~= s.take(k));
    assert(utf8_len(t.take(k + 1)) == b + 1);
    // the cursor after the insertion sits after the inserted character
    lemma_char_index_unique(t, k, b);
    lemma_utf8_len_ge_take(s, k);
    assert(mid.cursor_pos == b + 1);
    // the text grew by the inserted character
    assert(t =~= s.take(k).push(c) + s.skip(k));
    lemma_utf8_len_concat(s.take(k).push(c), s.skip(k));
    lemma_utf8_len_concat(s.take(k), s.skip(k));
    assert(s.take(k) + s.skip(k) =~= s);
    assert(utf8_len(s.take(k).push(c)) == b + 1);
    assert(utf8_len(t) == utf8_len(s) + 1);
    lemma_utf8_len_ge_take(s, k);
    assert(mid.cursor_pos - 1 < utf8_len(t));
    assert(t.remove(k) =~= s);
}

/// Backspace with the cursor at the start of the input is always allowed and
/// changes nothing.
pub proof fn law_backspace_at_start_changes_nothing(pre: App, post: App)
    requires
        pre.cursor_pos == 0,
    ensures
        can_backspace(pre),
        backspaced(pre, post) ==> post == pre,
{
}

proof fn lemma_utf8_len_ge_take(s: Seq<char>, k: int)
    requires
        0 <= k <= s.len(),
    ensures
        utf8_len(s.take(k)) <= utf8_len(s),
{
    crate::text::lemma_utf8_len_take_mono(s, k, s.len() as int);
    assert(s.take(s.len() as int) =~= s);
}

/// Moving to the next suggestion and back to the previous one leaves the
/// state as it was, when a suggestion is chosen.
pub proof fn law_next_then_prev_completion(pre: App, mid: App, post: App)
    requires
        pre.suggestion_index < pre.suggestions@.len(),
        reduce_post(pre, mid, Action::NextCompletion),
        reduce_post(mid, post, Action::PrevCompletion),
    ensures
        post == pre,
{
    if pre.show_suggestions {
        assert(mid.suggestions == pre.suggestions);
        assert(mid.suggestions@.len() == pre.suggestions@.len());
        assert(pre.suggestions.len() == pre.suggestions@.len());
        if pre.suggestion_index + 1 < pre.suggestions@.len() {
            assert(mid.suggestion_index == pre.suggestion_index + 1);
        } else {
            assert(mid.suggestion_index == 0);
        }
    }
}

/// Moving to the previous suggestion and back to the next one leaves the
/// state as it was, when a suggestion is chosen.
pub proof fn law_prev_then_next_completion(pre: App, mid: App, post: App)
    requires
        pre.suggestion_index < pre.suggestions@.len(),
        reduce_post(pre, mid, Action::PrevCompletion),
        reduce_post(mid, post, Action::NextCompletion),
    ensures
        post == pre,
{
    if pre.show_suggestions {
        assert(mid.suggestions == pre.suggestions);
        assert(mid.suggestions@.len() == pre.suggestions@.len());
        assert(pre.suggestions.len() == pre.suggestions@.len());
        if pre.suggestion_index > 0 {
            assert(mid.suggestion_index == pre.suggestion_index - 1);
        } else {
            assert(mid.suggestion_index == pre.suggestions@.len() - 1);
        }
    }
}

/// Line `i` lies in one of the chunks of `n` lines.
pub open spec fn line_in_some_chunk(n: nat, chunk_size: nat, overlap: nat, i: int) -> bool {
    exists|k: int|
        0 <= k < chunk_count(n, chunk_size, overlap) && #[trigger] chunk_bounds(
            n,
            chunk_size,
            overlap,
            k,
        ).0 <= i < chunk_bounds(n, chunk_size, overlap, k).1
}

/// How `chunk_text` windows `n` lines (`n >= 1`): every chunk holds between
/// one and `chunk_size` lines, the last one ends with the last line, every
/// line is in some chunk, and consecutive chunks share `overlap` lines.
pub proof fn law_chunks_cover_lines(n: nat, chunk_size: nat, overlap: nat)
    requires
        n >= 1,
        chunk_size > overlap || n <= chunk_size,
    ensures
        chunk_count(n, chunk_size, overlap) >= 1,
        forall|k: int|
            0 <= k < chunk_count(n, chunk_size, overlap) ==> {
                let b = #[trigger] chunk_bounds(n, chunk_size, overlap, k);
                0 <= b.0 < b.1 <= n && b.1 - b.0 <= chunk_size
            },
        chunk_bounds(n, chunk_size, overlap, chunk_count(n, chunk_size, overlap) - 1).1 == n,
        forall|i: int| 0 <= i < n ==> #[trigger] line_in_some_chunk(n, chunk_size, overlap, i),
        forall|k: int|
            0 <= k < chunk_count(n, chunk_size, overlap) - 1 ==> #[trigger] chunk_bounds(
                n,
                chunk_size,
                overlap,
                k,
            ).1 - chunk_bounds(n, chunk_size, overlap, k + 1).0 == overlap,
{
    let cs = chunk_size as int;
    let step = chunk_step(chunk_size, overlap) as int;
    let count = chunk_count(n, chunk_size, overlap) as int;
    if n <= chunk_size {
        assert(count == 1);
        assert(chunk_bounds(n, chunk_size, overlap, 0) == (0int, n as int)) by {
            assert(0 * step == 0);
        }
        assert forall|i: int| 0 <= i < n implies #[trigger] line_in_some_chunk(
            n,
            chunk_size,
            overlap,
            i,
        ) by {
            assert(chunk_bounds(n, chunk_size, overlap, 0).0 <= i);
        }
    } else {
        assert(step == cs - overlap && step >= 1 && step <= cs);
        let x = n - cs + step - 1;
        let q = x / step;
        assert(count == 1 + q);
        assert(q * step <= x < q * step + step) by (nonlinear_arith)
            requires
                step >= 1,
                q == x / step,
                x >= 0,
        ;
        // the window of the last chunk reaches the last line, the one before
        // it does not
        assert(q * step >= n - cs);
        assert(q >= 1) by (nonlinear_arith)
            requires
                q * step >= n - cs,
                n - cs >= 1,
                step >= 1,
        ;
        assert((q - 1) * step < n - cs) by (nonlinear_arith)
            requires
                q * step <= x,
                x == n - cs + step - 1,
        ;
        assert forall|k: int| 0 <= k < count implies {
            let b = #[trigger] chunk_bounds(n, chunk_size, overlap, k);
            0 <= b.0 < b.1 <= n && b.1 - b.0 <= chunk_size
        } by {
            assert(0 <= k * step <= q * step) by (nonlinear_arith)
                requires
                    0 <= k <= q,
                    step >= 1,
            ;
            assert(q * step < n - cs + step) by (nonlinear_arith)
                requires
                    (q - 1) * step < n - cs,
            ;
        }
        assert(chunk_bounds(n, chunk_size, overlap, count - 1).1 == n) by {
            assert((count - 1) * step == q * step);
        }
        assert forall|i: int| 0 <= i < n implies #[trigger] line_in_some_chunk(
            n,
            chunk_size,
            overlap,
            i,
        ) by {
            if i < cs {
                assert(chunk_bounds(n, chunk_size, overlap, 0).0 == 0) by {
                    assert(0 * step == 0);
                }
            } else {
                let d = (i - cs) / step;
                let k = d + 1;
                assert(d * step <= i - cs < d * step + step) by (nonlinear_arith)
                    requires
                        step >= 1,
                        d == (i - cs) / step,
                        i - cs >= 0,
                ;
                assert(k * step == d * step + step) by (nonlinear_arith)
                    requires
                        k == d + 1,
                ;
                assert(d < q) by (nonlinear_arith)
                    requires
                        d * step <= i - cs,
                        i < n,
                        q * step >= n - cs,
                        step >= 1,
                ;
                assert(d >= 0) by (nonlinear_arith)
                    requires
                        d == (i - cs) / step,
                        i - cs >= 0,
                        step >= 1,
                ;
                assert(chunk_bounds(n, chunk_size, overlap, k).0 <= i);
                assert(i < chunk_bounds(n, chunk_size, overlap, k).1);
            }
        }
        assert forall|k: int| 0 <= k < count - 1 implies #[trigger] chunk_bounds(
            n,
            chunk_size,
            overlap,
            k,
        ).1 - chunk_bounds(n, chunk_size, overlap, k + 1).0 == overlap by {
            assert(k * step + cs < n) by (nonlinear_arith)
                requires
                    0 <= k <= q - 1,
                    (q - 1) * step < n - cs,
                    step >= 1,
            ;
            assert((k + 1) * step == k * step + step) by (nonlinear_arith);
        }
    }
}

proof fn lemma_wrapped_prefix(line: Seq<char>, w: nat, j: int)
    requires
        w > 0,
        0 <= j <= wrap_count(line.len(), w),
    ensures
        wrapped(line, w).take(j).flatten() == line.take(
            if j * w < line.len() {
                j * w
            } else {
                line.len() as int
            },
        ),
    decreases j,
{
    let n = line.len() as int;
    let c = wrap_count(line.len(), w) as int;
    let p = wrapped(line, w);
    if j == 0 {
        assert(p.take(0) =~= Seq::<Seq<char>>::empty());
        assert(line.take(0) =~= Seq::<char>::empty());
    } else {
        lemma_wrapped_prefix(line, w, j - 1);
        assert(p.take(j) =~= p.take(j - 1).push(p[j - 1]));
        p.take(j - 1).lemma_flatten_push(p[j - 1]);
        assert((j - 1) * w + w == j * w) by (nonlinear_arith);
        if n == 0 {
            assert(c == 1);
            assert(j == 1);
            assert(0 * w == 0);
            assert(p[0] =~= Seq::<char>::empty());
        } else {
            assert(c * w <= n + w - 1) by (nonlinear_arith)
                requires
                    c == (n + w - 1) / (w as int),
                    w > 0,
                    n > 0,
            ;
            assert((j - 1) * w < n) by (nonlinear_arith)
                requires
                    j <= c,
                    c * w <= n + w - 1,
                    w > 0,
            ;
            assert(line.take((j - 1) * w) + p[j - 1] =~= line.take(
                if j * w < n {
                    j * w
                } else {
                    n
                },
            ));
        }
    }
}

/// `wrap_line` loses and adds nothing: its pieces put back together give
/// the line, no piece is wider than the width, and every piece but the last
/// is exactly as wide.
pub proof fn law_wrap_pieces(line: Seq<char>, w: nat)
    requires
        w > 0,
    ensures
        wrapped(line, w).flatten() == line,
        forall|k: int| 0 <= k < wrapped(line, w).len() ==> (#[trigger] wrapped(line, w)[k]).len() <= w,
        forall|k: int|
            0 <= k < wrapped(line, w).len() - 1 ==> (#[trigger] wrapped(line, w)[k]).len() == w,
{
    let n = line.len() as int;
    let c = wrap_count(line.len(), w) as int;
    let p = wrapped(line, w);
    lemma_wrapped_prefix(line, w, c);
    assert(p.take(c) =~= p);
    if n > 0 {
        assert(c * w >= n) by (nonlinear_arith)
            requires
                c == (n + w - 1) / (w as int),
                w > 0,
                n > 0,
        ;
        assert(line.take(n) =~= line);
        assert(c * w <= n + w - 1) by (nonlinear_arith)
            requires
                c == (n + w - 1) / (w as int),
                w > 0,
                n > 0,
        ;
        assert forall|k: int| 0 <= k < c - 1 implies (#[trigger] p[k]).len() == w by {
            assert(k * w + w < n) by (nonlinear_arith)
                requires
                    0 <= k < c - 1,
                    c * w <= n + w - 1,
                    w > 0,
            ;
            assert(0 <= k * w) by (nonlinear_arith)
                requires
                    0 <= k,
            ;
        }
        assert forall|k: int| 0 <= k < c implies (#[trigger] p[k]).len() <= w by {
            assert(0 <= k * w) by (nonlinear_arith)
                requires
                    0 <= k,
            ;
            assert(k * w <= (c - 1) * w) by (nonlinear_arith)
                requires
                    0 <= k < c,
                    w > 0,
            ;
            assert((c - 1) * w < n) by (nonlinear_arith)
                requires
                    c * w <= n + w - 1,
                    w > 0,
            ;
        }
    } else {
        assert(line.take(0) =~= line);
        assert(0 * w == 0);
    }
}

/// When the chat follows the bottom, the lines shown end with the last line
/// of the conversation: the offset and the number of lines shown add up to
/// the number of lines.
pub proof fn law_follow_bottom_shows_last(app: App, total: nat, visible: nat)
    requires
        app.follow_bottom,
    ensures
        ({
            let max = sat_sub(total as int, visible as int);
            let off = scroll_offset(app, max);
            off + (if total - off < visible {
                total - off
            } else {
                visible as int
            }) == total
        }),
{
}

/// A file recorded from what the file system says of it does not need to be
/// indexed again while the file system still says the same.
pub proof fn law_recorded_file_needs_no_reindex(
    before: Map<Seq<char>, FileMetadata>,
    after: Map<Seq<char>, FileMetadata>,
    m: FileMetadata,
    stat: FileStat,
)
    requires
        after == before.insert(m.path@, m),
        m.mtime == stat.mtime,
        m.size == stat.size,
    ensures
        after.dom().contains(m.path@),
        !changed_since(after[m.path@], Some(stat)),
{
}

/// A file whose entry was removed must be indexed again, whatever the file
/// system says of it.
pub proof fn law_removed_file_needs_reindex(
    before: Map<Seq<char>, FileMetadata>,
    after: Map<Seq<char>, FileMetadata>,
    path: Seq<char>,
)
    requires
        after == before.remove(path),
    ensures
        !after.dom().contains(path),
{
}

/// The log buffer never holds more than `MAX_LOG_LINES` lines, and a line
/// with text is kept as the newest one, trimmed.
pub proof fn law_log_buffer_bounded(lines: Seq<Seq<char>>, text: Seq<char>)
    requires
        lines.len() <= MAX_LOG_LINES,
    ensures
        after_write(lines, text).len() <= MAX_LOG_LINES,
        trim(text).len() > 0 ==> after_write(lines, text).last() == trim(text),
        trim(text).len() == 0 ==> after_write(lines, text) == lines,
{
}

/// Whitespace around a command line does not change what it means.
pub proof fn law_parse_ignores_surrounding_whitespace(input: Seq<char>)
    ensures
        parse_spec(trim(input)) == parse_spec(input),
{
    lemma_trim_idempotent(input);
}

/// The commands that the help text lists, in its order.
pub open spec fn help_command_words() -> Seq<Seq<char>> {
    seq![
        "models"@,
        "switch"@,
        "switch-embed"@,
        "index"@,
        "incremental-index"@,
        "reindex"@,
        "save"@,
        "export"@,
        "import"@,
        "clear"@,
        "clear-history"@,
        "benchmark"@,
        "profiles"@,
        "profile"@,
        "syntax"@,
        "help"@,
        "quit"@,
    ]
}

/// A text without whitespace is one word.
proof fn lemma_words_single(s: Seq<char>)
    requires
        s.len() > 0,
        forall|i: int| 0 <= i < s.len() ==> !is_ws(#[trigger] s[i]),
    ensures
        words(s) == seq![s],
    decreases s.len(),
{
    let c = s.last();
    assert(!is_ws(s[s.len() - 1]));
    if s.len() == 1 {
        assert(s.drop_last() =~= Seq::<char>::empty());
        assert(words(s.drop_last()) =~= Seq::<Seq<char>>::empty());
        assert(seq![c] =~= s);
        assert(Seq::<Seq<char>>::empty().push(seq![c]) =~= seq![s]);
    } else {
        lemma_words_single(s.drop_last());
        assert(!is_ws(s[s.len() - 2]));
        let w = words(s.drop_last());
        assert(s.drop_last().push(c) =~= s);
        assert(w.update(w.len() - 1, w.last().push(c)) =~= seq![s]);
    }
}

/// A word without whitespace after a space (or at the start) is one more
/// word.
proof fn lemma_words_append(p: Seq<char>, q: Seq<char>)
    requires
        q.len() > 0,
        forall|i: int| 0 <= i < q.len() ==> !is_ws(#[trigger] q[i]),
        p.len() == 0 || is_ws(p.last()),
    ensures
        words(p + q) == words(p).push(q),
    decreases q.len(),
{
    let s = p + q;
    if q.len() == 1 {
        assert(s.drop_last() =~= p);
        assert(s.last() == q[0]);
        if p.len() > 0 {
            assert(s[s.len() - 2] == p.last());
        }
        assert(seq![q[0]] =~= q);
    } else {
        lemma_words_append(p, q.drop_last());
        assert(s.drop_last() =~= p + q.drop_last());
        assert(s.last() == q.last());
        assert(s[s.len() - 2] == q[q.len() - 2]);
        assert(q.drop_last().push(q.last()) =~= q);
        assert((p + q.drop_last()).len() > 0);
    }
}

/// A command word and an argument, each without whitespace, typed after one
/// slash and separated by a space, are parsed as those two words.
#[verifier::spinoff_prover]
#[verifier::rlimit(40)]
pub proof fn lemma_parse_word_with_argument(w: Seq<char>, x: Seq<char>)
    requires
        w.len() > 0,
        x.len() > 0,
        w[0] != '/',
        forall|i: int| 0 <= i < w.len() ==> !is_ws(#[trigger] w[i]),
        forall|i: int| 0 <= i < x.len() ==> !is_ws(#[trigger] x[i]),
    ensures
        parse_spec(seq!['/'] + w + seq![' '] + x) == command_of_words(seq![w, x]),
{
    let s = seq!['/'] + w + seq![' '] + x;
    let rest = w + seq![' '] + x;
    assert(s =~= seq!['/'] + rest);
    assert(!is_ws(s[0]));
    assert(s[s.len() - 1] == x[x.len() - 1]);
    assert(!is_ws(x[x.len() - 1]));
    lemma_trim_of_unspaced_ends(s);
    assert(s.drop_first() =~= rest);
    assert(rest[0] == w[0]);
    assert(leading_slashes(rest) == 0);
    assert(leading_slashes(s) == 1);
    assert(s.skip(1) =~= rest);
    lemma_words_single(w);
    let p = w.push(' ');
    assert(p.drop_last() =~= w);
    assert(is_ws(p.last()));
    assert(words(p) == words(w));
    lemma_words_append(p, x);
    assert(rest =~= p + x);
    assert(command_words(s) =~= seq![w, x]);
    assert(trim(s) != seq!['?']) by {
        assert(trim(s).len() >= 3);
    }
}

/// A text that neither starts nor ends with whitespace is its own trim.
proof fn lemma_trim_of_unspaced_ends(s: Seq<char>)
    requires
        s.len() > 0,
        !is_ws(s[0]),
        !is_ws(s[s.len() - 1]),
    ensures
        trim(s) == s,
{
    assert(leading_ws(s) == 0);
    assert(s.skip(0) =~= s);
    assert(trailing_ws(s) == 0);
    assert(s.take(s.len() as int) =~= s);
}

/// `s` holds no `'\n'`.
pub open spec fn no_newline(s: Seq<char>) -> bool {
    forall|i: int| 0 <= i < s.len() ==> #[trigger] s[i] != '\n'
}

proof fn lemma_split_nl_append(p: Seq<char>, q: Seq<char>)
    requires
        no_newline(q),
    ensures
        split_nl(p + q) == split_nl(p).update(
            split_nl(p).len() - 1,
            split_nl(p).last() + q,
        ),
    decreases q.len(),
{
    lemma_split_nl_len(p);
    if q.len() == 0 {
        assert(p + q =~= p);
        assert(split_nl(p).last() + q =~= split_nl(p).last());
        assert(split_nl(p).update(split_nl(p).len() - 1, split_nl(p).last()) =~= split_nl(p));
    } else {
        let q0 = q.drop_last();
        lemma_split_nl_append(p, q0);
        assert((p + q).drop_last() =~= p + q0);
        assert((p + q).last() == q.last());
        assert(q[q.len() - 1] != '\n');
        assert((split_nl(p).last() + q0).push(q.last()) =~= split_nl(p).last() + q);
        assert(split_nl(p + q) =~= split_nl(p).update(
            split_nl(p).len() - 1,
            split_nl(p).last() + q,
        ));
    }
}

proof fn lemma_split_nl_join(ls: Seq<Seq<char>>)
    requires
        ls.len() > 0,
        forall|k: int| 0 <= k < ls.len() ==> no_newline(#[trigger] ls[k]),
    ensures
        split_nl(join_lines(ls)) == ls,
    decreases ls.len(),
{
    if ls.len() == 1 {
        lemma_split_nl_append(Seq::<char>::empty(), ls[0]);
        assert(Seq::<char>::empty() + ls[0] =~= ls[0]);
        assert(Seq::<Seq<char>>::empty().len() == 0);
        assert(split_nl(Seq::<char>::empty()) == seq![Seq::<char>::empty()]);
        assert(seq![Seq::<char>::empty()].update(0, Seq::<char>::empty() + ls[0]) =~= ls);
    } else {
        let d = ls.drop_last();
        assert(no_newline(ls[ls.len() - 1]));
        assert forall|k: int| 0 <= k < d.len() implies no_newline(#[trigger] d[k]) by {
            assert(d[k] == ls[k]);
        }
        lemma_split_nl_join(d);
        let p = join_lines(d).push('\n');
        assert(p.drop_last() =~= join_lines(d));
        assert(split_nl(p) == d.push(seq![]));
        lemma_split_nl_append(p, ls.last());
        assert(join_lines(ls) == p + ls.last());
        assert(Seq::<char>::empty() + ls.last() =~= ls.last());
        assert(d.push(seq![]).update(d.len() as int, Seq::<char>::empty() + ls.last()) =~= ls);
    }
}

/// The lines of lines joined with `'\n'` are those lines, when none holds a
/// `'\n'`, none but the last ends with `'\r'`, and the last is not empty.
proof fn lemma_lines_of_join(ls: Seq<Seq<char>>)
    requires
        ls.len() > 0,
        forall|k: int| 0 <= k < ls.len() ==> no_newline(#[trigger] ls[k]),
        forall|k: int| 0 <= k < ls.len() - 1 ==> (#[trigger] ls[k]).len() == 0 || ls[k].last() != '\r',
        ls.last().len() > 0,
    ensures
        lines(join_lines(ls)) == ls,
{
    lemma_split_nl_join(ls);
    let p = split_nl(join_lines(ls));
    let t = Seq::new((p.len() - 1) as nat, |k: int| strip_cr(p[k]));
    assert(t.push(p.last()) =~= ls);
}

proof fn lemma_leading_ws_padded(pad: Seq<char>, body: Seq<char>)
    requires
        forall|i: int| 0 <= i < pad.len() ==> is_ws(#[trigger] pad[i]),
        body.len() > 0,
        !is_ws(body[0]),
    ensures
        leading_ws(pad + body) == pad.len(),
    decreases pad.len(),
{
    let s = pad + body;
    if pad.len() == 0 {
        assert(s =~= body);
    } else {
        lemma_leading_ws_padded(pad.drop_first(), body);
        assert(s.drop_first() =~= pad.drop_first() + body);
        assert(is_ws(s[0]));
    }
}

/// Leading whitespace is what `trim` removes from a line whose text starts
/// and ends with other characters.
proof fn lemma_trim_padded(pad: Seq<char>, body: Seq<char>)
    requires
        forall|i: int| 0 <= i < pad.len() ==> is_ws(#[trigger] pad[i]),
        body.len() > 0,
        !is_ws(body[0]),
        !is_ws(body[body.len() - 1]),
    ensures
        trim(pad + body) == body,
{
    lemma_leading_ws_padded(pad, body);
    assert((pad + body).skip(pad.len() as int) =~= body);
    lemma_trim_of_unspaced_ends(body);
    assert(trim(body) == trim_end(body));
}

proof fn lemma_words_nonempty(s: Seq<char>)
    requires
        s.len() > 0,
        !is_ws(s.last()),
    ensures
        words(s).len() > 0,
    decreases s.len(),
{
    if s.len() >= 2 && !is_ws(s[s.len() - 2]) {
        lemma_words_nonempty(s.drop_last());
    }
}

/// Text after whitespace adds its own words.
proof fn lemma_words_concat(p: Seq<char>, q: Seq<char>)
    requires
        p.len() > 0,
        is_ws(p.last()),
    ensures
        words(p + q) == words(p) + words(q),
    decreases q.len(),
{
    let s = p + q;
    if q.len() == 0 {
        assert(s =~= p);
        assert(words(p) + words(q) =~= words(p));
    } else {
        let q0 = q.drop_last();
        let c = q.last();
        lemma_words_concat(p, q0);
        assert(s.drop_last() =~= p + q0);
        assert(s.last() == c);
        if is_ws(c) {
        } else if q0.len() > 0 && !is_ws(q0.last()) {
            assert(s[s.len() - 2] == q0.last());
            assert(q[q.len() - 2] == q0.last());
            lemma_words_nonempty(q0);
            let w = words(q0);
            assert((words(p) + w).update(words(p).len() + w.len() - 1, w.last().push(c))
                =~= words(p) + w.update(w.len() - 1, w.last().push(c)));
        } else {
            if q0.len() > 0 {
                assert(s[s.len() - 2] == q0.last());
                assert(q[q.len() - 2] == q0.last());
            } else {
                assert(s[s.len() - 2] == p.last());
                assert(q0 =~= Seq::<char>::empty());
            }
            assert((words(p) + words(q0)).push(seq![c]) =~= words(p) + words(q0).push(seq![c]));
        }
    }
}

/// The first word of a line that is a word, a space and more.
proof fn lemma_first_word(w: Seq<char>, rest: Seq<char>)
    requires
        w.len() > 0,
        forall|i: int| 0 <= i < w.len() ==> !is_ws(#[trigger] w[i]),
    ensures
        words(w + seq![' '] + rest).len() > 0,
        words(w + seq![' '] + rest)[0] == w,
{
    let p = w.push(' ');
    lemma_words_single(w);
    assert(p.drop_last() =~= w);
    assert(words(p) == words(w));
    lemma_words_concat(p, rest);
    assert(w + seq![' '] + rest =~= p + rest);
}

/// The lines of the help text.
pub open spec fn help_lines() -> Seq<Seq<char>> {
    seq![
        "/models              - List models"@,
        "    /switch <model>      - Change chat model"@,
        "    /switch-embed <model> - Change embed model"@,
        "    /index <path>        - Index directory (full)"@,
        "    /incremental-index <path> - Smart reindex (only changed files)"@,
        "    /reindex             - Reindex current project"@,
        "    /save                - Save index"@,
        "    /export [file]       - Export last retrieved context"@,
        "    /import <file>       - Load questions from file"@,
        "    /clear               - Clear chat"@,
        "    /clear-history       - Clear conversation context"@,
        "    /benchmark           - Show timing metrics"@,
        "    /profiles            - List config profiles"@,
        "    /profile <name>      - Switch profile"@,
        "    /syntax              - Toggle syntax highlighting"@,
        "    /help                - Show help"@,
        "    /quit                - Exit"@,
        ""@,
        "    @file or @dir/       - Include files in question"@,
        "    Tab                  - Complete @path"@,
    ]
}

/// The help text is its lines joined with `'\n'`.
#[verifier::spinoff_prover]
#[verifier::rlimit(80)]
proof fn lemma_help_text_lines()
    ensures
        lines(help_text_spec()@) == help_lines(),
{
    reveal_strlit("/models              - List models
    /switch <model>      - Change chat model
    /switch-embed <model> - Change embed model
    /index <path>        - Index directory (full)
    /incremental-index <path> - Smart reindex (only changed files)
    /reindex             - Reindex current project
    /save                - Save index
    /export [file]       - Export last retrieved context
    /import <file>       - Load questions from file
    /clear               - Clear chat
    /clear-history       - Clear conversation context
    /benchmark           - Show timing metrics
    /profiles            - List config profiles
    /profile <name>      - Switch profile
    /syntax              - Toggle syntax highlighting
    /help                - Show help
    /quit                - Exit

    @file or @dir/       - Include files in question
    Tab                  - Complete @path");
    reveal_strlit("/models              - List models");
    reveal_strlit("    /switch <model>      - Change chat model");
    reveal_strlit("    /switch-embed <model> - Change embed model");
    reveal_strlit("    /index <path>        - Index directory (full)");
    reveal_strlit("    /incremental-index <path> - Smart reindex (only changed files)");
    reveal_strlit("    /reindex             - Reindex current project");
    reveal_strlit("    /save                - Save index");
    reveal_strlit("    /export [file]       - Export last retrieved context");
    reveal_strlit("    /import <file>       - Load questions from file");
    reveal_strlit("    /clear               - Clear chat");
    reveal_strlit("    /clear-history       - Clear conversation context");
    reveal_strlit("    /benchmark           - Show timing metrics");
    reveal_strlit("    /profiles            - List config profiles");
    reveal_strlit("    /profile <name>      - Switch profile");
    reveal_strlit("    /syntax              - Toggle syntax highlighting");
    reveal_strlit("    /help                - Show help");
    reveal_strlit("    /quit                - Exit");
    reveal_strlit("");
    reveal_strlit("    @file or @dir/       - Include files in question");
    reveal_strlit("    Tab                  - Complete @path");
    let ls = help_lines();
    assert(help_text_spec()@ =~= join_lines(ls)) by {
        reveal_with_fuel(join_lines, 21);
    }
    assert forall|k: int| 0 <= k < ls.len() implies no_newline(#[trigger] ls[k]) by {}
    assert forall|k: int| 0 <= k < ls.len() - 1 implies (#[trigger] ls[k]).len() == 0 || ls[k].last()
        != '\r' by {}
    lemma_lines_of_join(ls);
}

/// A line of spaces, a slash, a command word, a space and more: trimmed it
/// starts with the slash, and its first word typed with an argument is
/// understood when the command word names a command.
proof fn lemma_slash_line(pad: Seq<char>, cmd: Seq<char>, rest: Seq<char>)
    requires
        forall|i: int| 0 <= i < pad.len() ==> is_ws(#[trigger] pad[i]),
        cmd.len() > 0,
        cmd[0] != '/',
        forall|i: int| 0 <= i < cmd.len() ==> !is_ws(#[trigger] cmd[i]),
        rest.len() > 0,
        !is_ws(rest[rest.len() - 1]),
        command_of_words(seq![cmd, "x"@]) is Some,
    ensures
        ({
            let t = trim(pad + seq!['/'] + cmd + seq![' '] + rest);
            &&& starts_with_char(t, '/')
            &&& words(t).len() > 0
            &&& parse_spec(words(t)[0] + " x"@) is Some
        }),
{
    reveal_strlit("x");
    reveal_strlit(" x");
    let w = seq!['/'] + cmd;
    let body = w + seq![' '] + rest;
    assert(pad + seq!['/'] + cmd + seq![' '] + rest =~= pad + body);
    assert(!is_ws(body[0]));
    assert(body[body.len() - 1] == rest[rest.len() - 1]);
    lemma_trim_padded(pad, body);
    assert forall|i: int| 0 <= i < w.len() implies !is_ws(#[trigger] w[i]) by {
        if i > 0 {
            assert(w[i] == cmd[i - 1]);
        }
    }
    lemma_first_word(w, rest);
    assert forall|i: int| 0 <= i < "x"@.len() implies !is_ws(#[trigger] "x"@[i]) by {}
    lemma_parse_word_with_argument(cmd, "x"@);
    assert(w + " x"@ =~= seq!['/'] + cmd + seq![' '] + "x"@);
}

/// Every line of the help text that, trimmed, starts with `/` names a
/// command: its first word, typed with an argument, is understood.
#[verifier::spinoff_prover]
#[verifier::rlimit(80)]
pub proof fn law_help_lines_parse(k: int)
    requires
        0 <= k < lines(help_text_spec()@).len(),
        starts_with_char(trim(lines(help_text_spec()@)[k]), '/'),
    ensures
        words(trim(lines(help_text_spec()@)[k])).len() > 0,
        parse_spec(words(trim(lines(help_text_spec()@)[k]))[0] + " x"@) is Some,
{
    lemma_help_text_lines();
    let ls = help_lines();
    if k == 0 {
        reveal_strlit("/models              - List models");
        reveal_strlit("models");
        reveal_strlit("             - List models");
        assert(ls[0] =~= Seq::<char>::empty() + seq!['/'] + "models"@ + seq![' '] + "             - List models"@);
        lemma_slash_line(Seq::<char>::empty(), "models"@, "             - List models"@);
    }
    if k == 1 {
        reveal_strlit("    /switch <model>      - Change chat model");
        reveal_strlit("switch");
        reveal_strlit("<model>      - Change chat model");
        assert(ls[1] =~= seq![' ', ' ', ' ', ' '] + seq!['/'] + "switch"@ + seq![' '] + "<model>      - Change chat model"@);
        lemma_slash_line(seq![' ', ' ', ' ', ' '], "switch"@, "<model>      - Change chat model"@);
    }
    if k == 2 {
        reveal_strlit("    /switch-embed <model> - Change embed model");
        reveal_strlit("switch-embed");
        reveal_strlit("<model> - Change embed model");
        assert(ls[2] =~= seq![' ', ' ', ' ', ' '] + seq!['/'] + "switch-embed"@ + seq![' '] + "<model> - Change embed model"@);
        lemma_slash_line(seq![' ', ' ', ' ', ' '], "switch-embed"@, "<model> - Change embed model"@);
    }
    if k == 3 {
        reveal_strlit("    /index <path>        - Index directory (full)");
        reveal_strlit("index");
        reveal_strlit("<path>        - Index directory (full)");
        assert(ls[3] =~= seq![' ', ' ', ' ', ' '] + seq!['/'] + "index"@ + seq![' '] + "<path>        - Index directory (full)"@);
        lemma_slash_line(seq![' ', ' ', ' ', ' '], "index"@, "<path>        - Index directory (full)"@);
    }
    if k == 4 {
        reveal_strlit("    /incremental-index <path> - Smart reindex (only changed files)");
        reveal_strlit("incremental-index");
        reveal_strlit("<path> - Smart reindex (only changed files)");
        assert(ls[4] =~= seq![' ', ' ', ' ', ' '] + seq!['/'] + "incremental-index"@ + seq![' '] + "<path> - Smart reindex (only changed files)"@);
        lemma_slash_line(seq![' ', ' ', ' ', ' '], "incremental-index"@, "<path> - Smart reindex (only changed files)"@);
    }
    if k == 5 {
        reveal_strlit("    /reindex             - Reindex current project");
        reveal_strlit("reindex");
        reveal_strlit("            - Reindex current project");
        assert(ls[5] =~= seq![' ', ' ', ' ', ' '] + seq!['/'] + "reindex"@ + seq![' '] + "            - Reindex current project"@);
        lemma_slash_line(seq![' ', ' ', ' ', ' '], "reindex"@, "            - Reindex current project"@);
    }
    if k == 6 {
        reveal_strlit("    /save                - Save index");
        reveal_strlit("save");
        reveal_strlit("               - Save index");
        assert(ls[6] =~= seq![' ', ' ', ' ', ' '] + seq!['/'] + "save"@ + seq![' '] + "               - Save index"@);
        lemma_slash_line(seq![' ', ' ', ' ', ' '], "save"@, "               - Save index"@);
    }
    if k == 7 {
        reveal_strlit("    /export [file]       - Export last retrieved context");
        reveal_strlit("export");
        reveal_strlit("[file]       - Export last retrieved context");
        assert(ls[7] =~= seq![' ', ' ', ' ', ' '] + seq!['/'] + "export"@ + seq![' '] + "[file]       - Export last retrieved context"@);
        lemma_slash_line(seq![' ', ' ', ' ', ' '], "export"@, "[file]       - Export last retrieved context"@);
    }
    if k == 8 {
        reveal_strlit("    /import <file>       - Load questions from file");
        reveal_strlit("import");
        reveal_strlit("<file>       - Load questions from file");
        assert(ls[8] =~= seq![' ', ' ', ' ', ' '] + seq!['/'] + "import"@ + seq![' '] + "<file>       - Load questions from file"@);
        lemma_slash_line(seq![' ', ' ', ' ', ' '], "import"@, "<file>       - Load questions from file"@);
    }
    if k == 9 {
        reveal_strlit("    /clear               - Clear chat");
        reveal_strlit("clear");
        reveal_strlit("              - Clear chat");
        assert(ls[9] =~= seq![' ', ' ', ' ', ' '] + seq!['/'] + "clear"@ + seq![' '] + "              - Clear chat"@);
        lemma_slash_line(seq![' ', ' ', ' ', ' '], "clear"@, "              - Clear chat"@);
    }
    if k == 10 {
        reveal_strlit("    /clear-history       - Clear conversation context");
        reveal_strlit("clear-history");
        reveal_strlit("      - Clear conversation context");
        assert(ls[10] =~= seq![' ', ' ', ' ', ' '] + seq!['/'] + "clear-history"@ + seq![' '] + "      - Clear conversation context"@);
        lemma_slash_line(seq![' ', ' ', ' ', ' '], "clear-history"@, "      - Clear conversation context"@);
    }
    if k == 11 {
        reveal_strlit("    /benchmark           - Show timing metrics");
        reveal_strlit("benchmark");
        reveal_strlit("          - Show timing metrics");
        assert(ls[11] =~= seq![' ', ' ', ' ', ' '] + seq!['/'] + "benchmark"@ + seq![' '] + "          - Show timing metrics"@);
        lemma_slash_line(seq![' ', ' ', ' ', ' '], "benchmark"@, "          - Show timing metrics"@);
    }
    if k == 12 {
        reveal_strlit("    /profiles            - List config profiles");
        reveal_strlit("profiles");
        reveal_strlit("           - List config profiles");
        assert(ls[12] =~= seq![' ', ' ', ' ', ' '] + seq!['/'] + "profiles"@ + seq![' '] + "           - List config profiles"@);
        lemma_slash_line(seq![' ', ' ', ' ', ' '], "profiles"@, "           - List config profiles"@);
    }
    if k == 13 {
        reveal_strlit("    /profile <name>      - Switch profile");
        reveal_strlit("profile");
        reveal_strlit("<name>      - Switch profile");
        assert(ls[13] =~= seq![' ', ' ', ' ', ' '] + seq!['/'] + "profile"@ + seq![' '] + "<name>      - Switch profile"@);
        lemma_slash_line(seq![' ', ' ', ' ', ' '], "profile"@, "<name>      - Switch profile"@);
    }
    if k == 14 {
        reveal_strlit("    /syntax              - Toggle syntax highlighting");
        reveal_strlit("syntax");
        reveal_strlit("             - Toggle syntax highlighting");
        assert(ls[14] =~= seq![' ', ' ', ' ', ' '] + seq!['/'] + "syntax"@ + seq![' '] + "             - Toggle syntax highlighting"@);
        lemma_slash_line(seq![' ', ' ', ' ', ' '], "syntax"@, "             - Toggle syntax highlighting"@);
    }
    if k == 15 {
        reveal_strlit("    /help                - Show help");
        reveal_strlit("help");
        reveal_strlit("               - Show help");
        assert(ls[15] =~= seq![' ', ' ', ' ', ' '] + seq!['/'] + "help"@ + seq![' '] + "               - Show help"@);
        lemma_slash_line(seq![' ', ' ', ' ', ' '], "help"@, "               - Show help"@);
    }
    if k == 16 {
        reveal_strlit("    /quit                - Exit");
        reveal_strlit("quit");
        reveal_strlit("               - Exit");
        assert(ls[16] =~= seq![' ', ' ', ' ', ' '] + seq!['/'] + "quit"@ + seq![' '] + "               - Exit"@);
        lemma_slash_line(seq![' ', ' ', ' ', ' '], "quit"@, "               - Exit"@);
    }
    if k == 17 {
        reveal_strlit("");
        assert(trim(ls[17]).len() == 0);
    }
    if k == 18 {
        reveal_strlit("    @file or @dir/       - Include files in question");
        reveal_strlit("@file or @dir/       - Include files in question");
        assert(ls[18] =~= seq![' ', ' ', ' ', ' '] + "@file or @dir/       - Include files in question"@);
        lemma_trim_padded(seq![' ', ' ', ' ', ' '], "@file or @dir/       - Include files in question"@);
    }
    if k == 19 {
        reveal_strlit("    Tab                  - Complete @path");
        reveal_strlit("Tab                  - Complete @path");
        assert(ls[19] =~= seq![' ', ' ', ' ', ' '] + "Tab                  - Complete @path"@);
        lemma_trim_padded(seq![' ', ' ', ' ', ' '], "Tab                  - Complete @path"@);
    }
}

/// Every command that the help text lists is named there as a slash, the
/// command and a space, and typed with an argument it is understood.
#[verifier::spinoff_prover]
#[verifier::rlimit(60)]
pub proof fn law_help_commands_parse(w: Seq<char>)
    requires
        help_command_words().contains(w),
    ensures
        contains_sub(help_text_spec()@, seq!['/'] + w + seq![' ']),
        parse_spec(seq!['/'] + w + seq![' '] + "x"@) is Some,
{
    reveal_strlit("/models              - List models
    /switch <model>      - Change chat model
    /switch-embed <model> - Change embed model
    /index <path>        - Index directory (full)
    /incremental-index <path> - Smart reindex (only changed files)
    /reindex             - Reindex current project
    /save                - Save index
    /export [file]       - Export last retrieved context
    /import <file>       - Load questions from file
    /clear               - Clear chat
    /clear-history       - Clear conversation context
    /benchmark           - Show timing metrics
    /profiles            - List config profiles
    /profile <name>      - Switch profile
    /syntax              - Toggle syntax highlighting
    /help                - Show help
    /quit                - Exit

    @file or @dir/       - Include files in question
    Tab                  - Complete @path");
    reveal_strlit("x");
    let h = help_text_spec()@;
    let ws = help_command_words();
    let k = choose|k: int| 0 <= k < ws.len() && ws[k] == w;
    if w == "models"@ {
        reveal_strlit("models");
        let p = seq!['/'] + w + seq![' '];
        assert(h.subrange(0int, 0int + p.len()) =~= p);
        assert(command_of_words(seq![w, "x"@]) is Some);
        lemma_parse_word_with_argument(w, "x"@);
    }
    if w == "switch"@ {
        reveal_strlit("switch");
        let p = seq!['/'] + w + seq![' '];
        assert(h.subrange(39int, 39int + p.len()) =~= p);
        assert(command_of_words(seq![w, "x"@]) is Some);
        lemma_parse_word_with_argument(w, "x"@);
    }
    if w == "switch-embed"@ {
        reveal_strlit("switch-embed");
        let p = seq!['/'] + w + seq![' '];
        assert(h.subrange(84int, 84int + p.len()) =~= p);
        assert(command_of_words(seq![w, "x"@]) is Some);
        lemma_parse_word_with_argument(w, "x"@);
    }
    if w == "index"@ {
        reveal_strlit("index");
        let p = seq!['/'] + w + seq![' '];
        assert(h.subrange(131int, 131int + p.len()) =~= p);
        assert(command_of_words(seq![w, "x"@]) is Some);
        lemma_parse_word_with_argument(w, "x"@);
    }
    if w == "incremental-index"@ {
        reveal_strlit("incremental-index");
        let p = seq!['/'] + w + seq![' '];
        assert(h.subrange(181int, 181int + p.len()) =~= p);
        assert(command_of_words(seq![w, "x"@]) is Some);
        lemma_parse_word_with_argument(w, "x"@);
    }
    if w == "reindex"@ {
        reveal_strlit("reindex");
        let p = seq!['/'] + w + seq![' '];
        assert(h.subrange(248int, 248int + p.len()) =~= p);
        assert(command_of_words(seq![w, "x"@]) is Some);
        lemma_parse_word_with_argument(w, "x"@);
    }
    if w == "save"@ {
        reveal_strlit("save");
        let p = seq!['/'] + w + seq![' '];
        assert(h.subrange(299int, 299int + p.len()) =~= p);
        assert(command_of_words(seq![w, "x"@]) is Some);
        lemma_parse_word_with_argument(w, "x"@);
    }
    if w == "export"@ {
        reveal_strlit("export");
        let p = seq!['/'] + w + seq![' '];
        assert(h.subrange(337int, 337int + p.len()) =~= p);
        assert(command_of_words(seq![w, "x"@]) is Some);
        lemma_parse_word_with_argument(w, "x"@);
    }
    if w == "import"@ {
        reveal_strlit("import");
        let p = seq!['/'] + w + seq![' '];
        assert(h.subrange(394int, 394int + p.len()) =~= p);
        assert(command_of_words(seq![w, "x"@]) is Some);
        lemma_parse_word_with_argument(w, "x"@);
    }
    if w == "clear"@ {
        reveal_strlit("clear");
        let p = seq!['/'] + w + seq![' '];
        assert(h.subrange(446int, 446int + p.len()) =~= p);
        assert(command_of_words(seq![w, "x"@]) is Some);
        lemma_parse_word_with_argument(w, "x"@);
    }
    if w == "clear-history"@ {
        reveal_strlit("clear-history");
        let p = seq!['/'] + w + seq![' '];
        assert(h.subrange(484int, 484int + p.len()) =~= p);
        assert(command_of_words(seq![w, "x"@]) is Some);
        lemma_parse_word_with_argument(w, "x"@);
    }
    if w == "benchmark"@ {
        reveal_strlit("benchmark");
        let p = seq!['/'] + w + seq![' '];
        assert(h.subrange(538int, 538int + p.len()) =~= p);
        assert(command_of_words(seq![w, "x"@]) is Some);
        lemma_parse_word_with_argument(w, "x"@);
    }
    if w == "profiles"@ {
        reveal_strlit("profiles");
        let p = seq!['/'] + w + seq![' '];
        assert(h.subrange(585int, 585int + p.len()) =~= p);
        assert(command_of_words(seq![w, "x"@]) is Some);
        lemma_parse_word_with_argument(w, "x"@);
    }
    if w == "profile"@ {
        reveal_strlit("profile");
        let p = seq!['/'] + w + seq![' '];
        assert(h.subrange(633int, 633int + p.len()) =~= p);
        assert(command_of_words(seq![w, "x"@]) is Some);
        lemma_parse_word_with_argument(w, "x"@);
    }
    if w == "syntax"@ {
        reveal_strlit("syntax");
        let p = seq!['/'] + w + seq![' '];
        assert(h.subrange(675int, 675int + p.len()) =~= p);
        assert(command_of_words(seq![w, "x"@]) is Some);
        lemma_parse_word_with_argument(w, "x"@);
    }
    if w == "help"@ {
        reveal_strlit("help");
        let p = seq!['/'] + w + seq![' '];
        assert(h.subrange(729int, 729int + p.len()) =~= p);
        assert(command_of_words(seq![w, "x"@]) is Some);
        lemma_parse_word_with_argument(w, "x"@);
    }
    if w == "quit"@ {
        reveal_strlit("quit");
        let p = seq!['/'] + w + seq![' '];
        assert(h.subrange(766int, 766int + p.len()) =~= p);
        assert(command_of_words(seq![w, "x"@]) is Some);
        lemma_parse_word_with_argument(w, "x"@);
    }
}

/// Number of embedding steps among `steps`.
pub open spec fn embed_count(steps: Seq<IndexStepView>) -> nat
    decreases steps.len(),
{
    if steps.len() == 0 {
        0
    } else {
        embed_count(steps.drop_last()) + if steps.last() is Embed {
            1nat
        } else {
            0nat
        }
    }
}

proof fn lemma_embed_count_concat(a: Seq<IndexStepView>, b: Seq<IndexStepView>)
    ensures
        embed_count(a + b) == embed_count(a) + embed_count(b),
    decreases b.len(),
{
    if b.len() == 0 {
        assert(a + b =~= a);
    } else {
        lemma_embed_count_concat(a, b.drop_last());
        assert((a + b).drop_last() =~= a + b.drop_last());
        assert((a + b).last() == b.last());
    }
}

proof fn lemma_embed_count_embeds(name: Seq<char>, cs: Seq<Seq<char>>)
    ensures
        embed_count(cs.map_values(|c: Seq<char>| IndexStepView::Embed { file: name, chunk: c }))
            == cs.len(),
    decreases cs.len(),
{
    let f = |c: Seq<char>| IndexStepView::Embed { file: name, chunk: c };
    if cs.len() > 0 {
        lemma_embed_count_embeds(name, cs.drop_last());
        assert(cs.map_values(f).drop_last() =~= cs.drop_last().map_values(f));
    } else {
        assert(cs.map_values(f) =~= Seq::<IndexStepView>::empty());
    }
}

proof fn lemma_steps_from_end(files: Seq<(Seq<char>, Seq<char>)>, i: nat, chunks: nat)
    ensures
        steps_from(files, i, chunks).len() > 0,
        steps_from(files, i, chunks).last() == (IndexStepView::Progress {
            done: files.len(),
            total: files.len(),
            chunks: chunks + embed_count(steps_from(files, i, chunks)),
            file: "done"@,
        }),
    decreases files.len() - i,
{
    let s = steps_from(files, i, chunks);
    assert(embed_count(Seq::<IndexStepView>::empty()) == 0);
    if i >= files.len() {
        assert(s.drop_last() =~= Seq::<IndexStepView>::empty());
        assert(embed_count(s) == 0);
    } else {
        let name = files[i as int].0;
        let cs = file_chunks(files[i as int].1);
        let head = seq![IndexStepView::Progress { done: i, total: files.len(), chunks, file: name }];
        let es = cs.map_values(|c: Seq<char>| IndexStepView::Embed { file: name, chunk: c });
        let rest = steps_from(files, i + 1, chunks + cs.len());
        lemma_steps_from_end(files, i + 1, chunks + cs.len());
        assert(s == head + es + rest);
        lemma_embed_count_concat(head + es, rest);
        lemma_embed_count_concat(head, es);
        lemma_embed_count_embeds(name, cs);
        assert(head.drop_last() =~= Seq::<IndexStepView>::empty());
        assert(embed_count(head) == 0);
        assert((head + es + rest).last() == rest.last());
    }
}

/// Indexing ends with one progress report, after all files, whose chunk
/// count is the number of chunks that were embedded.
pub proof fn law_indexing_reports_every_chunk(files: Seq<(Seq<char>, Seq<char>)>)
    ensures
        index_steps_spec(files).len() > 0,
        index_steps_spec(files).last() == (IndexStepView::Progress {
            done: files.len(),
            total: files.len(),
            chunks: embed_count(index_steps_spec(files)),
            file: "done"@,
        }),
{
    lemma_steps_from_end(files, 0, 0);
}

/// The text of spans put together.
pub open spec fn spans_text(spans: Seq<(Seq<char>, SpanStyle)>) -> Seq<char> {
    spans.map_values(|p: (Seq<char>, SpanStyle)| p.0).flatten()
}

proof fn lemma_spans_text_concat(a: Seq<(Seq<char>, SpanStyle)>, b: Seq<(Seq<char>, SpanStyle)>)
    ensures
        spans_text(a + b) == spans_text(a) + spans_text(b),
{
    let f = |p: (Seq<char>, SpanStyle)| p.0;
    assert((a + b).map_values(f) =~= a.map_values(f) + b.map_values(f));
    vstd::seq_lib::lemma_flatten_concat(a.map_values(f), b.map_values(f));
}

proof fn lemma_spans_text_one(t: Seq<char>, st: SpanStyle)
    ensures
        spans_text(seq![(t, st)]) == t,
{
    let f = |p: (Seq<char>, SpanStyle)| p.0;
    assert(seq![(t, st)].map_values(f) =~= seq![t]);
    seq![t].lemma_flatten_one_element();
}

proof fn lemma_input_scan_text(ch: Seq<char>, i: int, cur: Seq<char>, in_ref: bool, cursor: int)
    requires
        0 <= i <= ch.len(),
        !in_ref ==> cur.len() == 0,
    ensures
        spans_text(input_scan(ch, i, cur, in_ref, cursor, None)) == cur + ch.skip(i),
    decreases ch.len() - i,
{
    let r: Option<(int, int)> = None;
    if i >= ch.len() {
        if cur.len() > 0 {
            lemma_spans_text_one(cur, SpanStyle::Reference);
        } else {
            assert(spans_text(seq![]) =~= Seq::<char>::empty());
        }
        assert(ch.skip(i) =~= Seq::<char>::empty());
        assert(cur + ch.skip(i) =~= cur);
    } else {
        let c = ch[i];
        assert(ch.skip(i) =~= seq![c] + ch.skip(i + 1));
        if c == '@' {
            lemma_input_scan_text(ch, i + 1, seq![c], true, cursor);
            lemma_spans_text_concat(pending(cur), input_scan(ch, i + 1, seq![c], true, cursor, r));
            if cur.len() > 0 {
                lemma_spans_text_one(cur, SpanStyle::Plain);
            } else {
                assert(spans_text(seq![]) =~= Seq::<char>::empty());
            }
            assert(cur + (seq![c] + ch.skip(i + 1)) =~= cur + seq![c] + ch.skip(i + 1));
        } else if in_ref && is_ws(c) {
            let one = (seq![c], if i == cursor {
                SpanStyle::Cursor
            } else {
                SpanStyle::Plain
            });
            lemma_input_scan_text(ch, i + 1, seq![], false, cursor);
            if cur.len() > 0 {
                let h = seq![(cur, SpanStyle::Reference), one];
                lemma_spans_text_concat(h, input_scan(ch, i + 1, seq![], false, cursor, r));
                assert(h =~= seq![(cur, SpanStyle::Reference)] + seq![one]);
                lemma_spans_text_concat(seq![(cur, SpanStyle::Reference)], seq![one]);
                lemma_spans_text_one(cur, SpanStyle::Reference);
                lemma_spans_text_one(seq![c], one.1);
            } else {
                lemma_spans_text_concat(seq![one], input_scan(ch, i + 1, seq![], false, cursor, r));
                lemma_spans_text_one(seq![c], one.1);
            }
            assert(seq![c] + ch.skip(i + 1) =~= ch.skip(i));
            assert(cur + (seq![c] + (Seq::<char>::empty() + ch.skip(i + 1))) =~= cur + ch.skip(i));
        } else if in_ref {
            lemma_input_scan_text(ch, i + 1, cur.push(c), true, cursor);
            assert(cur.push(c) + ch.skip(i + 1) =~= cur + ch.skip(i));
        } else {
            let one = (seq![c], if i == cursor {
                SpanStyle::Cursor
            } else {
                SpanStyle::Plain
            });
            lemma_input_scan_text(ch, i + 1, cur, false, cursor);
            lemma_spans_text_concat(seq![one], input_scan(ch, i + 1, cur, false, cursor, r));
            lemma_spans_text_one(seq![c], one.1);
            assert(cur + ch.skip(i) =~= seq![c] + (cur + ch.skip(i + 1)));
        }
    }
}

/// Without a mouse selection, the input line shows the input's characters
/// in order, followed by a one-space cursor block when the cursor is at the
/// end of the input.
pub proof fn law_input_line_shows_the_input(input: Seq<char>, cursor: int)
    ensures
        spans_text(input_line_spans(input, cursor, None)) == input + if cursor
            == utf8_len(input) {
            " "@
        } else {
            seq![]
        },
{
    lemma_input_scan_text(input, 0, seq![], false, cursor);
    assert(input.skip(0) =~= input);
    let scanned = input_scan(input, 0, seq![], false, cursor, None);
    if cursor == utf8_len(input) {
        lemma_spans_text_concat(scanned, seq![(" "@, SpanStyle::Cursor)]);
        lemma_spans_text_one(" "@, SpanStyle::Cursor);
    } else {
        lemma_spans_text_concat(scanned, seq![]);
        assert(spans_text(seq![]) =~= Seq::<char>::empty());
        assert(input + Seq::<char>::empty() =~= input);
    }
    assert(Seq::<char>::empty() + input =~= input);
}

/// While an answer is awaited, key presses and mouse events change nothing
/// and ask for no outside work.
pub proof fn law_busy_ignores_input(
    pre: App,
    post: App,
    event: Event,
    index_file: Seq<char>,
    effects: Seq<Effect>,
)
    requires
        busy(pre),
        event is Key || event is Mouse,
        step_post(pre, post, event, index_file, effects),
    ensures
        post == pre,
        effects.len() == 0,
{
}

/// While an answer is awaited, each tick or resize moves the "Thinking"
/// dots on by one, from 0 to 3 and back to 0.
pub proof fn law_thinking_dots_cycle(
    pre: App,
    post: App,
    event: Event,
    index_file: Seq<char>,
    effects: Seq<Effect>,
)
    requires
        busy(pre),
        event is Tick || event is Resize,
        step_post(pre, post, event, index_file, effects),
    ensures
        post.thinking_dots < 4,
        post.thinking_dots == (pre.thinking_dots + 1) % 4,
        post == (App { thinking_dots: post.thinking_dots, ..pre }),
{
}

} // verus!
