//! A text laid out around its fenced code blocks: plain lines, fence lines
//! and the places where each block's highlighted code goes. The walk over
//! the text moves by byte offsets from fence to fence; where an offset falls
//! outside the text or inside a character, the text cannot be laid out.
use crate::app::state::sub_prefix_len;
use crate::text::{
    byte_len_of, char_index, chars_of, find_char_index, is_boundary, lemma_utf8_len_take_mono,
    lines, push_str, split_lines, string_of, string_of_range, to_string, utf8_len,
};
use crate::ui::render::{find_closing_marker, first_marker, lemma_first_marker};
use crate::ui::syntax::{extract_code_blocks, scan_blocks};
use vstd::prelude::*;

verus! {

broadcast use vstd::seq_lib::group_seq_properties;

/// A line of the laid-out text.
#[derive(Debug, Clone)]
pub enum TextPiece {
    /// A plain line.
    Line(String),
    /// A fence line, three backticks.
    Fence,
    /// The highlighted lines of the code block with this index.
    Code(usize),
}

/// The value of a [`TextPiece`].
pub enum PieceSpec {
    Line(Seq<char>),
    Fence,
    Code(nat),
}

pub open spec fn piece_view(p: TextPiece) -> PieceSpec {
    match p {
        TextPiece::Line(s) => PieceSpec::Line(s@),
        TextPiece::Fence => PieceSpec::Fence,
        TextPiece::Code(k) => PieceSpec::Code(k as nat),
    }
}

pub open spec fn pieces_view(v: Seq<TextPiece>) -> Seq<PieceSpec> {
    v.map_values(|p: TextPiece| piece_view(p))
}

/// Plain lines.
pub open spec fn line_pieces(ls: Seq<Seq<char>>) -> Seq<PieceSpec> {
    ls.map_values(|l: Seq<char>| PieceSpec::Line(l))
}

/// The byte offset of character `ci` of `c`.
pub open spec fn byte_of(c: Seq<char>, ci: int) -> int {
    utf8_len(c.take(ci)) as int
}

/// Byte offset `b` starts a character of `c` or is its end.
pub open spec fn on_boundary(c: Seq<char>, b: int) -> bool {
    0 <= b && is_boundary(c, b)
}

/// The byte offset of the first `pat` at or after byte offset `b`, as
/// `str::find` on the text from `b` reports it.
pub open spec fn find_from(c: Seq<char>, b: int, pat: Seq<char>) -> Option<int> {
    match first_marker(c, char_index(c, b), pat) {
        Some(j) => Some(byte_of(c, j)),
        None => None,
    }
}

pub open spec fn fence_mark() -> Seq<char> {
    seq!['`', '`', '`']
}

pub open spec fn line_fence_mark() -> Seq<char> {
    seq!['\n', '`', '`', '`']
}

/// Where the walk goes on after the block whose opening fence is at byte
/// `gs` and whose language is `lang`: past the first `"\n```"` after the
/// first `"```lang"`, or, when there is no such text, past the first
/// `"\n```"` after the fence (four bytes past the fence when there is
/// none). Offsets are in bytes and may land outside the text.
pub open spec fn next_position(c: Seq<char>, gs: int, lang: Seq<char>) -> int {
    match find_from(c, gs, fence_mark() + lang) {
        Some(b) => b + match find_from(c, b, line_fence_mark()) {
            Some(e) => e - b,
            None => utf8_len(c) as int,
        } + 4,
        None => gs + match find_from(c, gs, line_fence_mark()) {
            Some(e) => e - gs,
            None => 0,
        } + 4,
    }
}

/// `Some(p + rest)` when the rest can be laid out.
pub open spec fn then(p: Seq<PieceSpec>, rest: Option<Seq<PieceSpec>>) -> Option<Seq<PieceSpec>> {
    match rest {
        Some(r) => Some(p + r),
        None => None,
    }
}

/// The walk from block `k` on, at byte `pos`: the lines before the next
/// fence, the fence, the block, a closing fence, and on from
/// [`next_position`]; a block with no fence left adds nothing. After the
/// last block, the lines of the rest of the text. `None` where `pos` is
/// not a character boundary of the text when the text is taken from it.
pub open spec fn walk(c: Seq<char>, langs: Seq<Seq<char>>, k: int, pos: int) -> Option<
    Seq<PieceSpec>,
>
    decreases langs.len() - k,
{
    if k < 0 || k >= langs.len() {
        if pos < utf8_len(c) {
            if on_boundary(c, pos) {
                Some(line_pieces(lines(c.skip(char_index(c, pos)))))
            } else {
                None
            }
        } else {
            Some(seq![])
        }
    } else if !on_boundary(c, pos) {
        None
    } else {
        match find_from(c, pos, fence_mark()) {
            None => walk(c, langs, k + 1, pos),
            Some(gs) => {
                let before = line_pieces(lines(c.subrange(char_index(c, pos), char_index(c, gs))));
                let head = before + seq![PieceSpec::Fence, PieceSpec::Code(k as nat), PieceSpec::Fence];
                then(head, walk(c, langs, k + 1, next_position(c, gs, langs[k])))
            },
        }
    }
}

/// The languages of the closed code blocks of `text`, in order.
pub open spec fn block_languages(text: Seq<char>) -> Seq<Seq<char>> {
    scan_blocks(lines(text)).blocks.map_values(|b: (Seq<char>, Seq<char>)| b.0)
}

/// The layout of `text`: its lines when it has no closed code block, else
/// the walk over its blocks from the start.
pub open spec fn text_layout(text: Seq<char>) -> Option<Seq<PieceSpec>> {
    let langs = block_languages(text);
    if langs.len() == 0 {
        Some(line_pieces(lines(text)))
    } else {
        walk(text, langs, 0, 0)
    }
}

fn push_piece(out: &mut Vec<TextPiece>, p: TextPiece)
    ensures
        pieces_view(final(out)@) == pieces_view(old(out)@).push(piece_view(p)),
{
    let ghost pv = piece_view(p);
    out.push(p);
    assert(pieces_view(out@) =~= pieces_view(old(out)@).push(pv));
}

/// Appends the lines of `s` as plain lines.
fn push_lines(out: &mut Vec<TextPiece>, s: &str)
    ensures
        pieces_view(final(out)@) == pieces_view(old(out)@) + line_pieces(lines(s@)),
{
    let ls = split_lines(s);
    let ghost all = lines(s@);
    let ghost o0 = pieces_view(out@);
    let mut i: usize = 0;
    assert(line_pieces(all.take(0)) =~= Seq::<PieceSpec>::empty());
    while i < ls.len()
        invariant
            i <= ls@.len(),
            all == lines(s@),
            ls@.len() == all.len(),
            forall|q: int| 0 <= q < ls@.len() ==> (#[trigger] ls@[q])@ == all[q],
            pieces_view(out@) == o0 + line_pieces(all.take(i as int)),
        decreases ls@.len() - i,
    {
        push_piece(out, TextPiece::Line(string_of(&ls[i])));
        assert(line_pieces(all.take(i + 1)) =~= line_pieces(all.take(i as int)).push(
            PieceSpec::Line(all[i as int]),
        ));
        i += 1;
    }
    assert(all.take(ls@.len() as int) =~= all);
}

/// The byte offset of the first `pat` in `c` at or after character `ci`
/// (which starts at byte `b`), with the character index where it stands.
fn find_at(c: &Vec<char>, ci: usize, b: usize, pat: &str) -> (r: Option<(usize, usize)>)
    requires
        ci <= c@.len(),
        utf8_len(c@.take(ci as int)) == b,
        utf8_len(c@) <= usize::MAX,
    ensures
        match r {
            Some((j, bj)) => find_from(c@, b as int, pat@) == Some(bj as int) && j <= c@.len()
                && bj == byte_of(c@, j as int) && ci <= j && b <= bj && bj <= utf8_len(c@),
            None => find_from(c@, b as int, pat@) is None,
        },
{
    proof {
        crate::text::lemma_char_index_unique(c@, ci as int, b as int);
        lemma_first_marker(c@, ci as int, pat@);
    }
    match find_closing_marker(c.as_slice(), ci, pat) {
        Some(j) => {
            proof {
                lemma_utf8_len_take_mono(c@, j as int, c@.len() as int);
                lemma_utf8_len_take_mono(c@, ci as int, j as int);
                assert(c@.take(c@.len() as int) =~= c@);
            }
            let bj = sub_prefix_len(c, j);
            Some((j, bj))
        },
        None => None,
    }
}

/// Where the walk goes on after the block whose fence starts at character
/// `gj` (byte `gs`) and whose language is `lang`.
fn position_after_block(c: &Vec<char>, gj: usize, gs: usize, lang: &str, nbytes: usize) -> (next:
    usize)
    requires
        gj <= c@.len(),
        gs == byte_of(c@, gj as int),
        nbytes == utf8_len(c@),
        nbytes <= usize::MAX / 4,
        gs <= nbytes,
        "\n```"@ == line_fence_mark(),
    ensures
        next == next_position(c@, gs as int, lang@),
        next <= 2 * nbytes + 4,
{
    proof {
        reveal_strlit("```");
    }
    let mut pat = to_string("```");
    push_str(&mut pat, lang);
    assert(pat@ =~= fence_mark() + lang@);
    match find_at(c, gj, gs, pat.as_str()) {
        Some((bj, bce)) => {
            let cce: usize = match find_at(c, bj, bce, "\n```") {
                Some((_, e)) => e - bce,
                None => nbytes,
            };
            bce + cce + 4
        },
        None => {
            let em: usize = match find_at(c, gj, gs, "\n```") {
                Some((_, e)) => e - gs,
                None => 0,
            };
            gs + em + 4
        },
    }
}

/// One step of the walk, unfolded.
proof fn lemma_walk_block(c: Seq<char>, langs: Seq<Seq<char>>, k: int, pos: int, gs: int)
    requires
        0 <= k < langs.len(),
        on_boundary(c, pos),
        find_from(c, pos, fence_mark()) == Some(gs),
    ensures
        walk(c, langs, k, pos) == then(
            line_pieces(lines(c.subrange(char_index(c, pos), char_index(c, gs)))) + seq![
                PieceSpec::Fence,
                PieceSpec::Code(k as nat),
                PieceSpec::Fence,
            ],
            walk(c, langs, k + 1, next_position(c, gs, langs[k])),
        ),
{
}

/// Extending the laid-out prefix by `head` keeps the whole layout.
proof fn lemma_then_assoc(o: Seq<PieceSpec>, head: Seq<PieceSpec>, rest: Option<Seq<PieceSpec>>)
    ensures
        then(o, then(head, rest)) == then(o + head, rest),
{
    match rest {
        Some(w) => {
            assert(o + (head + w) =~= (o + head) + w);
        },
        None => {},
    }
}

/// Lays out `text` around its fenced code blocks; `None` when the walk from
/// fence to fence leaves the character boundaries of the text.
pub fn text_block_layout(text: &str) -> (r: Option<Vec<TextPiece>>)
    requires
        utf8_len(text@) <= usize::MAX / 4,
    ensures
        match r {
            Some(v) => text_layout(text@) == Some(pieces_view(v@)),
            None => text_layout(text@) is None,
        },
{
    let c = chars_of(text);
    let nbytes = byte_len_of(&c);
    let blocks = extract_code_blocks(text);
    let ghost langs = block_languages(text@);
    let mut out: Vec<TextPiece> = Vec::new();
    assert(pieces_view(out@) =~= Seq::<PieceSpec>::empty());
    if blocks.len() == 0 {
        push_lines(&mut out, text);
        return Some(out);
    }
    proof {
        reveal_strlit("```");
        reveal_strlit("\n```");
        assert("```"@ =~= fence_mark());
        assert("\n```"@ =~= line_fence_mark());
        assert(langs.len() == blocks@.len());
    }
    let ghost whole = walk(c@, langs, 0, 0);
    let mut pos: usize = 0;
    let mut k: usize = 0;
    assert(then(pieces_view(out@), walk(c@, langs, 0, 0)) =~= whole) by {
        match whole {
            Some(w) => {
                assert(pieces_view(out@) + w =~= w);
            },
            None => {},
        }
    }
    while k < blocks.len()
        invariant
            k <= blocks@.len(),
            langs.len() == blocks@.len(),
            langs == block_languages(text@),
            forall|q: int| 0 <= q < blocks@.len() ==> (#[trigger] blocks@[q]).language@ == langs[q],
            c@ == text@,
            nbytes == utf8_len(c@),
            nbytes <= usize::MAX / 4,
            pos <= 2 * nbytes + 4,
            "```"@ == fence_mark(),
            "\n```"@ == line_fence_mark(),
            whole == walk(c@, langs, 0, 0),
            whole == then(pieces_view(out@), walk(c@, langs, k as int, pos as int)),
        decreases blocks@.len() - k,
    {
        let ghost o = pieces_view(out@);
        let ci = match find_char_index(&c, pos) {
            Some(ci) => ci,
            None => {
                assert(walk(c@, langs, k as int, pos as int) is None);
                return None;
            },
        };
        assert(char_index(c@, pos as int) == ci);
        match find_at(&c, ci, pos, "```") {
            None => {
                assert(walk(c@, langs, k as int, pos as int) == walk(c@, langs, k + 1, pos as int));
                k += 1;
            },
            Some((gj, gs)) => {
                proof {
                    crate::text::lemma_char_index_unique(c@, gj as int, gs as int);
                }
                let seg = string_of_range(&c, ci, gj);
                push_lines(&mut out, seg.as_str());
                push_piece(&mut out, TextPiece::Fence);
                push_piece(&mut out, TextPiece::Code(k));
                push_piece(&mut out, TextPiece::Fence);
                let ghost head = line_pieces(lines(c@.subrange(ci as int, gj as int))) + seq![
                    PieceSpec::Fence,
                    PieceSpec::Code(k as nat),
                    PieceSpec::Fence,
                ];
                assert(pieces_view(out@) =~= o + head);
                let next = position_after_block(&c, gj, gs, blocks[k].language.as_str(), nbytes);
                proof {
                    lemma_walk_block(c@, langs, k as int, pos as int, gs as int);
                    lemma_then_assoc(o, head, walk(c@, langs, k + 1, next as int));
                }
                pos = next;
                k += 1;
            },
        }
    }
    let ghost o = pieces_view(out@);
    if pos < nbytes {
        match find_char_index(&c, pos) {
            Some(ci) => {
                let rest = string_of_range(&c, ci, c.len());
                assert(rest@ =~= c@.skip(ci as int));
                push_lines(&mut out, rest.as_str());
            },
            None => {
                return None;
            },
        }
    } else {
        assert(pieces_view(out@) =~= o + seq![]);
    }
    Some(out)
}

} // verus!
