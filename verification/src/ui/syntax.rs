//! Language names for file paths and fenced code blocks in answers.
use crate::text::{
    chars_of, ends_with, ends_with_lit, lines, split_lines, starts_with, starts_with_lit, string_of,
    sub_vec, to_string, trim, trim_end, trim_end_vec, trim_vec,
};
use vstd::prelude::*;

verus! {

/// What `str::to_lowercase` returns for `s` (Unicode lower-case mapping).
pub uninterp spec fn lowercase(s: Seq<char>) -> Seq<char>;

/// All characters of `s` are ASCII.
pub open spec fn all_ascii(s: Seq<char>) -> bool {
    forall|i: int| 0 <= i < s.len() ==> (s[i] as u32) < 128
}

/// `s` with `'A'..='Z'` mapped to `'a'..='z'` and every other character kept.
pub open spec fn ascii_lower(s: Seq<char>) -> Seq<char> {
    s.map_values(
        |c: char|
            if 'A' <= c && c <= 'Z' {
                ((c as u32) + 32) as char
            } else {
                c
            },
    )
}

/// `str::to_lowercase`: the Unicode lower-case mapping of `s`. Its result is
/// named by [`lowercase`]; of the mapping only its ASCII part is stated (on
/// ASCII text, `'A'..='Z'` become `'a'..='z'` and nothing else changes).
#[verifier::external_body]
fn to_lowercase(s: &str) -> (r: String)
    ensures
        r@ == lowercase(s@),
        all_ascii(s@) ==> r@ == ascii_lower(s@),
{
    s.to_lowercase()
}

/// The language name for a lower-cased path, from its suffix.
pub open spec fn language_of(p: Seq<char>) -> Seq<char> {
    if ends_with(p, ".rs"@) {
        "rust"@
    } else if ends_with(p, ".py"@) {
        "python"@
    } else if ends_with(p, ".js"@) {
        "javascript"@
    } else if ends_with(p, ".ts"@) {
        "typescript"@
    } else if ends_with(p, ".jsx"@) {
        "jsx"@
    } else if ends_with(p, ".tsx"@) {
        "tsx"@
    } else if ends_with(p, ".go"@) {
        "go"@
    } else if ends_with(p, ".java"@) {
        "java"@
    } else if ends_with(p, ".kt"@) || ends_with(p, ".kts"@) {
        "kotlin"@
    } else if ends_with(p, ".scala"@) {
        "scala"@
    } else if ends_with(p, ".c"@) {
        "c"@
    } else if ends_with(p, ".cpp"@) || ends_with(p, ".cc"@) {
        "cpp"@
    } else if ends_with(p, ".h"@) {
        "c"@
    } else if ends_with(p, ".hpp"@) {
        "cpp"@
    } else if ends_with(p, ".sh"@) || ends_with(p, ".bash"@) {
        "bash"@
    } else if ends_with(p, ".zsh"@) {
        "bash"@
    } else if ends_with(p, ".json"@) {
        "json"@
    } else if ends_with(p, ".toml"@) {
        "toml"@
    } else if ends_with(p, ".yaml"@) || ends_with(p, ".yml"@) {
        "yaml"@
    } else if ends_with(p, ".md"@) {
        "markdown"@
    } else if ends_with(p, ".sql"@) {
        "sql"@
    } else {
        "txt"@
    }
}

/// The language of a file, from the suffix of its lower-cased path; for an
/// ASCII path, letter case does not matter.
pub fn detect_language_from_path(path: &str) -> (r: &str)
    ensures
        r@ == language_of(lowercase(path@)),
        all_ascii(path@) ==> r@ == language_of(ascii_lower(path@)),
{
    let lower = to_lowercase(path);
    language_of_lowercased(lower.as_str())
}

/// The language for a path already lower-cased, from its suffix.
pub fn language_of_lowercased(lower: &str) -> (r: &'static str)
    ensures
        r@ == language_of(lower@),
{
    let p = chars_of(lower);
    if ends_with_lit(&p, ".rs") {
        return "rust";
    }
    if ends_with_lit(&p, ".py") {
        return "python";
    }
    if ends_with_lit(&p, ".js") {
        return "javascript";
    }
    if ends_with_lit(&p, ".ts") {
        return "typescript";
    }
    if ends_with_lit(&p, ".jsx") {
        return "jsx";
    }
    if ends_with_lit(&p, ".tsx") {
        return "tsx";
    }
    if ends_with_lit(&p, ".go") {
        return "go";
    }
    if ends_with_lit(&p, ".java") {
        return "java";
    }
    if ends_with_lit(&p, ".kt") || ends_with_lit(&p, ".kts") {
        return "kotlin";
    }
    if ends_with_lit(&p, ".scala") {
        return "scala";
    }
    if ends_with_lit(&p, ".c") {
        return "c";
    }
    if ends_with_lit(&p, ".cpp") || ends_with_lit(&p, ".cc") {
        return "cpp";
    }
    if ends_with_lit(&p, ".h") {
        return "c";
    }
    if ends_with_lit(&p, ".hpp") {
        return "cpp";
    }
    if ends_with_lit(&p, ".sh") || ends_with_lit(&p, ".bash") {
        return "bash";
    }
    if ends_with_lit(&p, ".zsh") {
        return "bash";
    }
    if ends_with_lit(&p, ".json") {
        return "json";
    }
    if ends_with_lit(&p, ".toml") {
        return "toml";
    }
    if ends_with_lit(&p, ".yaml") || ends_with_lit(&p, ".yml") {
        return "yaml";
    }
    if ends_with_lit(&p, ".md") {
        return "markdown";
    }
    if ends_with_lit(&p, ".sql") {
        return "sql";
    }
    if ends_with_lit(&p, ".txt") {
        return "txt";
    }
    "txt"
}

/// A fenced code block found in a text.
#[derive(Debug, Clone)]
pub struct CodeBlock {
    pub language: String,
    pub content: String,
}

/// State of the scan over the lines of a text: inside a block or not, the
/// opening fence line, the content gathered so far and the blocks closed.
pub struct BlockScan {
    pub in_block: bool,
    pub fence: Seq<char>,
    pub content: Seq<char>,
    pub blocks: Seq<(Seq<char>, Seq<char>)>,
}

/// The language and content of the block that `fence` opened.
pub open spec fn closed_block(fence: Seq<char>, content: Seq<char>) -> (Seq<char>, Seq<char>) {
    let lang = trim(fence.skip(3));
    (if lang.len() == 0 {
        "txt"@
    } else {
        lang
    }, trim_end(content))
}

/// The scan after the lines `ls`: a line whose trimmed text starts with
/// three backticks opens a block, or closes the open one; the lines between
/// are gathered, each followed by a newline.
pub open spec fn scan_blocks(ls: Seq<Seq<char>>) -> BlockScan
    decreases ls.len(),
{
    if ls.len() == 0 {
        BlockScan { in_block: false, fence: seq![], content: seq![], blocks: seq![] }
    } else {
        let st = scan_blocks(ls.drop_last());
        let line = ls.last();
        if starts_with(trim(line), "```"@) {
            if st.in_block {
                BlockScan {
                    in_block: false,
                    fence: seq![],
                    content: seq![],
                    blocks: if starts_with(st.fence, "```"@) {
                        st.blocks.push(closed_block(st.fence, st.content))
                    } else {
                        st.blocks
                    },
                }
            } else {
                BlockScan { in_block: true, fence: trim(line), content: st.content, blocks: st.blocks }
            }
        } else if st.in_block {
            BlockScan { content: st.content + line.push('\n'), ..st }
        } else {
            st
        }
    }
}

/// The fenced code blocks of `text` that are closed, in order.
pub fn extract_code_blocks(text: &str) -> (r: Vec<CodeBlock>)
    ensures
        r@.len() == scan_blocks(lines(text@)).blocks.len(),
        forall|k: int|
            0 <= k < r@.len() ==> ((#[trigger] r@[k]).language@, r@[k].content@) == scan_blocks(
                lines(text@),
            ).blocks[k],
{
    let ls = split_lines(text);
    let ghost lv = lines(text@);
    let mut blocks: Vec<CodeBlock> = Vec::new();
    let mut in_block = false;
    let mut fence: Vec<char> = Vec::new();
    let mut content: Vec<char> = Vec::new();
    let mut i: usize = 0;
    assert(lv.take(0) =~= Seq::<Seq<char>>::empty());
    while i < ls.len()
        invariant
            i <= ls@.len(),
            ls@.len() == lv.len(),
            lv == lines(text@),
            forall|k: int| 0 <= k < ls@.len() ==> (#[trigger] ls@[k])@ == lv[k],
            ({
                let st = scan_blocks(lv.take(i as int));
                &&& st.in_block == in_block
                &&& st.fence == fence@
                &&& st.content == content@
                &&& st.blocks.len() == blocks@.len()
                &&& forall|k: int|
                    0 <= k < blocks@.len() ==> ((#[trigger] blocks@[k]).language@,
                    blocks@[k].content@) == st.blocks[k]
            }),
        decreases ls@.len() - i,
    {
        let line = &ls[i];
        assert(lv.take(i + 1).drop_last() =~= lv.take(i as int));
        assert(lv.take(i + 1).last() == line@);
        let t = trim_vec(line);
        if starts_with_lit(&t, "```") {
            if in_block {
                if starts_with_lit(&fence, "```") {
                    proof {
                        reveal_strlit("```");
                    }
                    let rest = sub_vec(&fence, 3, fence.len());
                    assert(rest@ == fence@.skip(3));
                    let lang = trim_vec(&rest);
                    let language = if lang.len() == 0 {
                        to_string("txt")
                    } else {
                        string_of(&lang)
                    };
                    let body = trim_end_vec(&content);
                    blocks.push(CodeBlock { language, content: string_of(&body) });
                }
                content = Vec::new();
                fence = Vec::new();
                in_block = false;
            } else {
                in_block = true;
                fence = t;
            }
        } else if in_block {
            let mut j: usize = 0;
            let ghost c0 = content@;
            while j < line.len()
                invariant
                    j <= line@.len(),
                    content@ == c0 + line@.take(j as int),
                decreases line@.len() - j,
            {
                content.push(line[j]);
                j += 1;
                assert(content@ =~= c0 + line@.take(j as int));
            }
            assert(line@.take(line@.len() as int) =~= line@);
            content.push('\n');
            assert(content@ =~= c0 + line@.push('\n'));
        }
        i += 1;
    }
    assert(lv.take(ls@.len() as int) =~= lv);
    blocks
}

} // verus!
