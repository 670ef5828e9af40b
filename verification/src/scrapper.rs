//! Which files of a directory tree are indexed, and how their text is cut
//! into overlapping chunks of lines.
use crate::text::{
    chars_of, ends_with, join_lines, join_lines_range, lemma_lines_nonempty, lines, split_lines,
    to_string, vec_ends_with,
};
use vstd::prelude::*;

verus! {

/// Directory names to skip and file-name suffixes to index.
pub struct ScrapperConfig {
    pub ignore_dirs: Vec<String>,
    pub extensions: Vec<String>,
}

/// The views of a vector of strings.
pub open spec fn strings_view(v: Seq<String>) -> Seq<Seq<char>> {
    v.map_values(|s: String| s@)
}

pub open spec fn default_ignore_spec() -> Seq<Seq<char>> {
    seq!["models"@, "node_modules"@, "target"@, "dist"@, ".git"@]
}

pub open spec fn default_filters_spec() -> Seq<Seq<char>> {
    seq![
        ".rs"@, ".toml"@, ".json"@, ".yaml"@, ".yml"@, ".md"@,
        ".py"@, ".pyi"@,
        ".js"@, ".ts"@, ".jsx"@, ".tsx"@, ".mjs"@,
        ".go"@,
        ".java"@, ".kt"@, ".scala"@,
        ".c"@, ".cpp"@, ".h"@, ".hpp"@,
        ".sh"@, ".bash"@, ".zsh"@,
        ".txt"@, ".sql"@,
    ]
}

/// Pushes the string `s` and keeps the views in step.
fn push_lit(v: &mut Vec<String>, s: &str)
    ensures
        strings_view(final(v)@) == strings_view(old(v)@).push(s@),
{
    v.push(to_string(s));
    assert(strings_view(v@) =~= strings_view(old(v)@).push(s@));
}

impl Default for ScrapperConfig {
    fn default() -> (c: ScrapperConfig)
        ensures
            strings_view(c.ignore_dirs@) == default_ignore_spec(),
            strings_view(c.extensions@) == default_filters_spec(),
    {
        let mut ignore_dirs: Vec<String> = Vec::new();
        assert(strings_view(ignore_dirs@) =~= seq![]);
        push_lit(&mut ignore_dirs, "models");
        push_lit(&mut ignore_dirs, "node_modules");
        push_lit(&mut ignore_dirs, "target");
        push_lit(&mut ignore_dirs, "dist");
        push_lit(&mut ignore_dirs, ".git");
        let mut e: Vec<String> = Vec::new();
        assert(strings_view(e@) =~= seq![]);
        push_lit(&mut e, ".rs");
        push_lit(&mut e, ".toml");
        push_lit(&mut e, ".json");
        push_lit(&mut e, ".yaml");
        push_lit(&mut e, ".yml");
        push_lit(&mut e, ".md");
        push_lit(&mut e, ".py");
        push_lit(&mut e, ".pyi");
        push_lit(&mut e, ".js");
        push_lit(&mut e, ".ts");
        push_lit(&mut e, ".jsx");
        push_lit(&mut e, ".tsx");
        push_lit(&mut e, ".mjs");
        push_lit(&mut e, ".go");
        push_lit(&mut e, ".java");
        push_lit(&mut e, ".kt");
        push_lit(&mut e, ".scala");
        push_lit(&mut e, ".c");
        push_lit(&mut e, ".cpp");
        push_lit(&mut e, ".h");
        push_lit(&mut e, ".hpp");
        push_lit(&mut e, ".sh");
        push_lit(&mut e, ".bash");
        push_lit(&mut e, ".zsh");
        push_lit(&mut e, ".txt");
        push_lit(&mut e, ".sql");
        assert(strings_view(ignore_dirs@) =~= default_ignore_spec());
        assert(strings_view(e@) =~= default_filters_spec());
        ScrapperConfig { ignore_dirs, extensions: e }
    }
}

impl ScrapperConfig {
    pub fn new(ignore_dirs: Vec<String>, extensions: Vec<String>) -> (c: ScrapperConfig)
        ensures
            c.ignore_dirs == ignore_dirs,
            c.extensions == extensions,
    {
        ScrapperConfig { ignore_dirs, extensions }
    }
}

/// `p` occurs in `s` (`str::contains`).
pub open spec fn contains_sub(s: Seq<char>, p: Seq<char>) -> bool {
    exists|i: int| 0 <= i && i + p.len() <= s.len() && #[trigger] s.subrange(i, i + p.len()) == p
}

/// A directory entry is skipped when it is a directory whose name is one of
/// the ignored names; files are never skipped by name.
pub open spec fn is_ignored_spec(
    ignore: Seq<Seq<char>>,
    file_name: Option<Seq<char>>,
    is_dir: bool,
) -> bool {
    is_dir && match file_name {
        Some(n) => ignore.contains(n),
        None => false,
    }
}

/// Whether the walker skips an entry, given its file name when that is valid
/// UTF-8 and whether it is a directory.
pub fn is_ignored_entry(config: &ScrapperConfig, file_name: Option<&str>, is_dir: bool) -> (r:
    bool)
    ensures
        r == is_ignored_spec(
            strings_view(config.ignore_dirs@),
            match file_name {
                Some(n) => Some(n@),
                None => None,
            },
            is_dir,
        ),
{
    if !is_dir {
        return false;
    }
    match file_name {
        None => false,
        Some(n) => {
            let name = chars_of(n);
            let ghost ign = strings_view(config.ignore_dirs@);
            let mut i: usize = 0;
            while i < config.ignore_dirs.len()
                invariant
                    i <= config.ignore_dirs@.len(),
                    ign == strings_view(config.ignore_dirs@),
                    name@ == n@,
                    is_dir,
                    file_name == Some(n),
                    forall|j: int| 0 <= j < i ==> ign[j] != name@,
                decreases config.ignore_dirs.len() - i,
            {
                let ig = chars_of(config.ignore_dirs[i].as_str());
                assert(ig@ == ign[i as int]);
                if crate::text::seq_eq(&name, &ig) {
                    assert(ign[i as int] == name@);
                    return true;
                }
                i += 1;
            }
            assert(!ign.contains(name@));
            false
        },
    }
}

/// A file is indexed when one of the listed suffixes is `"."` followed by
/// its extension, or ends its path.
pub open spec fn has_extension_spec(
    exts: Seq<Seq<char>>,
    path: Seq<char>,
    extension: Option<Seq<char>>,
) -> bool {
    exists|i: int|
        0 <= i < exts.len() && ((extension matches Some(e) && seq!['.'] + e == #[trigger] exts[i])
            || ends_with(path, exts[i]))
}

/// Whether the walker reads a file, given its path as text and its extension
/// when that is valid UTF-8.
pub fn has_listed_extension(config: &ScrapperConfig, path: &str, extension: Option<&str>) -> (r:
    bool)
    ensures
        r == has_extension_spec(
            strings_view(config.extensions@),
            path@,
            match extension {
                Some(e) => Some(e@),
                None => None,
            },
        ),
{
    let p = chars_of(path);
    let dotted: Option<Vec<char>> = match extension {
        Some(e) => {
            let ev = chars_of(e);
            let mut d: Vec<char> = Vec::new();
            d.push('.');
            let d2 = crate::text::splice(&d, 1, 1, &ev);
            assert(d@.take(1) =~= seq!['.']);
            assert(d@.skip(1) =~= Seq::<char>::empty());
            Some(d2)
        },
        None => None,
    };
    let ghost exts = strings_view(config.extensions@);
    let ghost eopt = match extension {
        Some(e) => Some(e@),
        None => None::<Seq<char>>,
    };
    let mut i: usize = 0;
    while i < config.extensions.len()
        invariant
            i <= config.extensions@.len(),
            exts == strings_view(config.extensions@),
            p@ == path@,
            eopt == match extension {
                Some(e) => Some(e@),
                None => None::<Seq<char>>,
            },
            match dotted {
                Some(d) => eopt matches Some(e) && d@ == seq!['.'] + e,
                None => eopt is None,
            },
            forall|j: int|
                0 <= j < i ==> !((eopt matches Some(e) && seq!['.'] + e == #[trigger] exts[j])
                    || ends_with(p@, exts[j])),
        decreases config.extensions.len() - i,
    {
        let x = chars_of(config.extensions[i].as_str());
        assert(x@ == exts[i as int]);
        let eq_ext = match &dotted {
            Some(d) => crate::text::seq_eq(d, &x),
            None => false,
        };
        if eq_ext || vec_ends_with(&p, &x) {
            return true;
        }
        i += 1;
    }
    false
}

/// Number of lines the window moves forward between chunks.
pub open spec fn chunk_step(chunk_size: nat, overlap: nat) -> nat {
    if chunk_size > overlap {
        (chunk_size - overlap) as nat
    } else {
        0
    }
}

/// Number of chunks of `n` lines: one window of `chunk_size` lines, then one
/// more per step until the window reaches the last line.
pub open spec fn chunk_count(n: nat, chunk_size: nat, overlap: nat) -> nat {
    if n == 0 {
        0
    } else if n <= chunk_size {
        1
    } else {
        let step = chunk_step(chunk_size, overlap);
        1 + ((n - chunk_size + step - 1) / (step as int)) as nat
    }
}

/// Lines `[lo, hi)` of chunk `k`.
pub open spec fn chunk_bounds(n: nat, chunk_size: nat, overlap: nat, k: int) -> (int, int) {
    let lo = k * chunk_step(chunk_size, overlap);
    let hi = if lo + chunk_size < n {
        lo + chunk_size
    } else {
        n as int
    };
    (lo, hi)
}

/// `chunk_text` ends: the text is empty, the window moves forward, or one
/// window holds every line.
pub open spec fn chunk_text_terminates(text: Seq<char>, chunk_size: nat, overlap: nat) -> bool {
    text.len() == 0 || chunk_size > overlap || lines(text).len() <= chunk_size
}

/// Cuts `text` into chunks of at most `chunk_size` lines, each starting
/// `chunk_size - overlap` lines after the previous one, until a chunk holds
/// the last line. Each chunk is its lines joined with `'\n'`.
pub fn chunk_text(text: &str, chunk_size: usize, overlap: usize) -> (r: Vec<String>)
    requires
        chunk_text_terminates(text@, chunk_size as nat, overlap as nat),
    ensures
        text@.len() == 0 ==> r@.len() == 0,
        text@.len() > 0 ==> r@.len() == chunk_count(
            lines(text@).len(),
            chunk_size as nat,
            overlap as nat,
        ),
        forall|k: int|
            0 <= k < r@.len() ==> (#[trigger] r@[k])@ == join_lines(
                lines(text@).subrange(
                    chunk_bounds(lines(text@).len(), chunk_size as nat, overlap as nat, k).0,
                    chunk_bounds(lines(text@).len(), chunk_size as nat, overlap as nat, k).1,
                ),
            ),
{
    let mut chunks: Vec<String> = Vec::new();
    if text.is_empty() {
        return chunks;
    }
    let ls = split_lines(text);
    let ghost lv = lines(text@);
    proof {
        lemma_lines_nonempty(text@);
        assert(ls@.map_values(|l: Vec<char>| l@) =~= lv);
    }
    let n = ls.len();
    let step: usize = if chunk_size > overlap {
        chunk_size - overlap
    } else {
        0
    };
    let ghost cs = chunk_size as nat;
    let ghost ov = overlap as nat;
    let mut i: usize = 0;
    let mut k: usize = 0;
    while i < n
        invariant_except_break
            n == lv.len(),
            lv == lines(text@),
            n >= 1,
            ls@.map_values(|l: Vec<char>| l@) == lv,
            step == chunk_step(cs, ov),
            cs == chunk_size,
            ov == overlap,
            chunk_text_terminates(text@, cs, ov),
            text@.len() > 0,
            i == k * step,
            i < n,
            k <= i,
            step == 0 ==> k == 0,
            chunks@.len() == k,
            k == 0 || (k - 1) * step + chunk_size < n,
            forall|j: int|
                0 <= j < k ==> (#[trigger] chunks@[j])@ == join_lines(
                    lv.subrange(chunk_bounds(n as nat, cs, ov, j).0, chunk_bounds(n as nat, cs, ov, j).1),
                ),
        ensures
            chunks@.len() == chunk_count(n as nat, cs, ov),
            forall|j: int|
                0 <= j < chunks@.len() ==> (#[trigger] chunks@[j])@ == join_lines(
                    lv.subrange(chunk_bounds(n as nat, cs, ov, j).0, chunk_bounds(n as nat, cs, ov, j).1),
                ),
        decreases n - i,
    {
        let end = if chunk_size < n - i {
            i + chunk_size
        } else {
            n
        };
        let chunk = join_lines_range(&ls, i, end);
        proof {
            assert(ls@.subrange(i as int, end as int).map_values(|l: Vec<char>| l@) =~= lv.subrange(
                i as int,
                end as int,
            ));
            assert(chunk_bounds(n as nat, cs, ov, k as int) == (i as int, end as int));
        }
        chunks.push(chunk);
        if end == n {
            proof {
                lemma_chunk_count(n as nat, cs, ov, k as nat);
            }
            break;
        }
        if step == 0 {
            // one window holds every line when the window does not move
            assert(k * step == 0) by (nonlinear_arith)
                requires
                    k == 0,
            ;
            assert(false);
        }
        proof {
            assert((k + 1) * step == k * step + step) by (nonlinear_arith);
        }
        i = i + step;
        k = k + 1;
    }
    chunks
}

/// The loop of `chunk_text` stops after `chunk_count` windows.
proof fn lemma_chunk_count(n: nat, cs: nat, ov: nat, k: nat)
    requires
        n >= 1,
        k * chunk_step(cs, ov) + cs >= n,
        k == 0 || (k - 1) * chunk_step(cs, ov) + cs < n,
        k * chunk_step(cs, ov) < n,
        k > 0 ==> chunk_step(cs, ov) > 0,
    ensures
        k + 1 == chunk_count(n, cs, ov),
{
    let step = chunk_step(cs, ov);
    if n <= cs {
        if k > 0 {
            assert((k - 1) * step >= 0) by (nonlinear_arith)
                requires
                    k >= 1,
            ;
        }
    } else {
        assert(k > 0);
        let d = (n - cs) as int;
        // (k - 1) * step < d <= k * step
        assert((k - 1) * step == k * step - step) by (nonlinear_arith);
        assert((d + step - 1) / (step as int) == k) by (nonlinear_arith)
            requires
                step > 0,
                k * step - step < d,
                d <= k * step,
        {
            let q = (d + step - 1) / (step as int);
            assert(k * step <= d + step - 1);
            assert(d + step - 1 < (k + 1) * step);
        }
    }
}

} // verus!
