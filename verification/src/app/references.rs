//! `@path` references in a question: which words name files, how a
//! referenced folder's files are joined into one text, and the references
//! kept once the paths have been looked up.
use crate::app::state::{App, FileReference};
use crate::app::suggest::{leading_ats, skip_ats};
use crate::scrapper::strings_view;
use crate::text::{
    chars_of_string, len_utf8, push_chars, push_str, split_whitespace, string_of, sub_vec, utf8_len,
    words,
};
use crate::ui::panels::take_upto;
use vstd::prelude::*;

verus! {

broadcast use vstd::seq_lib::group_seq_properties;

/// The most characters of a folder's text that a reference keeps.
pub const FOLDER_TEXT_LIMIT: usize = 50000;

/// The paths named by the words of a question: each word that starts with
/// `@`, without its leading `@`s.
pub open spec fn reference_paths(ws: Seq<Seq<char>>) -> Seq<Seq<char>>
    decreases ws.len(),
{
    if ws.len() == 0 {
        seq![]
    } else {
        let w = ws.last();
        let rest = reference_paths(ws.drop_last());
        if w.len() > 0 && w[0] == '@' {
            rest.push(w.skip(leading_ats(w) as int))
        } else {
            rest
        }
    }
}

/// The paths named with `@` in `input`, in order.
pub fn reference_words(input: &str) -> (r: Vec<String>)
    ensures
        strings_view(r@) == reference_paths(words(input@)),
{
    let ws = split_whitespace(input);
    let ghost all = words(input@);
    let mut r: Vec<String> = Vec::new();
    let mut i: usize = 0;
    assert(all.take(0) =~= Seq::<Seq<char>>::empty());
    while i < ws.len()
        invariant
            i <= ws@.len(),
            all == words(input@),
            ws@.len() == all.len(),
            forall|k: int| 0 <= k < ws@.len() ==> (#[trigger] ws@[k])@ == all[k],
            strings_view(r@) == reference_paths(all.take(i as int)),
        decreases ws@.len() - i,
    {
        let w = &ws[i];
        assert(all.take(i + 1).drop_last() =~= all.take(i as int));
        assert(all.take(i + 1).last() == w@);
        if w.len() > 0 && w[0] == '@' {
            let p = string_of(&skip_ats(w));
            let ghost pv = p@;
            r.push(p);
            assert(strings_view(r@) =~= reference_paths(all.take(i as int)).push(pv));
        }
        i += 1;
    }
    assert(all.take(ws@.len() as int) =~= all);
    r
}

/// The words of a question that are not references.
pub open spec fn question_words(ws: Seq<Seq<char>>) -> Seq<Seq<char>>
    decreases ws.len(),
{
    if ws.len() == 0 {
        seq![]
    } else {
        let w = ws.last();
        let rest = question_words(ws.drop_last());
        if w.len() > 0 && w[0] == '@' {
            rest
        } else {
            rest.push(w)
        }
    }
}

/// The question asked of the model: the words of `input` that do not start
/// with `@`, joined by single spaces.
pub fn question_text(input: &str) -> (r: String)
    ensures
        r@ == join_with(question_words(words(input@)), " "@),
{
    let ws = split_whitespace(input);
    let ghost all = words(input@);
    let mut r = String::new();
    let mut count: usize = 0;
    let mut i: usize = 0;
    assert(all.take(0) =~= Seq::<Seq<char>>::empty());
    while i < ws.len()
        invariant
            i <= ws@.len(),
            all == words(input@),
            ws@.len() == all.len(),
            forall|k: int| 0 <= k < ws@.len() ==> (#[trigger] ws@[k])@ == all[k],
            count == question_words(all.take(i as int)).len(),
            count <= i,
            r@ == join_with(question_words(all.take(i as int)), " "@),
        decreases ws@.len() - i,
    {
        let w = &ws[i];
        assert(all.take(i + 1).drop_last() =~= all.take(i as int));
        assert(all.take(i + 1).last() == w@);
        if !(w.len() > 0 && w[0] == '@') {
            let ghost q = question_words(all.take(i as int));
            if count > 0 {
                push_str(&mut r, " ");
            }
            push_chars(&mut r, w);
            proof {
                let q2 = q.push(w@);
                assert(q2.drop_last() =~= q);
                if count == 0 {
                    assert(q.len() == 0);
                    assert(r@ =~= q2[0]);
                }
            }
            count += 1;
        }
        i += 1;
    }
    assert(all.take(ws@.len() as int) =~= all);
    r
}

/// The separator put between the files of a folder.
pub open spec fn folder_separator() -> Seq<char> {
    "\n\n--- ---\n\n"@
}

/// `parts` joined with `sep` between them.
pub open spec fn join_with(parts: Seq<Seq<char>>, sep: Seq<char>) -> Seq<char>
    decreases parts.len(),
{
    if parts.len() == 0 {
        seq![]
    } else if parts.len() == 1 {
        parts[0]
    } else {
        join_with(parts.drop_last(), sep) + sep + parts.last()
    }
}

/// The text of a referenced folder: its files' texts joined by the
/// separator; when that is longer than the limit in bytes, its first
/// `FOLDER_TEXT_LIMIT` characters and a note that it was cut.
pub open spec fn folder_text_spec(parts: Seq<Seq<char>>) -> Seq<char> {
    let content = join_with(parts, folder_separator());
    if utf8_len(content) > FOLDER_TEXT_LIMIT {
        take_upto(content, FOLDER_TEXT_LIMIT as int) + "\n\n... (truncated, folder too large)"@
    } else {
        content
    }
}

/// Whether the UTF-8 length of `v` is more than `n`.
fn utf8_len_exceeds(v: &Vec<char>, n: usize) -> (b: bool)
    ensures
        b == (utf8_len(v@) > n),
{
    let mut left: usize = n;
    let mut i: usize = 0;
    while i < v.len()
        invariant
            i <= v.len(),
            left + utf8_len(v@.take(i as int)) == n,
        decreases v.len() - i,
    {
        assert(v@.take(i + 1).drop_last() =~= v@.take(i as int));
        let w = len_utf8(v[i]);
        if w > left {
            proof {
                crate::text::lemma_utf8_len_take_mono(v@, i + 1, v@.len() as int);
                assert(v@.take(v@.len() as int) =~= v@);
            }
            return true;
        }
        left = left - w;
        i += 1;
    }
    assert(v@.take(v.len() as int) =~= v@);
    false
}

/// The text of a referenced folder whose files hold `parts`.
pub fn folder_text(parts: &Vec<String>) -> (r: String)
    ensures
        r@ == folder_text_spec(strings_view(parts@)),
{
    let ghost pv = strings_view(parts@);
    let mut content = String::new();
    let mut i: usize = 0;
    assert(pv.take(0) =~= Seq::<Seq<char>>::empty());
    while i < parts.len()
        invariant
            i <= parts@.len(),
            pv == strings_view(parts@),
            content@ == join_with(pv.take(i as int), folder_separator()),
        decreases parts@.len() - i,
    {
        assert(pv.take(i + 1).drop_last() =~= pv.take(i as int));
        assert(pv.take(i + 1).last() == parts@[i as int]@);
        if i > 0 {
            push_str(&mut content, "\n\n--- ---\n\n");
        } else {
            assert(pv.take(1).len() == 1);
        }
        push_str(&mut content, parts[i].as_str());
        proof {
            if i == 0 {
                assert(content@ =~= pv.take(1)[0]);
            }
        }
        i += 1;
    }
    assert(pv.take(parts@.len() as int) =~= pv);
    let v = chars_of_string(&content);
    if utf8_len_exceeds(&v, FOLDER_TEXT_LIMIT) {
        let cut = if FOLDER_TEXT_LIMIT < v.len() {
            sub_vec(&v, 0, FOLDER_TEXT_LIMIT)
        } else {
            sub_vec(&v, 0, v.len())
        };
        assert(cut@ =~= take_upto(v@, FOLDER_TEXT_LIMIT as int));
        let mut r = string_of(&cut);
        push_str(&mut r, "\n\n... (truncated, folder too large)");
        r
    } else {
        content
    }
}

/// What a referenced path turned out to be.
pub enum PathKind {
    /// A file, with its text when it could be read as UTF-8.
    File(Option<String>),
    /// A directory, with the texts of the files found in it.
    Dir(Vec<String>),
    /// Something that exists but is neither.
    Other,
    /// Nothing exists there.
    Missing,
}

/// A referenced path, as found on disk.
pub struct ResolvedRef {
    pub path: String,
    pub kind: PathKind,
}

/// A reference by value: its path and its text, if any.
pub open spec fn reference_view(f: FileReference) -> (Seq<char>, Option<Seq<char>>) {
    (
        f.path@,
        match f.content {
            Some(c) => Some(c@),
            None => None,
        },
    )
}

pub open spec fn references_view(v: Seq<FileReference>) -> Seq<(Seq<char>, Option<Seq<char>>)> {
    v.map_values(|f: FileReference| reference_view(f))
}

/// The references kept for resolved paths: one per path that exists, with
/// a file's text, a folder's joined text, or no text.
pub open spec fn kept_references(rs: Seq<ResolvedRef>) -> Seq<(Seq<char>, Option<Seq<char>>)>
    decreases rs.len(),
{
    if rs.len() == 0 {
        seq![]
    } else {
        let r = rs.last();
        let rest = kept_references(rs.drop_last());
        match r.kind {
            PathKind::File(Some(c)) => rest.push((r.path@, Some(c@))),
            PathKind::File(None) => rest.push((r.path@, None)),
            PathKind::Dir(parts) => rest.push(
                (r.path@, Some(folder_text_spec(strings_view(parts@)))),
            ),
            PathKind::Other => rest.push((r.path@, None)),
            PathKind::Missing => rest,
        }
    }
}

/// What `Path::new(base).join(rel)` shows as text: `rel` adjoined to `base`
/// by the path rules of the platform the program is built for.
pub uninterp spec fn joined_path(base: Seq<char>, rel: Seq<char>) -> Seq<char>;

/// `std::path::Path::join`, with the paths given and returned as text. For
/// one build of the program the result depends on the two texts alone; it
/// is named by [`joined_path`].
#[verifier::external_body]
fn join_path(base: &str, rel: &str) -> (r: String)
    ensures
        r@ == joined_path(base@, rel@),
{
    std::path::Path::new(base).join(rel).display().to_string()
}

/// The paths that the `@` words of `input` name under `base`, in order.
pub open spec fn reference_targets_spec(input: Seq<char>, base: Seq<char>) -> Seq<Seq<char>> {
    reference_paths(words(input)).map_values(|p: Seq<char>| joined_path(base, p))
}

/// The paths that the `@` words of `input` name under `base_path`, in the
/// order of the words: each word without its leading `@`s, joined to the
/// base path.
pub fn reference_targets(input: &str, base_path: &str) -> (r: Vec<String>)
    ensures
        strings_view(r@) == reference_targets_spec(input@, base_path@),
{
    let ws = reference_words(input);
    let ghost ps = reference_paths(words(input@));
    let mut r: Vec<String> = Vec::new();
    let mut i: usize = 0;
    while i < ws.len()
        invariant
            i <= ws@.len(),
            strings_view(ws@) == ps,
            ps == reference_paths(words(input@)),
            strings_view(r@) == ps.take(i as int).map_values(
                |p: Seq<char>| joined_path(base_path@, p),
            ),
        decreases ws@.len() - i,
    {
        let t = join_path(base_path, ws[i].as_str());
        assert(ws@[i as int]@ == ps[i as int]);
        assert(t@ == joined_path(base_path@, ps[i as int]));
        let ghost before = strings_view(r@);
        r.push(t);
        assert(strings_view(r@) =~= before.push(joined_path(base_path@, ps[i as int])));
        assert(ps.take(i + 1) =~= ps.take(i as int).push(ps[i as int]));
        assert(strings_view(r@) =~= ps.take(i + 1).map_values(
            |p: Seq<char>| joined_path(base_path@, p),
        ));
        i += 1;
    }
    assert(ps.take(ws@.len() as int) =~= ps);
    r
}

/// The references kept for `paths`, each found on disk as the kind of the
/// same position: one per path that exists, with a file's text, a folder's
/// joined text, or no text.
pub open spec fn kept_for(paths: Seq<Seq<char>>, kinds: Seq<PathKind>) -> Seq<
    (Seq<char>, Option<Seq<char>>),
>
    decreases paths.len(),
{
    if paths.len() == 0 {
        seq![]
    } else {
        let p = paths.last();
        let rest = kept_for(paths.drop_last(), kinds.drop_last());
        match kinds.last() {
            PathKind::File(Some(c)) => rest.push((p, Some(c@))),
            PathKind::File(None) => rest.push((p, None)),
            PathKind::Dir(parts) => rest.push((p, Some(folder_text_spec(strings_view(parts@))))),
            PathKind::Other => rest.push((p, None)),
            PathKind::Missing => rest,
        }
    }
}

proof fn lemma_kept_for(rs: Seq<ResolvedRef>, paths: Seq<Seq<char>>, kinds: Seq<PathKind>)
    requires
        rs.len() == paths.len(),
        rs.len() == kinds.len(),
        forall|k: int| 0 <= k < rs.len() ==> (#[trigger] rs[k]).path@ == paths[k] && rs[k].kind
            == kinds[k],
    ensures
        kept_references(rs) == kept_for(paths, kinds),
    decreases rs.len(),
{
    if rs.len() > 0 {
        lemma_kept_for(rs.drop_last(), paths.drop_last(), kinds.drop_last());
        assert(rs.last() == rs[rs.len() - 1]);
    }
}

impl App {
    /// Replaces the file references with those of `resolved`: paths as they
    /// were found on disk.
    pub fn keep_references(&mut self, resolved: Vec<ResolvedRef>)
        ensures
            *final(self) == (App { file_references: final(self).file_references, ..*old(self) }),
            references_view(final(self).file_references@) == kept_references(resolved@),
    {
        let ghost rv = resolved@;
        let mut refs: Vec<FileReference> = Vec::new();
        let n = resolved.len();
        let mut i: usize = 0;
        assert(rv.take(0) =~= Seq::<ResolvedRef>::empty());
        assert(references_view(refs@) =~= kept_references(rv.take(0)));
        while i < n
            invariant
                i <= n,
                n == rv.len(),
                rv == resolved@,
                references_view(refs@) == kept_references(rv.take(i as int)),
            decreases n - i,
        {
            let r = &resolved[i];
            assert(rv.take(i + 1).drop_last() =~= rv.take(i as int));
            assert(rv.take(i + 1).last() == *r);
            let ghost before = references_view(refs@);
            let kept: Option<FileReference> = match &r.kind {
                PathKind::File(Some(c)) => Some(
                    FileReference { path: r.path.clone(), content: Some(c.clone()) },
                ),
                PathKind::File(None) => Some(FileReference { path: r.path.clone(), content: None }),
                PathKind::Dir(parts) => Some(
                    FileReference { path: r.path.clone(), content: Some(folder_text(parts)) },
                ),
                PathKind::Other => Some(FileReference { path: r.path.clone(), content: None }),
                PathKind::Missing => None,
            };
            match kept {
                Some(f) => {
                    let ghost fv = reference_view(f);
                    refs.push(f);
                    assert(references_view(refs@) =~= before.push(fv));
                },
                None => {},
            }
            assert(references_view(refs@) =~= kept_references(rv.take(i + 1)));
            i += 1;
        }
        assert(rv.take(n as int) =~= rv);
        self.file_references = refs;
    }

    /// Replaces the file references with those that the `@` words of `input`
    /// name under `base_path`, in the order of the words (see
    /// [`reference_targets`]). `kinds` says, for each of those paths in the
    /// same order, what was found there on disk.
    pub fn parse_references(&mut self, input: &str, base_path: &str, kinds: Vec<PathKind>)
        requires
            kinds@.len() == reference_paths(words(input@)).len(),
        ensures
            *final(self) == (App { file_references: final(self).file_references, ..*old(self) }),
            references_view(final(self).file_references@) == kept_for(
                reference_targets_spec(input@, base_path@),
                kinds@,
            ),
    {
        let targets = reference_targets(input, base_path);
        let ghost tv = reference_targets_spec(input@, base_path@);
        let ghost kv = kinds@;
        let mut rest = kinds;
        let mut resolved: Vec<ResolvedRef> = Vec::new();
        let n = targets.len();
        let mut i: usize = 0;
        while i < n
            invariant
                n == targets@.len(),
                strings_view(targets@) == tv,
                tv.len() == kv.len(),
                i <= n,
                rest@ == kv.skip(i as int),
                resolved@.len() == i,
                forall|k: int|
                    0 <= k < i ==> (#[trigger] resolved@[k]).path@ == tv[k] && resolved@[k].kind
                        == kv[k],
            decreases n - i,
        {
            assert(rest@.len() > 0);
            let kind = rest.remove(0);
            assert(kind == kv[i as int]);
            assert(rest@ =~= kv.skip(i + 1));
            assert(targets@[i as int]@ == tv[i as int]);
            resolved.push(ResolvedRef { path: targets[i].clone(), kind });
            i += 1;
        }
        proof {
            lemma_kept_for(resolved@, tv, kv);
        }
        self.keep_references(resolved);
    }
}

} // verus!
