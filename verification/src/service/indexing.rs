//! The steps of indexing a set of files: which chunks are embedded, and
//! which progress is reported before each file and at the end.
use crate::config::settings::{default_chunk_overlap, default_chunk_size};
use crate::scrapper::{chunk_bounds, chunk_count, chunk_text};
use crate::text::{join_lines, lines, to_string};
use vstd::prelude::*;

verus! {

/// One step of indexing a directory.
#[derive(Debug, Clone, PartialEq, Eq)]
pub enum IndexStep {
    /// `done` of `total` files are indexed, `chunks` chunks so far; `file`
    /// is the file that comes next, or `"done"` at the end.
    Progress { done: usize, total: usize, chunks: usize, file: String },
    /// Embed `chunk` of `file` and add it to the index.
    Embed { file: String, chunk: String },
}

/// An indexing step over plain values.
pub enum IndexStepView {
    Progress { done: nat, total: nat, chunks: nat, file: Seq<char> },
    Embed { file: Seq<char>, chunk: Seq<char> },
}

impl View for IndexStep {
    type V = IndexStepView;

    open spec fn view(&self) -> IndexStepView {
        match self {
            IndexStep::Progress { done, total, chunks, file } => IndexStepView::Progress {
                done: *done as nat,
                total: *total as nat,
                chunks: *chunks as nat,
                file: file@,
            },
            IndexStep::Embed { file, chunk } => IndexStepView::Embed {
                file: file@,
                chunk: chunk@,
            },
        }
    }
}

/// The chunks that `chunk_text` cuts `text` into.
pub open spec fn chunks_of(text: Seq<char>, size: nat, overlap: nat) -> Seq<Seq<char>> {
    let n = lines(text).len();
    let count = if text.len() == 0 {
        0
    } else {
        chunk_count(n, size, overlap)
    };
    Seq::new(
        count,
        |k: int|
            join_lines(
                lines(text).subrange(
                    chunk_bounds(n, size, overlap, k).0,
                    chunk_bounds(n, size, overlap, k).1,
                ),
            ),
    )
}

/// The chunks of a file's text at the default size and overlap.
pub open spec fn file_chunks(text: Seq<char>) -> Seq<Seq<char>> {
    chunks_of(text, 50, 10)
}

/// The steps from file `i` on, `chunks` chunks having been embedded before
/// it: the progress before the file, one embedding per chunk of the file,
/// then the rest; after the last file, the final progress named `"done"`.
pub open spec fn steps_from(files: Seq<(Seq<char>, Seq<char>)>, i: nat, chunks: nat) -> Seq<
    IndexStepView,
>
    decreases files.len() - i,
{
    if i >= files.len() {
        seq![
            IndexStepView::Progress {
                done: files.len(),
                total: files.len(),
                chunks,
                file: "done"@,
            },
        ]
    } else {
        let name = files[i as int].0;
        let cs = file_chunks(files[i as int].1);
        seq![IndexStepView::Progress { done: i, total: files.len(), chunks, file: name }]
            + cs.map_values(|c: Seq<char>| IndexStepView::Embed { file: name, chunk: c })
            + steps_from(files, i + 1, chunks + cs.len())
    }
}

/// All steps of indexing `files`, given as pairs of name and text.
pub open spec fn index_steps_spec(files: Seq<(Seq<char>, Seq<char>)>) -> Seq<IndexStepView> {
    steps_from(files, 0, 0)
}

/// The names and texts of `files`.
pub open spec fn files_view(files: Seq<(String, String)>) -> Seq<(Seq<char>, Seq<char>)> {
    files.map_values(|f: (String, String)| (f.0@, f.1@))
}

/// The views of a sequence of steps.
pub open spec fn steps_view(steps: Seq<IndexStep>) -> Seq<IndexStepView> {
    steps.map_values(|s: IndexStep| s@)
}

/// The steps of indexing `files` (name and text of each), in order: for
/// each file the progress so far, then one embedding per chunk of its text
/// (50 lines, 10 of them shared with the next chunk); at the end the final
/// progress, with the file name `"done"`.
pub fn index_steps(files: &Vec<(String, String)>) -> (r: Vec<IndexStep>)
    ensures
        steps_view(r@) == index_steps_spec(files_view(files@)),
{
    let ghost fv = files_view(files@);
    let n = files.len();
    let mut out: Vec<IndexStep> = Vec::new();
    let mut done: usize = 0;
    let mut i: usize = 0;
    while i < n
        invariant
            n == files@.len(),
            fv == files_view(files@),
            i <= n,
            done <= out@.len(),
            steps_view(out@) + steps_from(fv, i as nat, done as nat) == index_steps_spec(fv),
        decreases n - i,
    {
        let name = &files[i].0;
        let text = &files[i].1;
        let ghost before = steps_view(out@);
        let ghost cs = file_chunks(fv[i as int].1);
        let ghost name_v = fv[i as int].0;
        assert(name@ == name_v && text@ == fv[i as int].1);
        out.push(IndexStep::Progress { done: i, total: n, chunks: done, file: name.clone() });
        let chunks = chunk_text(text.as_str(), default_chunk_size(), default_chunk_overlap());
        proof {
            assert(chunks@.map_values(|c: String| c@) =~= cs);
            assert(steps_view(out@) =~= before + seq![
                IndexStepView::Progress { done: i as nat, total: n as nat, chunks: done as nat, file: name_v },
            ]);
        }
        let mut k: usize = 0;
        while k < chunks.len()
            invariant
                n == files@.len(),
                fv == files_view(files@),
                i < n,
                k <= chunks@.len(),
                cs == file_chunks(fv[i as int].1),
                chunks@.map_values(|c: String| c@) == cs,
                name@ == name_v,
                name_v == fv[i as int].0,
                done + k <= out.len(),
                steps_view(out@) == before + seq![
                    IndexStepView::Progress { done: i as nat, total: n as nat, chunks: done as nat, file: name_v },
                ] + cs.take(k as int).map_values(
                    |c: Seq<char>| IndexStepView::Embed { file: name_v, chunk: c },
                ),
            decreases chunks@.len() - k,
        {
            let ghost prev = steps_view(out@);
            assert(chunks@[k as int]@ == cs[k as int]);
            out.push(IndexStep::Embed { file: name.clone(), chunk: chunks[k].clone() });
            proof {
                assert(cs.take(k + 1) =~= cs.take(k as int).push(cs[k as int]));
                assert(steps_view(out@) =~= prev.push(
                    IndexStepView::Embed { file: name_v, chunk: cs[k as int] },
                ));
                assert(cs.take(k + 1).map_values(
                    |c: Seq<char>| IndexStepView::Embed { file: name_v, chunk: c },
                ) =~= cs.take(k as int).map_values(
                    |c: Seq<char>| IndexStepView::Embed { file: name_v, chunk: c },
                ).push(IndexStepView::Embed { file: name_v, chunk: cs[k as int] }));
            }
            k += 1;
        }
        proof {
            assert(cs.take(k as int) =~= cs);
            assert(steps_from(fv, i as nat, done as nat) == seq![
                IndexStepView::Progress { done: i as nat, total: n as nat, chunks: done as nat, file: name_v },
            ] + cs.map_values(|c: Seq<char>| IndexStepView::Embed { file: name_v, chunk: c })
                + steps_from(fv, (i + 1) as nat, (done + cs.len()) as nat));
        }
        done = done + chunks.len();
        i += 1;
        proof {
            assert(steps_view(out@) + steps_from(fv, i as nat, done as nat) =~= before
                + steps_from(fv, (i - 1) as nat, (done - cs.len()) as nat));
        }
    }
    let ghost before = steps_view(out@);
    out.push(IndexStep::Progress { done: n, total: n, chunks: done, file: to_string("done") });
    proof {
        assert(steps_view(out@) =~= before + steps_from(fv, i as nat, done as nat));
    }
    out
}

} // verus!
