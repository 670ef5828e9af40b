//! What was known of each indexed file, to tell which files changed.
//!
//! The store keeps its entries in a vector in which no path occurs twice;
//! its view is the map from path to entry.
use crate::text::{chars_of, seq_eq, to_string};
use std::collections::hash_map::DefaultHasher;
use std::hash::{Hash, Hasher};
use vstd::std_specs::hash::DefaultHasherAdditionalSpecFns;
use vstd::prelude::*;

verus! {

/// What was recorded of a file when it was indexed.
#[derive(Debug, Clone)]
pub struct FileMetadata {
    pub path: String,
    pub mtime: u64,
    pub size: u64,
    pub hash: u64,
    pub indexed_at: u64,
}

/// What the file system says of a file now: its modification time in
/// seconds since the epoch (0 when unknown) and its size in bytes.
#[derive(Debug, Clone, Copy, PartialEq, Eq, Structural)]
pub struct FileStat {
    pub mtime: u64,
    pub size: u64,
}

/// What `str::hash` writes into a hasher for the text `s`.
pub uninterp spec fn str_hash_writes(s: Seq<char>) -> Seq<Seq<u8>>;

/// `<str as Hash>::hash` into `hasher`: it appends the writes that hashing
/// the text makes, which depend on the text alone and are named by
/// [`str_hash_writes`].
#[verifier::external_body]
fn hash_str(content: &str, hasher: &mut DefaultHasher)
    ensures
        final(hasher)@ == old(hasher)@ + str_hash_writes(content@),
{
    content.hash(hasher)
}

/// The hash of a file's text: what a fresh `DefaultHasher` finishes with
/// after the text is hashed into it.
pub open spec fn content_hash(s: Seq<char>) -> u64 {
    DefaultHasher::spec_finish(str_hash_writes(s))
}

/// A file changed since it was recorded when it can no longer be examined,
/// was modified later, or has another size.
pub open spec fn changed_since(meta: FileMetadata, now: Option<FileStat>) -> bool {
    match now {
        None => true,
        Some(s) => s.mtime > meta.mtime || s.size != meta.size,
    }
}

impl FileMetadata {
    /// The entry for a file with the given text, file-system facts and
    /// indexing time.
    pub fn from_observed(path: &str, content: &str, stat: Option<FileStat>, indexed_at: u64) -> (m:
        FileMetadata)
        ensures
            m.path@ == path@,
            m.mtime == match stat {
                Some(s) => s.mtime,
                None => 0,
            },
            m.size == match stat {
                Some(s) => s.size,
                None => 0,
            },
            m.hash == content_hash(content@),
            m.indexed_at == indexed_at,
    {
        let (mtime, size) = match stat {
            Some(s) => (s.mtime, s.size),
            None => (0, 0),
        };
        FileMetadata {
            path: to_string(path),
            mtime,
            size,
            hash: Self::compute_hash(content),
            indexed_at,
        }
    }

    fn compute_hash(content: &str) -> (h: u64)
        ensures
            h == content_hash(content@),
    {
        let mut hasher = DefaultHasher::new();
        hash_str(content, &mut hasher);
        assert(hasher@ =~= str_hash_writes(content@));
        hasher.finish()
    }

    /// Whether the file must be indexed again, given what the file system
    /// says of it now (`None` when it cannot be examined).
    pub fn needs_reindex(&self, now: Option<FileStat>) -> (r: bool)
        ensures
            r == changed_since(*self, now),
    {
        match now {
            None => true,
            Some(s) => s.mtime > self.mtime || s.size != self.size,
        }
    }
}

/// The entries, as a map from path to entry (a later entry wins).
pub open spec fn map_of(files: Seq<FileMetadata>) -> Map<Seq<char>, FileMetadata>
    decreases files.len(),
{
    if files.len() == 0 {
        Map::empty()
    } else {
        map_of(files.drop_last()).insert(files.last().path@, files.last())
    }
}

/// No path occurs twice.
pub open spec fn unique_paths(files: Seq<FileMetadata>) -> bool {
    forall|i: int, j: int|
        0 <= i < j < files.len() ==> (#[trigger] files[i]).path@ != (#[trigger] files[j]).path@
}

pub proof fn lemma_map_of_dom(files: Seq<FileMetadata>, p: Seq<char>)
    ensures
        map_of(files).dom().contains(p) <==> exists|i: int| 0 <= i < files.len() && (#[trigger] files[i]).path@ == p,
    decreases files.len(),
{
    if files.len() > 0 {
        lemma_map_of_dom(files.drop_last(), p);
        if map_of(files).dom().contains(p) && p != files.last().path@ {
            let i = choose|i: int| 0 <= i < files.drop_last().len() && (#[trigger] files.drop_last()[i]).path@ == p;
            assert(files[i] == files.drop_last()[i]);
        }
        if exists|i: int| 0 <= i < files.len() && (#[trigger] files[i]).path@ == p {
            let i = choose|i: int| 0 <= i < files.len() && (#[trigger] files[i]).path@ == p;
            if i < files.len() - 1 {
                assert(files.drop_last()[i] == files[i]);
            }
        }
    }
}

pub proof fn lemma_map_of_at(files: Seq<FileMetadata>, i: int)
    requires
        unique_paths(files),
        0 <= i < files.len(),
    ensures
        map_of(files).dom().contains(files[i].path@),
        map_of(files)[files[i].path@] == files[i],
    decreases files.len(),
{
    if i < files.len() - 1 {
        assert(files.drop_last()[i] == files[i]);
        lemma_map_of_at(files.drop_last(), i);
        assert(files[i].path@ != files.last().path@);
    }
}

proof fn lemma_map_of_update(files: Seq<FileMetadata>, i: int, m: FileMetadata)
    requires
        unique_paths(files),
        0 <= i < files.len(),
        m.path@ == files[i].path@,
    ensures
        map_of(files.update(i, m)) =~= map_of(files).insert(m.path@, m),
    decreases files.len(),
{
    let u = files.update(i, m);
    if i == files.len() - 1 {
        assert(u.drop_last() =~= files.drop_last());
    } else {
        assert(u.drop_last() =~= files.drop_last().update(i, m));
        lemma_map_of_update(files.drop_last(), i, m);
        assert(files[i].path@ != files.last().path@);
    }
}

proof fn lemma_map_of_remove(files: Seq<FileMetadata>, i: int)
    requires
        unique_paths(files),
        0 <= i < files.len(),
    ensures
        map_of(files.remove(i)) =~= map_of(files).remove(files[i].path@),
    decreases files.len(),
{
    let r = files.remove(i);
    if i == files.len() - 1 {
        assert(r =~= files.drop_last());
        lemma_map_of_dom(files.drop_last(), files[i].path@);
    } else {
        assert(r.drop_last() =~= files.drop_last().remove(i));
        assert(r.last() == files.last());
        lemma_map_of_remove(files.drop_last(), i);
        assert(files[i].path@ != files.last().path@);
    }
}

/// The entries whose paths are in `keep`.
pub open spec fn kept(files: Seq<FileMetadata>, keep: Set<Seq<char>>) -> Seq<FileMetadata> {
    files.filter(|m: FileMetadata| keep.contains(m.path@))
}

proof fn lemma_map_of_kept(files: Seq<FileMetadata>, keep: Set<Seq<char>>)
    requires
        unique_paths(files),
    ensures
        map_of(kept(files, keep)) =~= map_of(files).restrict(keep),
        unique_paths(kept(files, keep)),
    decreases files.len(),
{
    reveal(Seq::filter);
    if files.len() == 0 {
        assert(map_of(kept(files, keep)) =~= map_of(files).restrict(keep));
    } else {
        let d = files.drop_last();
        lemma_map_of_kept(d, keep);
        let pred = |m: FileMetadata| keep.contains(m.path@);
        assert(kept(files, keep) == if pred(files.last()) {
            kept(d, keep).push(files.last())
        } else {
            kept(d, keep)
        });
        lemma_map_of_dom(d, files.last().path@);
        assert(!map_of(d).dom().contains(files.last().path@)) by {
            if map_of(d).dom().contains(files.last().path@) {
                let i = choose|i: int| 0 <= i < d.len() && (#[trigger] d[i]).path@ == files.last().path@;
                assert(files[i] == d[i]);
            }
        }
        if pred(files.last()) {
            assert(kept(d, keep).push(files.last()).drop_last() =~= kept(d, keep));
            assert(map_of(kept(files, keep)) =~= map_of(files).restrict(keep));
            let k = kept(d, keep);
            assert forall|a: int, b: int| 0 <= a < b < k.push(files.last()).len() implies (
            #[trigger] k.push(files.last())[a]).path@ != (#[trigger] k.push(files.last())[b]).path@ by {
                if b == k.len() {
                    lemma_map_of_dom(k, k[a].path@);
                    assert(k[a] == k.push(files.last())[a]);
                    assert(map_of(k).dom().contains(k[a].path@));
                }
            }
        } else {
            assert(map_of(kept(files, keep)) =~= map_of(files).restrict(keep));
        }
    }
}

/// Which files were indexed, and what was recorded of each.
#[derive(Debug, Clone)]
pub struct MetadataStore {
    pub files: Vec<FileMetadata>,
    pub version: u32,
}

impl View for MetadataStore {
    type V = Map<Seq<char>, FileMetadata>;

    open spec fn view(&self) -> Map<Seq<char>, FileMetadata> {
        map_of(self.files@)
    }
}

impl MetadataStore {
    /// No path occurs twice among the entries.
    pub open spec fn wf(&self) -> bool {
        unique_paths(self.files@)
    }

    pub fn new() -> (s: MetadataStore)
        ensures
            s.wf(),
            s@ == Map::<Seq<char>, FileMetadata>::empty(),
            s.version == 1,
    {
        MetadataStore { files: Vec::new(), version: 1 }
    }

    /// Index of the entry for `path`.
    fn find(&self, path: &Vec<char>) -> (r: Option<usize>)
        ensures
            match r {
                Some(i) => i < self.files@.len() && self.files@[i as int].path@ == path@,
                None => forall|i: int| 0 <= i < self.files@.len() ==> (#[trigger] self.files@[i]).path@ != path@,
            },
    {
        let mut i: usize = 0;
        while i < self.files.len()
            invariant
                i <= self.files@.len(),
                forall|j: int| 0 <= j < i ==> (#[trigger] self.files@[j]).path@ != path@,
            decreases self.files@.len() - i,
        {
            let p = chars_of(self.files[i].path.as_str());
            if seq_eq(&p, path) {
                return Some(i);
            }
            i += 1;
        }
        None
    }

    /// Records `metadata`, replacing the entry for its path.
    pub fn update(&mut self, metadata: FileMetadata)
        requires
            old(self).wf(),
        ensures
            final(self).wf(),
            final(self)@ == old(self)@.insert(metadata.path@, metadata),
            final(self).version == old(self).version,
    {
        let p = chars_of(metadata.path.as_str());
        match self.find(&p) {
            Some(i) => {
                proof {
                    lemma_map_of_update(self.files@, i as int, metadata);
                }
                let ghost before = self.files@;
                self.files.set(i, metadata);
                assert(self.files@ == before.update(i as int, metadata));
            },
            None => {
                let ghost before = self.files@;
                self.files.push(metadata);
                assert(self.files@.drop_last() =~= before);
            },
        }
    }

    /// Forgets the entry for `path`.
    pub fn remove(&mut self, path: &str)
        requires
            old(self).wf(),
        ensures
            final(self).wf(),
            final(self)@ == old(self)@.remove(path@),
            final(self).version == old(self).version,
    {
        let p = chars_of(path);
        match self.find(&p) {
            Some(i) => {
                proof {
                    lemma_map_of_remove(self.files@, i as int);
                }
                let ghost before = self.files@;
                self.files.remove(i);
                assert(self.files@ == before.remove(i as int));
                assert(unique_paths(self.files@)) by {
                    assert forall|a: int, b: int| 0 <= a < b < self.files@.len() implies (
                    #[trigger] self.files@[a]).path@ != (#[trigger] self.files@[b]).path@ by {
                        let a0 = if a < i { a } else { a + 1 };
                        let b0 = if b < i { b } else { b + 1 };
                        assert(self.files@[a] == before[a0]);
                        assert(self.files@[b] == before[b0]);
                    }
                }
            },
            None => {
                proof {
                    lemma_map_of_dom(self.files@, path@);
                    assert(self@ =~= self@.remove(path@));
                }
            },
        }
    }

    /// The entry for `path`.
    pub fn get(&self, path: &str) -> (r: Option<&FileMetadata>)
        requires
            self.wf(),
        ensures
            r is Some <==> self@.dom().contains(path@),
            r matches Some(m) ==> *m == self@[path@],
    {
        let p = chars_of(path);
        proof {
            lemma_map_of_dom(self.files@, path@);
        }
        match self.find(&p) {
            Some(i) => {
                proof {
                    lemma_map_of_at(self.files@, i as int);
                }
                Some(&self.files[i])
            },
            None => None,
        }
    }

    /// Whether the file at `path` must be indexed again: it has no entry,
    /// or it changed since its entry was recorded.
    pub fn needs_reindex(&self, path: &str, now: Option<FileStat>) -> (r: bool)
        requires
            self.wf(),
        ensures
            r == (!self@.dom().contains(path@) || changed_since(self@[path@], now)),
    {
        match self.get(path) {
            Some(meta) => meta.needs_reindex(now),
            None => true,
        }
    }

    /// Keeps only the entries of the paths that still exist.
    pub fn cleanup_removed(&mut self, existing_paths: &[String])
        requires
            old(self).wf(),
        ensures
            final(self).wf(),
            final(self)@ == old(self)@.restrict(existing_paths@.map_values(|s: String| s@).to_set()),
            final(self).version == old(self).version,
    {
        let ghost keep = existing_paths@.map_values(|s: String| s@).to_set();
        let ghost pred = |m: FileMetadata| keep.contains(m.path@);
        let mut out: Vec<FileMetadata> = Vec::new();
        let mut i: usize = 0;
        assert(self.files@.take(0).filter(pred) =~= Seq::<FileMetadata>::empty()) by {
            reveal(Seq::filter);
        }
        while i < self.files.len()
            invariant
                i <= self.files@.len(),
                keep == existing_paths@.map_values(|s: String| s@).to_set(),
                pred == (|m: FileMetadata| keep.contains(m.path@)),
                out@ == self.files@.take(i as int).filter(pred),
            decreases self.files@.len() - i,
        {
            let m = copy_of(&self.files[i]);
            let p = chars_of(m.path.as_str());
            let present = contains_path(existing_paths, &p);
            proof {
                reveal(Seq::filter);
                assert(self.files@.take(i + 1).drop_last() =~= self.files@.take(i as int));
            }
            if present {
                out.push(m);
            }
            i += 1;
        }
        assert(self.files@.take(self.files@.len() as int) =~= self.files@);
        proof {
            lemma_map_of_kept(self.files@, keep);
        }
        self.files = out;
    }
}

/// A copy of an entry.
fn copy_of(m: &FileMetadata) -> (r: FileMetadata)
    ensures
        r == *m,
{
    FileMetadata {
        path: m.path.clone(),
        mtime: m.mtime,
        size: m.size,
        hash: m.hash,
        indexed_at: m.indexed_at,
    }
}

/// Whether one of `paths` has the characters `p`.
fn contains_path(paths: &[String], p: &Vec<char>) -> (r: bool)
    ensures
        r == paths@.map_values(|s: String| s@).to_set().contains(p@),
{
    let ghost v = paths@.map_values(|s: String| s@);
    let mut i: usize = 0;
    while i < paths.len()
        invariant
            i <= paths@.len(),
            v == paths@.map_values(|s: String| s@),
            forall|j: int| 0 <= j < i ==> v[j] != p@,
        decreases paths@.len() - i,
    {
        let q = chars_of(paths[i].as_str());
        if seq_eq(&q, p) {
            assert(v[i as int] == p@);
            assert(v.to_set().contains(p@));
            return true;
        }
        i += 1;
    }
    assert(!v.to_set().contains(p@)) by {
        if v.to_set().contains(p@) {
            let j = choose|j: int| 0 <= j < v.len() && v[j] == p@;
        }
    }
    false
}

} // verus!
