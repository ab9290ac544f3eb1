//! Skip rendering a file when it has not changed since the last build.
//!
//! A build takes one snapshot of every source file's modification time
//! ([`CacheIndexData`]) and diffs it against the snapshot persisted by the
//! previous build ([`CacheIndexDiff`]). A file needs building exactly when
//! there is no previous snapshot, the file is new, or its recorded
//! modification time differs in any direction; content is never hashed.
//! After a completed build the whole new snapshot replaces the old one.
//!
//! The cache lives under a hidden directory at the project root: an index
//! file with the snapshot, and a mirror directory `a` holding the previous
//! build's rendered files. Reading and writing them is the shell's work.

use vstd::prelude::*;

use crate::book::BookStructure;
use crate::path::{is_relative, is_relative_spec, join_spec, join_str, strip_prefix, strip_prefix_spec};
use crate::text::{chars_to_string, str_to_chars};
use crate::vfs::{FileRecord, FsCatalog, Mtime};

verus! {

/// One snapshot record: a file and the modification time it had.
#[derive(Debug)]
pub struct CacheIndexEntry {
    /// Modification time when the snapshot was taken.
    pub last_modified: Mtime,
    /// Path relative to the source directory.
    pub path: String,
}

impl Clone for CacheIndexEntry {
    fn clone(&self) -> (r: Self)
        ensures
            r.path@ == self.path@,
            r.last_modified == self.last_modified,
    {
        CacheIndexEntry { last_modified: self.last_modified, path: self.path.clone() }
    }
}

/// A full snapshot: one entry per file under the source directory.
#[derive(Debug)]
pub struct CacheIndexData {
    pub entries: Vec<CacheIndexEntry>,
}

impl Clone for CacheIndexData {
    fn clone(&self) -> (r: Self)
        ensures
            entry_views(r.entries@) == entry_views(self.entries@),
    {
        let mut entries: Vec<CacheIndexEntry> = Vec::new();
        let mut i: usize = 0;
        while i < self.entries.len()
            invariant
                i <= self.entries@.len(),
                entry_views(entries@) == entry_views(self.entries@).subrange(0, i as int),
            decreases self.entries@.len() - i,
        {
            let ghost pre = entries@;
            entries.push(self.entries[i].clone());
            i += 1;
            proof {
                lemma_entry_views_push(pre, entries@.last());
                assert(entry_views(entries@) =~= entry_views(self.entries@).subrange(
                    0,
                    i as int,
                ));
            }
        }
        proof {
            assert(entry_views(entries@) =~= entry_views(self.entries@));
        }
        CacheIndexData { entries }
    }
}

/// The (path, modification time) pairs of a snapshot's entries.
pub open spec fn entry_views(entries: Seq<CacheIndexEntry>) -> Seq<(Seq<char>, Mtime)> {
    entries.map_values(|e: CacheIndexEntry| (e.path@, e.last_modified))
}

/// The modification time the snapshot's first entry for `rel` records.
pub open spec fn find_mtime(entries: Seq<CacheIndexEntry>, rel: Seq<char>) -> Option<Mtime>
    decreases entries.len(),
{
    if entries.len() == 0 {
        None
    } else if entries[0].path@ == rel {
        Some(entries[0].last_modified)
    } else {
        find_mtime(entries.drop_first(), rel)
    }
}

proof fn lemma_find_mtime_skip(entries: Seq<CacheIndexEntry>, rel: Seq<char>, i: int)
    requires
        0 <= i <= entries.len(),
        forall|k: int| 0 <= k < i ==> entries[k].path@ != rel,
    ensures
        find_mtime(entries, rel) == find_mtime(entries.skip(i), rel),
    decreases i,
{
    if i == 0 {
        assert(entries.skip(0) =~= entries);
    } else {
        assert(entries[0].path@ != rel);
        lemma_find_mtime_skip(entries.drop_first(), rel, i - 1);
        assert(entries.drop_first().skip(i - 1) =~= entries.skip(i));
    }
}

/// The files of the catalog that lie under `src_dir`, as snapshot records:
/// their paths relative to `src_dir`, with their modification times, in
/// catalog order.
pub open spec fn snapshot_spec(files: Seq<FileRecord>, src_dir: Seq<char>) -> Seq<
    (Seq<char>, Mtime),
>
    decreases files.len(),
{
    if files.len() == 0 {
        Seq::empty()
    } else {
        let rest = snapshot_spec(files.drop_first(), src_dir);
        match strip_prefix_spec(files[0].path@, src_dir) {
            Some(rel) => seq![(rel, files[0].mtime)] + rest,
            None => rest,
        }
    }
}

impl CacheIndexData {
    /// A snapshot with no entries.
    pub fn empty() -> (r: Self)
        ensures
            r.entries@.len() == 0,
    {
        Self { entries: Vec::new() }
    }

    /// Takes the snapshot of a build: every catalog file under the book's
    /// source directory, keyed by its relative path, with the modification
    /// time the catalog saw.
    pub fn create_new_cache(book: &BookStructure, fs: &FsCatalog) -> (r: Self)
        ensures
            entry_views(r.entries@) == snapshot_spec(fs.files@, book.src_dir_spec()),
    {
        let src_dir = book.src_dir_path();
        let src_chars = str_to_chars(src_dir.as_str());
        let mut entries: Vec<CacheIndexEntry> = Vec::new();
        let mut i: usize = 0;
        proof {
            assert(entry_views(entries@) =~= snapshot_spec(
                fs.files@.subrange(0, 0),
                book.src_dir_spec(),
            ));
        }
        while i < fs.files.len()
            invariant
                i <= fs.files@.len(),
                src_chars@ == book.src_dir_spec(),
                entry_views(entries@) == snapshot_spec(
                    fs.files@.subrange(0, i as int),
                    book.src_dir_spec(),
                ),
            decreases fs.files@.len() - i,
        {
            let file = &fs.files[i];
            let file_chars = str_to_chars(file.path.as_str());
            let ghost pre = entries@;
            let ghost prefix_old = fs.files@.subrange(0, i as int);
            let ghost one = seq![fs.files@[i as int]];
            proof {
                lemma_snapshot_append(prefix_old, one, book.src_dir_spec());
                assert(one.drop_first() =~= Seq::<FileRecord>::empty());
                assert(snapshot_spec(one.drop_first(), book.src_dir_spec()) == Seq::<
                    (Seq<char>, Mtime),
                >::empty());
            }
            match strip_prefix(&file_chars, &src_chars) {
                Some(rel) => {
                    let entry = CacheIndexEntry {
                        last_modified: file.mtime,
                        path: chars_to_string(&rel),
                    };
                    entries.push(entry);
                    proof {
                        lemma_entry_views_push(pre, entries@.last());
                        assert(snapshot_spec(one, book.src_dir_spec()) =~= seq![
                            (rel@, file.mtime),
                        ]);
                        assert(entry_views(entries@) =~= snapshot_spec(
                            prefix_old + one,
                            book.src_dir_spec(),
                        ));
                    }
                },
                None => {
                    proof {
                        assert(snapshot_spec(one, book.src_dir_spec()) =~= Seq::<
                            (Seq<char>, Mtime),
                        >::empty());
                        assert(entry_views(entries@) =~= snapshot_spec(
                            prefix_old + one,
                            book.src_dir_spec(),
                        ));
                    }
                },
            }
            i += 1;
            proof {
                assert(fs.files@.subrange(0, i as int) =~= prefix_old + one);
            }
        }
        proof {
            assert(fs.files@.subrange(0, fs.files@.len() as int) =~= fs.files@);
        }
        CacheIndexData { entries }
    }

    /// The first entry recorded for `rel_path`, if one is.
    pub fn find_cache(&self, rel_path: &String) -> (r: Option<&CacheIndexEntry>)
        ensures
            match r {
                Some(e) => find_mtime(self.entries@, rel_path@) == Some(e.last_modified) && e.path@
                    == rel_path@,
                None => find_mtime(self.entries@, rel_path@) is None,
            },
    {
        let mut i: usize = 0;
        while i < self.entries.len()
            invariant
                i <= self.entries@.len(),
                forall|k: int| 0 <= k < i ==> self.entries@[k].path@ != rel_path@,
            decreases self.entries@.len() - i,
        {
            if self.entries[i].path == *rel_path {
                proof {
                    lemma_find_mtime_skip(self.entries@, rel_path@, i as int);
                    assert(self.entries@.skip(i as int)[0] == self.entries@[i as int]);
                }
                return Some(&self.entries[i]);
            }
            i += 1;
        }
        proof {
            lemma_find_mtime_skip(self.entries@, rel_path@, i as int);
            assert(self.entries@.skip(i as int) =~= Seq::<CacheIndexEntry>::empty());
        }
        None
    }
}

/// Snapshots distribute over concatenation of file lists.
proof fn lemma_snapshot_append(a: Seq<FileRecord>, b: Seq<FileRecord>, src_dir: Seq<char>)
    ensures
        snapshot_spec(a + b, src_dir) == snapshot_spec(a, src_dir) + snapshot_spec(b, src_dir),
    decreases a.len(),
{
    if a.len() == 0 {
        assert(a + b =~= b);
        assert(snapshot_spec(a, src_dir) + snapshot_spec(b, src_dir) =~= snapshot_spec(
            b,
            src_dir,
        ));
    } else {
        assert((a + b).drop_first() =~= a.drop_first() + b);
        assert((a + b)[0] == a[0]);
        lemma_snapshot_append(a.drop_first(), b, src_dir);
        match strip_prefix_spec(a[0].path@, src_dir) {
            Some(rel) => {
                assert(snapshot_spec(a + b, src_dir) =~= snapshot_spec(a, src_dir)
                    + snapshot_spec(b, src_dir));
            },
            None => {
            },
        }
    }
}

/// Appending one entry appends its record.
proof fn lemma_entry_views_push(entries: Seq<CacheIndexEntry>, e: CacheIndexEntry)
    ensures
        entry_views(entries.push(e)) =~= entry_views(entries).push((e.path@, e.last_modified)),
{
}

impl Default for CacheIndexData {
    /// The empty snapshot.
    fn default() -> (r: Self)
        ensures
            r.entries@.len() == 0,
    {
        Self { entries: Vec::new() }
    }
}

/// A previous snapshot (absent on a first or forced build) paired with the
/// snapshot just taken. The staleness predicate reads both.
#[derive(Debug, Clone)]
pub struct CacheIndexDiff {
    /// What the last completed build recorded; `None` forces everything.
    pub old: Option<CacheIndexData>,
    /// What the source tree looks like now.
    pub new: CacheIndexData,
}

/// The relative path `src_path` has under the book's source directory: a
/// relative path stands as it is, an absolute one is stripped of the source
/// directory prefix.
pub open spec fn rel_in_src_spec(book: BookStructure, p: Seq<char>) -> Option<Seq<char>> {
    if is_relative_spec(p) {
        Some(p)
    } else {
        strip_prefix_spec(p, book.src_dir_spec())
    }
}

/// A file needs building when there is no previous snapshot, the previous
/// snapshot does not know the path, or the recorded modification times
/// differ in any direction.
pub open spec fn need_build_spec(
    old_data: Option<CacheIndexData>,
    new_data: CacheIndexData,
    rel: Seq<char>,
) -> bool {
    match old_data {
        None => true,
        Some(o) => match find_mtime(o.entries@, rel) {
            None => true,
            Some(m) => find_mtime(new_data.entries@, rel) != Some(m),
        },
    }
}

impl CacheIndexDiff {
    /// Pairs the snapshot just taken from the catalog with what the previous
    /// build recorded.
    pub fn create(book: &BookStructure, fs: &FsCatalog, old_cache: Option<CacheIndexData>) -> (r:
        Self)
        ensures
            r.old == old_cache,
            entry_views(r.new.entries@) == snapshot_spec(fs.files@, book.src_dir_spec()),
    {
        let now = CacheIndexData::create_new_cache(book, fs);
        Self { old: old_cache, new: now }
    }

    /// The snapshot to persist once the build completes: the current one,
    /// whole; never a merge with the old one.
    pub fn into_new_cache_data(self) -> (r: CacheIndexData)
        ensures
            r == self.new,
    {
        self.new
    }

    /// Does `src_path` need to be rendered this build? `src_path` is either
    /// relative to the source directory or absolute beneath it, and must be
    /// a file the current snapshot tracks.
    pub fn need_build(&self, book: &BookStructure, src_path: &String) -> (r: bool)
        requires
            rel_in_src_spec(*book, src_path@) is Some,
            find_mtime(self.new.entries@, rel_in_src_spec(*book, src_path@).unwrap()) is Some,
        ensures
            r == need_build_spec(self.old, self.new, rel_in_src_spec(*book, src_path@).unwrap()),
    {
        let chars = str_to_chars(src_path.as_str());
        let rel_path: String = if !is_relative(&chars) {
            let src_dir = book.src_dir_path();
            let src_chars = str_to_chars(src_dir.as_str());
            let rel = strip_prefix(&chars, &src_chars).unwrap();
            chars_to_string(&rel)
        } else {
            chars_to_string(&chars)
        };

        let current_entry = self.new.find_cache(&rel_path).unwrap();
        let current = current_entry.last_modified;

        match &self.old {
            None => true,
            Some(last) => match last.find_cache(&rel_path) {
                None => true,
                Some(e) => e.last_modified != current,
            },
        }
    }
}

/// On a first build, with no previous snapshot, every file needs building.
pub proof fn lemma_need_build_first_build(new_data: CacheIndexData, rel: Seq<char>)
    ensures
        need_build_spec(None, new_data, rel),
{
}

/// On a build repeated immediately, when the previous snapshot equals the
/// current one, no tracked file needs building.
pub proof fn lemma_need_build_repeat(data: CacheIndexData, rel: Seq<char>)
    requires
        find_mtime(data.entries@, rel) is Some,
    ensures
        !need_build_spec(Some(data), data, rel),
{
}

/// A modification-time difference alone forces a rebuild: staleness never
/// looks at content.
pub proof fn lemma_need_build_mtime_change(
    old_data: CacheIndexData,
    new_data: CacheIndexData,
    rel: Seq<char>,
)
    requires
        find_mtime(old_data.entries@, rel) is Some,
        find_mtime(new_data.entries@, rel) is Some,
        find_mtime(old_data.entries@, rel) != find_mtime(new_data.entries@, rel),
    ensures
        need_build_spec(Some(old_data), new_data, rel),
{
}

/// The persisted index and artifact mirror both live here.
#[derive(Debug, Clone)]
pub struct CacheIndex {
    pub cache: CacheIndexData,
}

impl CacheIndex {
    /// The hidden cache directory at the project root.
    pub fn locate_root(book: &BookStructure) -> (r: String)
        ensures
            r@ == join_spec(book.root@, ".adbook-cache/"@),
    {
        let name: String = String::from_str(".adbook-cache/");
        join_str(&book.root, &name)
    }

    /// The persisted snapshot file inside the cache directory.
    pub fn locate_index(book: &BookStructure) -> (r: String)
        ensures
            r@ == join_spec(join_spec(book.root@, ".adbook-cache/"@), "index"@),
    {
        let root = Self::locate_root(book);
        let name: String = String::from_str("index");
        join_str(&root, &name)
    }

    /// An index that knows nothing: everything will be rendered.
    pub fn empty() -> (r: Self)
        ensures
            r.cache.entries@.len() == 0,
    {
        Self { cache: CacheIndexData::empty() }
    }

    /// Takes the current snapshot and pairs it with this index's record. An
    /// index without entries counts as no previous snapshot.
    pub fn create_diff(&self, book: &BookStructure, fs: &FsCatalog) -> (r: CacheIndexDiff)
        ensures
            entry_views(r.new.entries@) == snapshot_spec(fs.files@, book.src_dir_spec()),
            self.cache.entries@.len() == 0 ==> r.old is None,
            self.cache.entries@.len() > 0 ==> r.old is Some && entry_views(
                r.old.unwrap().entries@,
            ) == entry_views(self.cache.entries@),
    {
        if self.cache.entries.len() == 0 {
            CacheIndexDiff::create(book, fs, None)
        } else {
            CacheIndexDiff::create(book, fs, Some(self.cache.clone()))
        }
    }

    /// The artifact mirror inside the cache directory: the previous build's
    /// rendered files, at their relative paths.
    pub fn locate_cache_dir(book: &BookStructure) -> (r: String)
        ensures
            r@ == join_spec(join_spec(book.root@, ".adbook-cache/"@), "a"@),
    {
        let root = Self::locate_root(book);
        let name: String = String::from_str("a");
        join_str(&root, &name)
    }
}

} // verus!

verus! {

/// Snapshots with the same records agree on every lookup.
pub proof fn lemma_find_mtime_from_views(a: Seq<CacheIndexEntry>, b: Seq<CacheIndexEntry>, rel: Seq<char>)
    requires
        entry_views(a) == entry_views(b),
    ensures
        find_mtime(a, rel) == find_mtime(b, rel),
    decreases a.len(),
{
    assert(entry_views(a).len() == a.len());
    assert(entry_views(b).len() == b.len());
    assert(a.len() == b.len());
    if a.len() > 0 {
        assert(entry_views(a)[0] == entry_views(b)[0]);
        assert(a[0].path@ == b[0].path@ && a[0].last_modified == b[0].last_modified);
        assert(entry_views(a.drop_first()) =~= entry_views(b.drop_first())) by {
            assert(forall|k: int|
                0 <= k < a.len() - 1 ==> entry_views(a.drop_first())[k] == entry_views(a)[k + 1]
                    && entry_views(b.drop_first())[k] == entry_views(b)[k + 1]);
        }
        lemma_find_mtime_from_views(a.drop_first(), b.drop_first(), rel);
    }
}

} // verus!
