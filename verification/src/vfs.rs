//! The filesystem as a value.
//!
//! The shell walks the relevant directories once per build and hands the
//! crate this catalog: every regular file with its modification time and
//! opening line, and every directory with its parsed description record.
//! All decisions are then functions of the catalog, and their contracts can
//! quantify over it.

use vstd::prelude::*;

use crate::book::config::IndexRon;

verus! {

/// A file's modification time: seconds and nanoseconds of its timestamp.
/// Only equality of the two fields ever matters to the pipeline.
#[derive(Debug, Clone, Copy, PartialEq, Eq, Structural)]
pub struct Mtime {
    pub secs: u64,
    pub nanos: u32,
}

/// A regular file as the catalog saw it.
#[derive(Debug, Clone)]
pub struct FileRecord {
    /// Canonical path.
    pub path: String,
    /// Modification time when the catalog was taken.
    pub mtime: Mtime,
    /// The file's first line, used for titles; empty if unreadable.
    pub first_line: String,
}

/// What became of a directory's description file.
#[derive(Debug, Clone)]
pub enum IndexRonLoad {
    /// Read and parsed.
    Parsed(IndexRon),
    /// The file exists but could not be read; the message says why.
    ReadError(String),
    /// The file was read but could not be parsed; the message says why.
    ParseError(String),
}

/// A directory as the catalog saw it.
#[derive(Debug, Clone)]
pub struct DirRecord {
    /// Canonical path.
    pub path: String,
    /// The directory's description record, absent when it has none.
    pub index_ron: Option<IndexRonLoad>,
}

/// Everything the pipeline may ask of the filesystem, taken at one moment.
#[derive(Debug, Clone)]
pub struct FsCatalog {
    pub files: Vec<FileRecord>,
    pub dirs: Vec<DirRecord>,
}

/// The first record in `files` whose path is `p`.
pub open spec fn first_file_match(files: Seq<FileRecord>, p: Seq<char>) -> Option<FileRecord>
    decreases files.len(),
{
    if files.len() == 0 {
        None
    } else if files[0].path@ == p {
        Some(files[0])
    } else {
        first_file_match(files.drop_first(), p)
    }
}

/// The first record in `dirs` whose path is `p`.
pub open spec fn first_dir_match(dirs: Seq<DirRecord>, p: Seq<char>) -> Option<DirRecord>
    decreases dirs.len(),
{
    if dirs.len() == 0 {
        None
    } else if dirs[0].path@ == p {
        Some(dirs[0])
    } else {
        first_dir_match(dirs.drop_first(), p)
    }
}

proof fn lemma_first_file_match_skip(files: Seq<FileRecord>, p: Seq<char>, i: int)
    requires
        0 <= i <= files.len(),
        forall|k: int| 0 <= k < i ==> files[k].path@ != p,
    ensures
        first_file_match(files, p) == first_file_match(files.skip(i), p),
    decreases i,
{
    if i == 0 {
        assert(files.skip(0) =~= files);
    } else {
        assert(files[0].path@ != p);
        lemma_first_file_match_skip(files.drop_first(), p, i - 1);
        assert(files.drop_first().skip(i - 1) =~= files.skip(i));
    }
}

proof fn lemma_first_dir_match_skip(dirs: Seq<DirRecord>, p: Seq<char>, i: int)
    requires
        0 <= i <= dirs.len(),
        forall|k: int| 0 <= k < i ==> dirs[k].path@ != p,
    ensures
        first_dir_match(dirs, p) == first_dir_match(dirs.skip(i), p),
    decreases i,
{
    if i == 0 {
        assert(dirs.skip(0) =~= dirs);
    } else {
        assert(dirs[0].path@ != p);
        lemma_first_dir_match_skip(dirs.drop_first(), p, i - 1);
        assert(dirs.drop_first().skip(i - 1) =~= dirs.skip(i));
    }
}

pub broadcast proof fn lemma_first_file_match_exists(files: Seq<FileRecord>, p: Seq<char>)
    ensures
        (#[trigger] first_file_match(files, p)) is Some <==> exists|i: int|
            0 <= i < files.len() && files[i].path@ == p,
    decreases files.len(),
{
    if files.len() > 0 {
        lemma_first_file_match_exists(files.drop_first(), p);
        if files[0].path@ != p {
            if exists|i: int| 0 <= i < files.len() && files[i].path@ == p {
                let i = choose|i: int| 0 <= i < files.len() && files[i].path@ == p;
                assert(files.drop_first()[i - 1].path@ == p);
            }
        }
    }
}

pub broadcast proof fn lemma_first_dir_match_exists(dirs: Seq<DirRecord>, p: Seq<char>)
    ensures
        (#[trigger] first_dir_match(dirs, p)) is Some <==> exists|i: int|
            0 <= i < dirs.len() && dirs[i].path@ == p,
    decreases dirs.len(),
{
    if dirs.len() > 0 {
        lemma_first_dir_match_exists(dirs.drop_first(), p);
        if dirs[0].path@ != p {
            if exists|i: int| 0 <= i < dirs.len() && dirs[i].path@ == p {
                let i = choose|i: int| 0 <= i < dirs.len() && dirs[i].path@ == p;
                assert(dirs.drop_first()[i - 1].path@ == p);
            }
        }
    }
}

impl FsCatalog {
    /// A regular file exists at `p`.
    pub open spec fn has_file(self, p: Seq<char>) -> bool {
        first_file_match(self.files@, p) is Some
    }

    /// A directory exists at `p`.
    pub open spec fn has_dir(self, p: Seq<char>) -> bool {
        first_dir_match(self.dirs@, p) is Some
    }

    /// Something exists at `p`.
    pub open spec fn has_entry(self, p: Seq<char>) -> bool {
        self.has_file(p) || self.has_dir(p)
    }

    /// The record of the file at `p`.
    pub open spec fn file_at(self, p: Seq<char>) -> FileRecord
        recommends
            self.has_file(p),
    {
        first_file_match(self.files@, p).unwrap()
    }

    /// The record of the directory at `p`.
    pub open spec fn dir_at(self, p: Seq<char>) -> DirRecord
        recommends
            self.has_dir(p),
    {
        first_dir_match(self.dirs@, p).unwrap()
    }

    /// Look up the file at `p`.
    pub fn find_file(&self, p: &String) -> (r: Option<&FileRecord>)
        ensures
            match r {
                Some(rec) => self.has_file(p@) && *rec == self.file_at(p@),
                None => !self.has_file(p@),
            },
    {
        let mut i: usize = 0;
        while i < self.files.len()
            invariant
                i <= self.files@.len(),
                forall|k: int| 0 <= k < i ==> self.files@[k].path@ != p@,
            decreases self.files@.len() - i,
        {
            if self.files[i].path == *p {
                proof {
                    lemma_first_file_match_skip(self.files@, p@, i as int);
                    assert(self.files@.skip(i as int)[0] == self.files@[i as int]);
                }
                return Some(&self.files[i]);
            }
            i += 1;
        }
        proof {
            lemma_first_file_match_skip(self.files@, p@, i as int);
            assert(self.files@.skip(i as int) =~= Seq::<FileRecord>::empty());
        }
        None
    }

    /// Look up the directory at `p`.
    pub fn find_dir(&self, p: &String) -> (r: Option<&DirRecord>)
        ensures
            match r {
                Some(rec) => self.has_dir(p@) && *rec == self.dir_at(p@),
                None => !self.has_dir(p@),
            },
    {
        let mut i: usize = 0;
        while i < self.dirs.len()
            invariant
                i <= self.dirs@.len(),
                forall|k: int| 0 <= k < i ==> self.dirs@[k].path@ != p@,
            decreases self.dirs@.len() - i,
        {
            if self.dirs[i].path == *p {
                proof {
                    lemma_first_dir_match_skip(self.dirs@, p@, i as int);
                    assert(self.dirs@.skip(i as int)[0] == self.dirs@[i as int]);
                }
                return Some(&self.dirs[i]);
            }
            i += 1;
        }
        proof {
            lemma_first_dir_match_skip(self.dirs@, p@, i as int);
            assert(self.dirs@.skip(i as int) =~= Seq::<DirRecord>::empty());
        }
        None
    }

    /// Is there a regular file at `p`?
    pub fn is_file(&self, p: &String) -> (r: bool)
        ensures
            r == self.has_file(p@),
    {
        self.find_file(p).is_some()
    }

    /// Is there a directory at `p`?
    pub fn is_dir(&self, p: &String) -> (r: bool)
        ensures
            r == self.has_dir(p@),
    {
        self.find_dir(p).is_some()
    }
}

} // verus!
