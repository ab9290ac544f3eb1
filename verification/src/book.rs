//! The project data structure read from `book.ron` and the per-directory
//! `index.ron` description files.
//!
//! A project has a root directory holding `book.ron`, a source directory and
//! a site directory named by it, and a recursive [`index::Index`] describing
//! the source tree.

pub mod config;
pub mod index;
pub mod init;
pub mod walk;

use vstd::prelude::*;

use crate::book::config::BookRon;
use crate::book::index::Index;
use crate::path::{join_spec, join_str, parent_of, parent_spec};
use crate::text::{chars_to_string, str_to_chars};
use crate::vfs::FsCatalog;

verus! {

/// Error while locating a project root.
#[derive(Debug, Clone)]
pub enum BookLoadError {
    /// The given path is not a directory.
    GivenNonDirectoryPath,
    /// No ancestor of the given directory holds `book.ron`.
    NotFoundRoot,
}

/// File structure of a project read from `book.ron` and `index.ron`s.
#[derive(Debug)]
pub struct BookStructure {
    /// Canonical path of the directory holding `book.ron`.
    pub root: String,
    /// The configuration record of `book.ron`.
    pub book_ron: BookRon,
    /// The loaded source tree.
    pub index: Index,
}

impl BookStructure {
    /// Where the source files live.
    pub open spec fn src_dir_spec(self) -> Seq<char> {
        join_spec(self.root@, self.book_ron.src_dir@)
    }

    /// Where the site is assembled.
    pub open spec fn site_dir_spec(self) -> Seq<char> {
        join_spec(self.root@, self.book_ron.site_dir@)
    }

    /// The source directory: the configured name joined onto the root.
    pub fn src_dir_path(&self) -> (r: String)
        ensures
            r@ == self.src_dir_spec(),
    {
        join_str(&self.root, &self.book_ron.src_dir)
    }

    /// The site directory: the configured name joined onto the root.
    pub fn site_dir_path(&self) -> (r: String)
        ensures
            r@ == self.site_dir_spec(),
    {
        join_str(&self.root, &self.book_ron.site_dir)
    }
}

/// The nearest ancestor of `dir` (including `dir` itself) whose `book.ron`
/// exists, as the path of that `book.ron`.
pub open spec fn find_root_spec(dir: Seq<char>, fs: FsCatalog) -> Option<Seq<char>>
    decreases dir.len(),
    via find_root_spec_decreases
{
    let candidate = join_spec(dir, "book.ron"@);
    if fs.has_file(candidate) {
        Some(candidate)
    } else {
        match parent_spec(dir) {
            Some(parent) => find_root_spec(parent, fs),
            None => None,
        }
    }
}

/// Walks up from `path` and returns the first `book.ron` found, or says why
/// there is none: the path is no directory, or no ancestor has one.
pub fn find_root_book_ron(path: &String, fs: &FsCatalog) -> (r: Result<String, BookLoadError>)
    ensures
        match r {
            Ok(p) => fs.has_dir(path@) && find_root_spec(path@, *fs) == Some(p@),
            Err(e) => match e {
                BookLoadError::GivenNonDirectoryPath => !fs.has_dir(path@),
                BookLoadError::NotFoundRoot => fs.has_dir(path@) && find_root_spec(path@, *fs)
                    is None,
            },
        },
{
    if !fs.is_dir(path) {
        return Err(BookLoadError::GivenNonDirectoryPath);
    }
    let mut dir = str_to_chars(path.as_str());
    loop
        invariant
            fs.has_dir(path@),
            find_root_spec(dir@, *fs) == find_root_spec(path@, *fs),
        decreases dir@.len(),
    {
        let book_ron = {
            let b = str_to_chars("book.ron");
            let joined = crate::path::join_chars(&dir, &b);
            chars_to_string(&joined)
        };
        if fs.is_file(&book_ron) {
            return Ok(book_ron);
        }
        match parent_of(&dir) {
            Some(parent) => {
                proof {
                    assert(parent@.len() < dir@.len()) by {
                        lemma_parent_shorter(dir@);
                    }
                }
                dir = parent;
            },
            None => {
                return Err(BookLoadError::NotFoundRoot);
            },
        }
    }
}

#[via_fn]
proof fn find_root_spec_decreases(dir: Seq<char>, fs: FsCatalog) {
    if parent_spec(dir) is Some {
        lemma_parent_shorter(dir);
    }
}

/// A parent path is strictly shorter than its child.
proof fn lemma_parent_shorter(p: Seq<char>)
    requires
        parent_spec(p) is Some,
    ensures
        parent_spec(p).unwrap().len() < p.len(),
{
    crate::path::lemma_last_index_bound(p, '/');
    let slash = crate::path::last_index_of(p, '/');
    if slash == 0 {
        crate::path::lemma_last_index_char(p, '/');
        if p.len() == 1 {
            assert(p =~= seq!['/']);
        }
    }
}

} // verus!
