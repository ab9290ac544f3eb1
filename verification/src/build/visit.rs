//! The book builder backed by the external converter.
//!
//! It decides, per source file, where the page goes and whether rendering
//! can be skipped; the shell renders and writes on those decisions.

use vstd::prelude::*;

use crate::book::BookStructure;
use crate::build::cache::{find_mtime, need_build_spec, rel_in_src_spec, CacheIndexDiff};
use crate::build::convert::adoc::AdocRunContext;
use crate::build::convert::hbs::HbsContext;
use crate::path::{join_spec, strip_prefix, strip_prefix_spec, with_extension, with_extension_spec};
use crate::text::{chars_to_string, str_to_chars};

verus! {

/// Where the page of `src_file` goes: only a source with the book's own
/// extension has one, at its relative location under `dst_dir` with the
/// page extension.
pub open spec fn dst_file_spec(src_dir: Seq<char>, dst_dir: Seq<char>, src_file: Seq<char>) -> Option<
    Seq<char>,
> {
    if crate::path::extension_spec(src_file) != Some("adoc"@) {
        None
    } else {
        match strip_prefix_spec(src_file, src_dir) {
            None => None,
            Some(rel) => Some(with_extension_spec(join_spec(dst_dir, rel), "html"@)),
        }
    }
}

/// Book builder based on the external converter.
#[derive(Debug)]
pub struct AdocBookBuilder<'a> {
    pub book: &'a BookStructure,
    /// The staleness diff of this build.
    pub cache_diff: CacheIndexDiff,
    /// Context to run the converter.
    pub acx: AdocRunContext,
    /// Context to build template input.
    pub hcx: HbsContext,
    /// Where the sources live.
    pub src_dir: String,
    /// Where rendered pages go.
    pub dst_dir: String,
}

impl<'a> AdocBookBuilder<'a> {
    /// Sets up the builder of one build: converter context, template
    /// context and directories, with the sidebar errors to report.
    pub fn from_book(
        book: &'a BookStructure,
        cache_diff: CacheIndexDiff,
        dst_dir: &String,
        fs: &crate::vfs::FsCatalog,
    ) -> (r: (Self, Vec<String>))
        ensures
            r.0.book == book,
            r.0.cache_diff == cache_diff,
            r.0.src_dir@ == book.src_dir_spec(),
            r.0.dst_dir@ == dst_dir@,
            r.0.acx.src_dir@ == book.src_dir_spec(),
            r.0.acx.dst_dir@ == dst_dir@,
            r.0.acx.base_url@ == book.book_ron.base_url@,
            crate::build::convert::adoc::opts_views(r.0.acx.opts@)
                == crate::build::convert::adoc::opts_views(book.book_ron.adoc_opts@),
    {
        let (hcx, errors) = HbsContext::from_book(book, fs);
        let acx = AdocRunContext::from_book(book, dst_dir);
        let src_dir = book.src_dir_path();
        (
            Self {
                book,
                cache_diff,
                acx,
                hcx,
                src_dir,
                dst_dir: dst_dir.clone(),
            },
            errors,
        )
    }

    /// The page path of one source file, per [`dst_file_spec`]; a source
    /// with a foreign extension, or outside the source directory, is the
    /// error.
    pub fn src_file_to_dst_file(&self, src_file: &String) -> (r: Result<String, String>)
        ensures
            match r {
                Ok(p) => dst_file_spec(self.src_dir@, self.dst_dir@, src_file@) == Some(p@),
                Err(_) => dst_file_spec(self.src_dir@, self.dst_dir@, src_file@) is None,
            },
    {
        let chars = str_to_chars(src_file.as_str());
        let is_adoc = match crate::path::extension_of(&chars) {
            Some(ext) => crate::text::eq_lit(&ext, "adoc"),
            None => false,
        };
        if !is_adoc {
            proof {
                reveal_strlit("adoc");
            }
            return Err(String::from_str("Unexpected kind of file"));
        }
        proof {
            reveal_strlit("adoc");
        }
        let dir_chars = str_to_chars(self.src_dir.as_str());
        match strip_prefix(&chars, &dir_chars) {
            None => Err(String::from_str("File not in the source directory")),
            Some(rel) => {
                let dst_chars = str_to_chars(self.dst_dir.as_str());
                let joined = crate::path::join_chars(&dst_chars, &rel);
                let page = with_extension(&joined, "html");
                Ok(chars_to_string(&page))
            },
        }
    }

    /// Can this file be satisfied from the previous build's artifacts?
    pub fn can_skip_build(&self, src_file: &String) -> (r: bool)
        requires
            rel_in_src_spec(*self.book, src_file@) is Some,
            find_mtime(
                self.cache_diff.new.entries@,
                rel_in_src_spec(*self.book, src_file@).unwrap(),
            ) is Some,
        ensures
            r == !need_build_spec(
                self.cache_diff.old,
                self.cache_diff.new,
                rel_in_src_spec(*self.book, src_file@).unwrap(),
            ),
    {
        !self.cache_diff.need_build(self.book, src_file)
    }

    /// Where the previous build's artifact for this source file lies in
    /// the mirror: its relative path with the page extension, under the
    /// mirror directory.
    pub fn cached_file_path(&self, cache_dir: &String, src_file: &String) -> (r: Result<
        String,
        String,
    >)
        ensures
            match r {
                Ok(p) => strip_prefix_spec(src_file@, self.src_dir@) matches Some(rel) && p@
                    == with_extension_spec(join_spec(cache_dir@, rel), "html"@),
                Err(_) => strip_prefix_spec(src_file@, self.src_dir@) is None,
            },
    {
        let chars = str_to_chars(src_file.as_str());
        let dir_chars = str_to_chars(self.src_dir.as_str());
        match strip_prefix(&chars, &dir_chars) {
            None => Err(String::from_str("File not in the source directory")),
            Some(rel) => {
                let cache_chars = str_to_chars(cache_dir.as_str());
                let joined = crate::path::join_chars(&cache_chars, &rel);
                let page = with_extension(&joined, "html");
                Ok(chars_to_string(&page))
            },
        }
    }
}

} // verus!
