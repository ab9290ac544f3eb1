/*!
A verified core for an asciidoctor-based static book generator.

A book is a tree of source documents described by per-directory description
files. Building a book loads that tree, decides which files must be rendered
again (by comparing modification times against a persisted snapshot), renders
the stale files, and assembles the rendered pages, static assets and theme
files into the site directory.

This crate holds the data model and every decision the pipeline makes, each
with a proved contract. The filesystem is presented to it as a plain value
([`vfs::FsCatalog`]); reading directories, running the converter and writing
the site are left to the thin unverified shell around the crate.
*/

pub mod book;
pub mod build;
pub mod path;
pub mod text;
pub mod vfs;

use vstd::prelude::*;

verus! {

} // verus!
