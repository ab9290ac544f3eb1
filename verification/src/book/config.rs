//! Configuration records read from a project's description files.
//!
//! A project has one `book.ron` at its root and one `index.ron` per source
//! directory. The shell parses those files and hands the crate these plain
//! records; how they are parsed is outside the crate.

use vstd::prelude::*;

verus! {

/// One option handed to a command, with its arguments.
#[derive(Debug, Clone)]
pub struct CmdOption {
    pub name: String,
    pub args: Vec<String>,
}

/// Arguments to a command, such as `--one-option` with `["a", "b"]` and
/// `--another` with no arguments.
pub type CmdOptions = Vec<CmdOption>;

/// One declared copy from one project path to another.
#[derive(Debug, Clone)]
pub struct CopyRon {
    pub from: String,
    pub to: String,
}

/// The entry of `index.ron` that describes the directory itself.
#[derive(Debug, Clone)]
pub struct SummaryRon {
    /// Display name; an empty name is later read from the file.
    pub name: String,
    /// Path of the summary document, relative to the directory.
    pub path: String,
}

/// The record held by `book.ron` in the root of a project.
#[derive(Debug, Clone)]
pub struct BookRon {
    /// Base URL of the published site, used to substitute `{base_url}`.
    pub base_url: String,
    /// The source directory, relative to the project root.
    pub src_dir: String,
    /// The destination directory where source files are converted.
    pub site_dir: String,
    /// Authors of the book.
    pub authors: Vec<String>,
    /// Title of the book.
    pub title: String,
    /// Sidebar items up to this level are open by default.
    pub fold_level: Option<usize>,
    /// Whether a combined source document for the whole book is generated.
    pub generate_all: bool,
    /// Paths relative to the source directory that are copied to the site.
    pub includes: Vec<String>,
    /// Extra copies relative to the project root.
    pub copies: Vec<CopyRon>,
    /// Whether the bundled default theme is copied into the site.
    pub use_default_theme: bool,
    /// Files to convert but keep out of the sidebar.
    pub converts: Vec<String>,
    /// Options handed to the document converter.
    pub adoc_opts: CmdOptions,
}

/// The record held by `index.ron` in each source directory.
#[derive(Debug, Clone)]
pub struct IndexRon {
    /// The (name, file) entry that describes this directory.
    pub summary: SummaryRon,
    /// Child items, in declaration order.
    pub items: Vec<IndexRonItem>,
}

/// One declared child of a directory.
#[derive(Debug, Clone)]
pub enum IndexRonItem {
    /// `(title, relative path)`. An empty title is later read from the file.
    File(String, String),
    /// A sub-directory with its own `index.ron`, by relative path.
    Dir(String),
}

} // verus!
