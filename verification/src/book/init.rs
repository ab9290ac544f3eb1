//! What a freshly initialized project holds, and what the bundled theme
//! adds to a site.
//!
//! The crate decides the layout — which directories and which files, by
//! relative path, in creation order — and the shell supplies the bundled
//! file contents and writes them, creating only what is missing.

use vstd::prelude::*;

verus! {

/// One entry of an initial layout: a directory to create or a file to
/// write, relative to the target directory.
#[derive(Debug)]
pub struct InitEntry {
    pub rel_path: String,
    pub is_dir: bool,
}

/// The shape of one entry.
pub open spec fn init_entry_view(e: InitEntry) -> (Seq<char>, bool) {
    (e.rel_path@, e.is_dir)
}

/// The shapes of a layout.
pub open spec fn init_views(entries: Seq<InitEntry>) -> Seq<(Seq<char>, bool)> {
    entries.map_values(|e: InitEntry| init_entry_view(e))
}

/// The layout of a fresh project, without the theme: editor and
/// version-control settings, the configuration file, the two directories,
/// and a first set of source documents.
pub open spec fn init_files_spec() -> Seq<(Seq<char>, bool)> {
    seq![
        (".gitignore"@, false),
        (".editorconfig"@, false),
        ("book.ron"@, false),
        ("site"@, true),
        ("src"@, true),
        ("src/index.ron"@, false),
        ("src/index.adoc"@, false),
        ("src/article.adoc"@, false),
        ("src/static"@, true),
        ("src/static/img"@, true),
    ]
}

/// The layout the bundled theme adds to a directory.
pub open spec fn theme_files_spec() -> Seq<(Seq<char>, bool)> {
    seq![
        ("theme"@, true),
        ("theme/favicon.svg"@, false),
        ("theme/hbs"@, true),
        ("theme/hbs/article.hbs"@, false),
        ("theme/hbs/partials"@, true),
        ("theme/hbs/partials/sidebar.hbs"@, false),
        ("theme/hbs/partials/sidebar_item.hbs"@, false),
        ("theme/css"@, true),
        ("theme/css/all.css"@, false),
        ("theme/css/article.css"@, false),
        ("theme/css/term.css"@, false),
        ("theme/css/partials"@, true),
        ("theme/css/partials/term_adoc.css"@, false),
        ("theme/css/partials/prism_okidia.css"@, false),
        ("theme/js"@, true),
        ("theme/js/prism.js"@, false),
    ]
}

/// One entry of a layout.
fn entry(rel_path: &str, is_dir: bool) -> (r: InitEntry)
    ensures
        init_entry_view(r) == (rel_path@, is_dir),
{
    InitEntry { rel_path: String::from_str(rel_path), is_dir }
}

/// The creation plan of a fresh project directory, in order, without the
/// theme.
pub fn gen_init_files() -> (r: Vec<InitEntry>)
    ensures
        init_views(r@) == init_files_spec(),
{
    let mut entries: Vec<InitEntry> = Vec::new();
    entries.push(entry(".gitignore", false));
    entries.push(entry(".editorconfig", false));
    entries.push(entry("book.ron", false));
    entries.push(entry("site", true));
    entries.push(entry("src", true));
    entries.push(entry("src/index.ron", false));
    entries.push(entry("src/index.adoc", false));
    entries.push(entry("src/article.adoc", false));
    entries.push(entry("src/static", true));
    entries.push(entry("src/static/img", true));
    proof {
        assert(init_views(entries@) =~~= init_files_spec());
    }
    entries
}

/// The creation plan of the bundled theme inside a directory, in order.
pub fn copy_default_theme() -> (r: Vec<InitEntry>)
    ensures
        init_views(r@) == theme_files_spec(),
{
    let mut entries: Vec<InitEntry> = Vec::new();
    entries.push(entry("theme", true));
    entries.push(entry("theme/favicon.svg", false));
    entries.push(entry("theme/hbs", true));
    entries.push(entry("theme/hbs/article.hbs", false));
    entries.push(entry("theme/hbs/partials", true));
    entries.push(entry("theme/hbs/partials/sidebar.hbs", false));
    entries.push(entry("theme/hbs/partials/sidebar_item.hbs", false));
    entries.push(entry("theme/css", true));
    entries.push(entry("theme/css/all.css", false));
    entries.push(entry("theme/css/article.css", false));
    entries.push(entry("theme/css/term.css", false));
    entries.push(entry("theme/css/partials", true));
    entries.push(entry("theme/css/partials/term_adoc.css", false));
    entries.push(entry("theme/css/partials/prism_okidia.css", false));
    entries.push(entry("theme/js", true));
    entries.push(entry("theme/js/prism.js", false));
    proof {
        assert(init_views(entries@) =~~= theme_files_spec());
    }
    entries
}

} // verus!
