//! The build pipeline over a modeled filesystem: loading, staleness,
//! partitioning, outcomes and assembly.

use adbook::book::config::{BookRon, CopyRon, IndexRon, IndexRonItem, SummaryRon};
use adbook::book::index::{Index, IndexItem, IndexLoadError};
use adbook::book::walk::{
    collect_build_results, list_src_files, plan_build, reuse_outcome, BuildError, BuildOutput,
    BuildResult,
};
use adbook::book::BookStructure;
use adbook::build::cache::{CacheIndex, CacheIndexDiff};
use adbook::build::convert::adoc_all::gen_all;
use adbook::build::{keep_on_clear, plan_copies, plan_html_outputs, plan_includes, AssembleError};
use adbook::vfs::{DirRecord, FileRecord, FsCatalog, IndexRonLoad, Mtime};

fn mt(secs: u64) -> Mtime {
    Mtime { secs, nanos: 0 }
}

fn file(path: &str, secs: u64) -> FileRecord {
    FileRecord {
        path: path.to_string(),
        mtime: mt(secs),
        first_line: String::new(),
    }
}

fn dir(path: &str, index_ron: Option<IndexRonLoad>) -> DirRecord {
    DirRecord {
        path: path.to_string(),
        index_ron,
    }
}

fn ron(summary: &str, items: Vec<IndexRonItem>) -> IndexRon {
    IndexRon {
        summary: SummaryRon {
            name: "root".to_string(),
            path: summary.to_string(),
        },
        items,
    }
}

fn book_ron() -> BookRon {
    BookRon {
        base_url: "".to_string(),
        src_dir: "src".to_string(),
        site_dir: "site".to_string(),
        authors: vec![],
        title: "The Book".to_string(),
        fold_level: None,
        generate_all: false,
        includes: vec![],
        copies: vec![],
        use_default_theme: false,
        converts: vec![],
        adoc_opts: vec![],
    }
}

/// A project at `/p` with three tracked files.
fn three_file_catalog() -> FsCatalog {
    FsCatalog {
        files: vec![
            file("/p/src/index.adoc", 10),
            file("/p/src/a.adoc", 20),
            file("/p/src/sub/b.adoc", 30),
        ],
        dirs: vec![
            dir("/p", None),
            dir("/p/src", None),
            dir("/p/src/sub", None),
        ],
    }
}

fn three_file_book() -> BookStructure {
    BookStructure {
        root: "/p".to_string(),
        book_ron: book_ron(),
        index: Index {
            dir: "/p/src".to_string(),
            name: "root".to_string(),
            summary: "/p/src/index.adoc".to_string(),
            items: vec![
                IndexItem::File("A".to_string(), "/p/src/a.adoc".to_string()),
                IndexItem::Dir(Box::new(Index {
                    dir: "/p/src/sub".to_string(),
                    name: "sub".to_string(),
                    summary: "/p/src/sub/b.adoc".to_string(),
                    items: vec![],
                })),
            ],
        },
    }
}

#[test]
fn loader_drops_missing_entry_and_records_it() {
    // files A and C exist; the entry for B names nothing
    let fs = FsCatalog {
        files: vec![
            file("/p/src/index.adoc", 1),
            file("/p/src/a.adoc", 1),
            file("/p/src/c.adoc", 1),
        ],
        dirs: vec![dir("/p", None), dir("/p/src", None)],
    };
    let ix_ron = ron(
        "index.adoc",
        vec![
            IndexRonItem::File("A".to_string(), "a.adoc".to_string()),
            IndexRonItem::File("B".to_string(), "b.adoc".to_string()),
            IndexRonItem::File("C".to_string(), "c.adoc".to_string()),
        ],
    );
    let (index, errors) =
        Index::from_index_ron_recursive(&ix_ron, &"/p/src".to_string(), &fs, &vec![]).unwrap();

    assert_eq!(index.items.len(), 2);
    match &index.items[0] {
        IndexItem::File(name, path) => {
            assert_eq!(name, "A");
            assert_eq!(path, "/p/src/a.adoc");
        }
        _ => panic!("expected a file item"),
    }
    match &index.items[1] {
        IndexItem::File(name, path) => {
            assert_eq!(name, "C");
            assert_eq!(path, "/p/src/c.adoc");
        }
        _ => panic!("expected a file item"),
    }
    assert_eq!(errors.len(), 1);
    match &errors[0] {
        IndexLoadError::FailedToLocateItem(rel, d) => {
            assert_eq!(rel, "b.adoc");
            assert_eq!(d, "/p/src");
        }
        other => panic!("unexpected error: {:?}", other),
    }
}

#[test]
fn loader_reports_missing_summary_as_hard_error() {
    let fs = FsCatalog {
        files: vec![file("/p/src/a.adoc", 1)],
        dirs: vec![dir("/p/src", None)],
    };
    let ix_ron = ron("index.adoc", vec![]);
    let r = Index::from_index_ron_recursive(&ix_ron, &"/p/src".to_string(), &fs, &vec![]);
    assert!(matches!(r, Err(IndexLoadError::FailedToLocateSummary(..))));
}

#[test]
fn loader_reports_cycles_instead_of_recursing() {
    // the sub-directory's description names its parent again
    let sub_ron = IndexRon {
        summary: SummaryRon {
            name: "sub".to_string(),
            path: "b.adoc".to_string(),
        },
        items: vec![IndexRonItem::Dir("..".to_string())],
    };
    let fs = FsCatalog {
        files: vec![file("/p/src/index.adoc", 1), file("/p/src/sub/b.adoc", 1)],
        dirs: vec![
            dir("/p/src", None),
            dir("/p/src/sub", Some(IndexRonLoad::Parsed(sub_ron))),
        ],
    };
    let ix_ron = ron(
        "index.adoc",
        vec![IndexRonItem::Dir("sub".to_string())],
    );
    let (index, errors) =
        Index::from_index_ron_recursive(&ix_ron, &"/p/src".to_string(), &fs, &vec![]).unwrap();
    assert_eq!(index.items.len(), 1);
    assert!(errors
        .iter()
        .any(|e| matches!(e, IndexLoadError::FoundCycle(p) if p == "/p/src")));
}

#[test]
fn need_build_is_true_on_first_build() {
    let fs = three_file_catalog();
    let book = three_file_book();
    let diff = CacheIndex::empty().create_diff(&book, &fs);
    for p in ["/p/src/index.adoc", "/p/src/a.adoc", "/p/src/sub/b.adoc"] {
        assert!(diff.need_build(&book, &p.to_string()));
    }
}

#[test]
fn need_build_is_false_on_repeated_build() {
    let fs = three_file_catalog();
    let book = three_file_book();
    let first = CacheIndex::empty().create_diff(&book, &fs);
    let index = CacheIndex {
        cache: first.into_new_cache_data(),
    };
    let second = index.create_diff(&book, &fs);
    for p in ["/p/src/index.adoc", "/p/src/a.adoc", "/p/src/sub/b.adoc"] {
        assert!(!second.need_build(&book, &p.to_string()));
    }
}

#[test]
fn need_build_follows_modification_time_alone() {
    let fs = three_file_catalog();
    let book = three_file_book();
    let first = CacheIndex::empty().create_diff(&book, &fs);
    let index = CacheIndex {
        cache: first.into_new_cache_data(),
    };
    // touch a.adoc: its time changes, its content is nobody's business
    let mut touched = three_file_catalog();
    touched.files[1].mtime = mt(99);
    let second = index.create_diff(&book, &touched);
    assert!(second.need_build(&book, &"/p/src/a.adoc".to_string()));
    assert!(!second.need_build(&book, &"/p/src/index.adoc".to_string()));
    // an older time counts just the same as a newer one
    let mut rewound = three_file_catalog();
    rewound.files[1].mtime = mt(1);
    let third = index.create_diff(&book, &rewound);
    assert!(third.need_build(&book, &"/p/src/a.adoc".to_string()));
}

#[test]
fn repeated_build_renders_nothing() {
    let fs = three_file_catalog();
    let book = three_file_book();
    let files = list_src_files(&book);
    assert_eq!(
        files,
        vec![
            "/p/src/index.adoc".to_string(),
            "/p/src/a.adoc".to_string(),
            "/p/src/sub/b.adoc".to_string(),
        ]
    );
    let first = CacheIndex::empty().create_diff(&book, &fs);
    let plan1 = plan_build(&files, &first, &book);
    assert_eq!(plan1.render.len(), 3);
    assert_eq!(plan1.reuse.len(), 0);
    assert!(!plan1.is_noop());

    let index = CacheIndex {
        cache: first.into_new_cache_data(),
    };
    let second = index.create_diff(&book, &fs);
    let plan2 = plan_build(&files, &second, &book);
    assert_eq!(plan2.render.len(), 0);
    assert_eq!(plan2.reuse, files);
    assert!(plan2.is_noop());
}

#[test]
fn ten_outcomes_from_ten_files_one_failing() {
    let mut results: Vec<BuildResult> = Vec::new();
    for i in 0..10 {
        let name = format!("/p/src/f{}.adoc", i);
        if i == 3 {
            results.push(Err(BuildError {
                err: "conversion failed".to_string(),
                src_file: name,
            }));
        } else {
            results.push(Ok(BuildOutput {
                string: format!("<p>{}</p>", i),
                src_file: name,
            }));
        }
    }
    let (outputs, failures) = collect_build_results(results);
    assert_eq!(outputs.len() + failures.len(), 10);
    assert_eq!(outputs.len(), 9);
    assert_eq!(failures.len(), 1);
    assert_eq!(failures[0].src_file, "/p/src/f3.adoc");
    // the successes stay usable, keyed by their files
    assert_eq!(outputs[3].src_file, "/p/src/f4.adoc");
    assert_eq!(outputs[3].string, "<p>4</p>");
}

#[test]
fn missing_mirror_artifact_is_a_hard_error() {
    let src = "/p/src/x.adoc".to_string();
    let err = match reuse_outcome(&src, None) {
        Err(e) => e,
        Ok(_) => panic!("a missing artifact must not pass as a success"),
    };
    assert_eq!(err.src_file, src);
    assert!(err.err.contains("clear"));

    let ok = match reuse_outcome(&src, Some("<p>cached</p>".to_string())) {
        Ok(o) => o,
        Err(_) => panic!("a present artifact is reused"),
    };
    assert_eq!(ok.string, "<p>cached</p>");
    assert_eq!(ok.src_file, src);
}

#[test]
fn declared_asset_is_copied_or_reported_once() {
    let mut book = three_file_book();
    book.book_ron.includes = vec!["static/img".to_string(), "missing".to_string()];
    let mut fs = three_file_catalog();
    fs.dirs.push(dir("/p/src/static/img", None));
    let (actions, errors) = plan_includes(&book, &fs);
    assert_eq!(actions.len(), 1);
    assert_eq!(actions[0].src, "/p/src/static/img");
    assert_eq!(actions[0].dst, "/p/site/static/img");
    assert!(actions[0].is_dir);
    assert_eq!(errors.len(), 1);
    match &errors[0] {
        AssembleError::MissingSource(p) => assert_eq!(p, "missing"),
        other => panic!("unexpected error: {:?}", other),
    }
}

#[test]
fn non_relative_asset_is_reported() {
    let mut book = three_file_book();
    book.book_ron.includes = vec!["/abs/path".to_string()];
    let fs = three_file_catalog();
    let (actions, errors) = plan_includes(&book, &fs);
    assert_eq!(actions.len(), 0);
    assert_eq!(errors.len(), 1);
    assert!(matches!(&errors[0], AssembleError::NonRelativePath(p) if p == "/abs/path"));
}

#[test]
fn clear_keeps_dot_entries_and_the_output_directory() {
    let out = "/p/site/out".to_string();
    assert!(keep_on_clear(&out, &out));
    assert!(keep_on_clear(&"/p/site/.git".to_string(), &out));
    assert!(!keep_on_clear(&"/p/site/index.html".to_string(), &out));
}

#[test]
fn rendered_pages_land_at_their_relative_paths() {
    let outputs = vec![
        BuildOutput {
            string: "<p>a</p>".to_string(),
            src_file: "/p/src/a.adoc".to_string(),
        },
        BuildOutput {
            string: "<p>b</p>".to_string(),
            src_file: "/p/src/sub/b.adoc".to_string(),
        },
    ];
    let writes = plan_html_outputs(&outputs, &"/p/src".to_string(), &"/p/site".to_string());
    assert_eq!(writes.len(), 2);
    assert_eq!(writes[0].path, "/p/site/a.html");
    assert_eq!(writes[0].text, "<p>a</p>");
    assert_eq!(writes[1].path, "/p/site/sub/b.html");
}

#[test]
fn combined_document_lists_every_page_at_its_depth() {
    let book = three_file_book();
    let all = gen_all(&book);
    let expected = "= The Book\n:stylesheet: all.css\n\n\
        include::/p/src/index.adoc[leveloffset=1]\n\
        include::/p/src/a.adoc[leveloffset=2]\n\
        include::/p/src/sub/b.adoc[leveloffset=2]\n";
    assert_eq!(all, expected);
}

#[test]
fn extra_copies_resolve_against_the_root() {
    let mut book = three_file_book();
    book.book_ron.copies = vec![
        CopyRon {
            from: "src/a.adoc".to_string(),
            to: "site/a-copy.adoc".to_string(),
        },
        CopyRon {
            from: "nowhere".to_string(),
            to: "site/x".to_string(),
        },
    ];
    let (actions, warnings) = plan_copies(&book, &three_file_catalog());
    assert_eq!(actions.len(), 1);
    assert_eq!(actions[0].src, "/p/src/a.adoc");
    assert_eq!(actions[0].dst, "/p/site/a-copy.adoc");
    assert!(!actions[0].is_dir);
    assert_eq!(warnings, vec!["nowhere".to_string()]);
}

#[test]
fn convert_only_files_come_after_the_tree() {
    let mut book = three_file_book();
    book.book_ron.converts = vec!["404.adoc".to_string()];
    let files = list_src_files(&book);
    assert_eq!(files.last().map(|s| s.as_str()), Some("/p/src/404.adoc"));
    assert_eq!(files.len(), 4);
}

#[test]
fn find_root_walks_up_to_the_nearest_marker() {
    let fs = FsCatalog {
        files: vec![file("/p/book.ron", 1)],
        dirs: vec![dir("/p", None), dir("/p/src", None), dir("/p/src/sub", None)],
    };
    let found = adbook::book::find_root_book_ron(&"/p/src/sub".to_string(), &fs).unwrap();
    assert_eq!(found, "/p/book.ron");
    assert!(adbook::book::find_root_book_ron(&"/p/src/other".to_string(), &fs).is_err());
}
