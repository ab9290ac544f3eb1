//! Sidebar construction, URLs and template input.

use adbook::book::config::CmdOption;
use adbook::build::convert::adoc::{AdocCommand, AdocMetadata, AdocRunContext};
use adbook::build::convert::hbs::{HbsContext, HbsInput, Sidebar, SidebarItem};
use adbook::build::convert::plan_conversion;
use adbook::book::config::BookRon;
use adbook::book::index::{Index, IndexItem};
use adbook::book::BookStructure;
use adbook::vfs::{DirRecord, FileRecord, FsCatalog, Mtime};

fn file_with_line(path: &str, first_line: &str) -> FileRecord {
    FileRecord {
        path: path.to_string(),
        mtime: Mtime { secs: 1, nanos: 0 },
        first_line: first_line.to_string(),
    }
}

#[test]
fn url_is_relative_location_behind_base() {
    let u = Sidebar::get_url(
        &"/p/src".to_string(),
        &"/p/src/sub/b.adoc".to_string(),
        &"/base".to_string(),
    )
    .unwrap();
    assert_eq!(u, "/base/sub/b.html");
    assert!(Sidebar::get_url(
        &"/p/src".to_string(),
        &"/elsewhere/b.adoc".to_string(),
        &"/base".to_string(),
    )
    .is_err());
}

fn demo_sidebar() -> Sidebar {
    Sidebar {
        items: vec![
            SidebarItem {
                name: "Home".to_string(),
                url: Some("/index.html".to_string()),
                children: None,
                active: false,
                depth: 0,
            },
            SidebarItem {
                name: "Sub".to_string(),
                url: Some("/sub/b.html".to_string()),
                children: Some(Box::new(vec![SidebarItem {
                    name: "B".to_string(),
                    url: Some("/sub/c.html".to_string()),
                    children: None,
                    active: false,
                    depth: 1,
                }])),
                active: false,
                depth: 0,
            },
        ],
        fold_level: None,
    }
}

#[test]
fn active_url_lights_exactly_one_entry() {
    let mut s = demo_sidebar();
    s.set_active_url("/sub/c.html");
    assert!(!s.items[0].active);
    assert!(!s.items[1].active);
    let children = s.items[1].children.as_ref().unwrap();
    assert!(children[0].active);

    s.set_active_url("/index.html");
    assert!(s.items[0].active);
    assert!(!s.items[1].active);
    let children = s.items[1].children.as_ref().unwrap();
    assert!(!children[0].active);
}

#[test]
fn sidebar_for_url_leaves_the_context_untouched() {
    let ctx = HbsContext {
        sidebar: demo_sidebar(),
    };
    let lit = ctx.sidebar_for_url("/sub/b.html");
    assert!(lit.items[1].active);
    assert!(!ctx.sidebar.items[1].active);
}

#[test]
fn sidebar_titles_fall_back_to_first_lines() {
    let fs = FsCatalog {
        files: vec![
            file_with_line("/p/src/index.adoc", "= Welcome"),
            file_with_line("/p/src/a.adoc", "= Article A"),
            file_with_line("/p/src/plain.adoc", "no marker"),
        ],
        dirs: vec![DirRecord {
            path: "/p/src".to_string(),
            index_ron: None,
        }],
    };
    let book = BookStructure {
        root: "/p".to_string(),
        book_ron: BookRon {
            base_url: "".to_string(),
            src_dir: "src".to_string(),
            site_dir: "site".to_string(),
            authors: vec![],
            title: "T".to_string(),
            fold_level: Some(1),
            generate_all: false,
            includes: vec![],
            copies: vec![],
            use_default_theme: false,
            converts: vec![],
            adoc_opts: vec![],
        },
        index: Index {
            dir: "/p/src".to_string(),
            name: "".to_string(),
            summary: "/p/src/index.adoc".to_string(),
            items: vec![
                IndexItem::File("".to_string(), "/p/src/a.adoc".to_string()),
                IndexItem::File("".to_string(), "/p/src/plain.adoc".to_string()),
            ],
        },
    };
    let (sidebar, errors) = Sidebar::from_book(&book, &fs);
    assert_eq!(errors.len(), 0);
    assert_eq!(sidebar.fold_level, Some(1));
    assert_eq!(sidebar.items.len(), 3);
    assert_eq!(sidebar.items[0].name, "Welcome");
    assert_eq!(sidebar.items[0].url.as_deref(), Some("/index.html"));
    assert_eq!(sidebar.items[1].name, "Article A");
    assert_eq!(sidebar.items[2].name, "<untitled>");
}

#[test]
fn template_input_carries_attributes_and_body() {
    let acx = AdocRunContext {
        src_dir: ".".to_string(),
        dst_dir: ".".to_string(),
        opts: vec![],
        base_url: "/b".to_string(),
    };
    let text = "= T\n:author: someone\n:revdate: today\n:stylesheet: a.css\n:stylesdir: css\n";
    let meta = AdocMetadata::extract(text, &acx);
    let sidebar = demo_sidebar();
    let input = HbsInput::new("<p>body</p>", &meta, "/b", sidebar);
    assert_eq!(input.base_url, "/b");
    assert_eq!(input.h_title, "T");
    assert_eq!(input.h_author, "someone");
    assert_eq!(input.a_title.as_deref(), Some("T"));
    assert_eq!(input.a_article, "<p>body</p>");
    assert_eq!(input.a_revdate.as_deref(), Some("today"));
    assert_eq!(input.a_email, None);
    assert_eq!(input.a_stylesheet.as_deref(), Some("css/a.css"));
    assert_eq!(input.sidebar_items.len(), 2);
}

#[test]
fn conversion_plan_assembles_the_full_command() {
    let acx = AdocRunContext {
        src_dir: "/p/src".to_string(),
        dst_dir: "/p/site".to_string(),
        opts: vec![CmdOption {
            name: "-a".to_string(),
            args: vec!["imagesdir={base_url}/img".to_string()],
        }],
        base_url: "/b".to_string(),
    };
    let fs = FsCatalog {
        files: vec![file_with_line("/p/src/a.adoc", "= A")],
        dirs: vec![],
    };
    let text = "= A\n:hbs: theme/hbs/article.hbs\n";
    let plan = plan_conversion(text, &"/p/src/a.adoc".to_string(), &acx, &fs).unwrap();
    let AdocCommand {
        program,
        current_dir,
        args,
    } = plan.command;
    assert_eq!(program, "asciidoctor");
    assert_eq!(current_dir, "/p/src");
    assert_eq!(
        args,
        vec![
            "/p/src/a.adoc",
            "-o",
            "-",
            "-r",
            "asciidoctor-diagram",
            "--trace",
            "--verbose",
            "-B",
            "/p/src",
            "-a",
            "imagesdir=/b/img",
            "--embedded",
        ]
    );
    assert_eq!(
        plan.hbs_template.as_deref(),
        Some("/p/src/theme/hbs/article.hbs")
    );

    // a document without the template attribute keeps the full page output
    let plain = plan_conversion("= A\n", &"/p/src/a.adoc".to_string(), &acx, &fs).unwrap();
    assert_eq!(plain.hbs_template, None);
    assert!(!plain.command.args.contains(&"--embedded".to_string()));

    // a missing source file refuses to plan
    assert!(plan_conversion("= A\n", &"/p/src/gone.adoc".to_string(), &acx, &fs).is_err());
}

#[test]
fn init_plans_name_the_expected_layout() {
    let files = adbook::book::init::gen_init_files();
    assert_eq!(files.len(), 10);
    assert_eq!(files[0].rel_path, ".gitignore");
    assert!(!files[0].is_dir);
    assert_eq!(files[3].rel_path, "site");
    assert!(files[3].is_dir);
    let theme = adbook::book::init::copy_default_theme();
    assert_eq!(theme.len(), 16);
    assert_eq!(theme[0].rel_path, "theme");
    assert!(theme[0].is_dir);
    assert_eq!(theme[15].rel_path, "theme/js/prism.js");
}

#[test]
fn embedded_mode_appends_the_flag() {
    let mut acx = AdocRunContext {
        src_dir: ".".to_string(),
        dst_dir: ".".to_string(),
        opts: vec![CmdOption {
            name: "-a".to_string(),
            args: vec!["sectnums".to_string()],
        }],
        base_url: "".to_string(),
    };
    acx.set_embedded_mode(true);
    assert_eq!(acx.opts.len(), 2);
    assert_eq!(acx.opts[1].name, "--embedded");
    assert!(acx.opts[1].args.is_empty());
    // switching it off keeps only options already named like the flag
    acx.set_embedded_mode(false);
    assert_eq!(acx.opts.len(), 1);
    assert_eq!(acx.opts[0].name, "--embedded");
}
