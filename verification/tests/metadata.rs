//! Metadata extraction from document headers.

use adbook::book::config::CmdOption;
use adbook::build::convert::adoc::{AdocAttr, AdocMetadata, AdocRunContext};

const ARTICLE: &str = "\n// ^ blank line\n\n= Title here!\n\n:revdate: Oct 23, 2020\n// whitespace again\n\n:author: someone\n:!sectnums: these text are omitted\n\nFirst paragraph!\n";

fn dummy_acx(opts: Vec<CmdOption>) -> AdocRunContext {
    AdocRunContext {
        src_dir: ".".to_string(),
        dst_dir: ".".to_string(),
        opts,
        base_url: "".to_string(),
    }
}

#[test]
fn simple_metadata() {
    let acx = dummy_acx(vec![]);

    let metadata = AdocMetadata::extract(ARTICLE, &acx);

    assert_eq!(
        metadata,
        AdocMetadata {
            title: Some("Title here!".to_string()),
            attrs: vec![
                AdocAttr::allow("revdate", "Oct 23, 2020"),
                AdocAttr::allow("author", "someone"),
                AdocAttr::deny("sectnums"),
            ],
            base: None,
        }
    );

    assert_eq!(
        metadata.find_attr("author"),
        Some(&AdocAttr::allow("author", "someone"))
    );
}

#[test]
fn base_test() {
    let mail = "someone@mail.domain";

    let cmd_opts = vec![CmdOption {
        name: "-a".to_string(),
        args: vec!["sectnums".to_string(), format!("email={}", mail)],
    }];

    let acx = dummy_acx(cmd_opts);

    let deriving = AdocMetadata::extract_with_base(ARTICLE, &acx);

    assert_eq!(
        deriving.find_attr("sectnums"),
        Some(&AdocAttr::deny("sectnums"))
    );

    assert_eq!(
        deriving.find_attr("email"),
        Some(&AdocAttr::allow("email", mail))
    );
}

#[test]
fn placeholder_substitution_in_values() {
    let acx = AdocRunContext {
        src_dir: "/book/src".to_string(),
        dst_dir: "/book/site".to_string(),
        opts: vec![],
        base_url: "/base".to_string(),
    };
    let text = "= T\n:imagesdir: {base_url}/static/img\n:outdir: {src_dir}/static\n";
    let metadata = AdocMetadata::extract(text, &acx);
    assert_eq!(
        metadata.find_attr("imagesdir"),
        Some(&AdocAttr::allow("imagesdir", "/base/static/img"))
    );
    assert_eq!(
        metadata.find_attr("outdir"),
        Some(&AdocAttr::allow("outdir", "/book/src/static"))
    );
}

#[test]
fn scan_stops_at_first_plain_line() {
    let acx = dummy_acx(vec![]);
    let text = "= T\n:a: 1\nplain text line\n:b: 2\n";
    let metadata = AdocMetadata::extract(text, &acx);
    assert_eq!(metadata.find_attr("a"), Some(&AdocAttr::allow("a", "1")));
    assert_eq!(metadata.find_attr("b"), None);
}

#[test]
fn untitled_document_has_no_title() {
    let acx = dummy_acx(vec![]);
    let text = "plain first line\n";
    let metadata = AdocMetadata::extract(text, &acx);
    assert_eq!(metadata.title, None);
}

#[test]
fn cmd_opts_strip_precedence_markers() {
    let acx = dummy_acx(vec![CmdOption {
        name: "-a".to_string(),
        args: vec!["linkcss@=style.css".to_string(), "toc=left@".to_string(), "!compat".to_string()],
    }]);
    let base = AdocMetadata::from_cmd_opts(&acx.opts, &acx);
    assert_eq!(base.find_attr("linkcss"), Some(&AdocAttr::allow("linkcss", "style.css")));
    assert_eq!(base.find_attr("toc"), Some(&AdocAttr::allow("toc", "left")));
    assert_eq!(base.find_attr("compat"), Some(&AdocAttr::deny("compat")));
    assert_eq!(base.title, None);
}

#[test]
fn attr_accessors() {
    let allow = AdocAttr::allow("name", "value");
    assert_eq!(allow.name(), "name");
    assert_eq!(allow.value(), Some("value"));
    let deny = AdocAttr::deny("name");
    assert_eq!(deny.name(), "name");
    assert_eq!(deny.value(), None);
    assert_eq!(AdocAttr::from_name("!compat"), AdocAttr::deny("compat"));
    assert_eq!(AdocAttr::from_name("toc"), AdocAttr::allow("toc", ""));
}
