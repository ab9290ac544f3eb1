//! Converting one source document into page text.
//!
//! The crate decides everything about a conversion — the converter command
//! line, the document metadata, whether a template applies and with what
//! input — while the shell runs the external converter and the template
//! engine on those decisions.

pub mod adoc;
pub mod adoc_all;
pub mod hbs;

use vstd::prelude::*;

use crate::build::convert::adoc::{
    attr_view, attr_views, cmd_attrs_spec, expand_opts_spec, extract_attrs_spec,
    extract_title_spec, find_a_opt_args, AdocCommand, AdocMetadata, AdocRunContext,
};
use crate::path::{join_spec, join_str};
use crate::text::str_views;
use crate::vfs::FsCatalog;

verus! {

/// Everything one conversion needs before any external program runs: the
/// document's metadata, the fully assembled converter command, and the
/// template file to apply afterwards, if the document names one.
#[derive(Debug)]
pub struct ConvertPlan {
    pub metadata: AdocMetadata,
    pub command: AdocCommand,
    /// The template file, resolved against the source directory; `None`
    /// when the document opts out.
    pub hbs_template: Option<String>,
}

/// The document opted into a template: some attribute named `hbs` resolves.
pub open spec fn wants_hbs_spec(meta: AdocMetadata) -> bool {
    meta.find_attr_spec("hbs"@) is Some
}

/// `m` is the metadata of `text` under `acx`: its own attributes extracted
/// from the text, the command line's attributes as its only fallback.
pub open spec fn metadata_of_text_spec(m: AdocMetadata, text: Seq<char>, acx: AdocRunContext) -> bool {
    &&& match m.title {
        Some(t) => extract_title_spec(text) == Some(t@),
        None => extract_title_spec(text) is None,
    }
    &&& attr_views(m.attrs@) == extract_attrs_spec(text, acx)
    &&& m.base matches Some(b) && b.title is None && b.base is None && attr_views(b.attrs@)
        == match find_a_opt_args(acx.opts@) {
        None => Seq::<(bool, Seq<char>, Seq<char>)>::empty(),
        Some(args) => cmd_attrs_spec(args, acx),
    }
}

/// The document's `hbs` attribute denies instead of naming a template.
pub open spec fn hbs_denied_spec(m: AdocMetadata) -> bool {
    m.find_attr_spec("hbs"@) matches Some(a) && a is Deny
}

/// Plans the conversion of one source document: extracts its metadata with
/// the command line's attributes as fallback, turns on the converter's
/// embedded mode exactly when a template will be applied, and assembles
/// the full command. It fails only when the source file does not exist or
/// the `hbs` attribute denies instead of naming a template.
pub fn plan_conversion(
    adoc_text: &str,
    src_file: &String,
    acx: &AdocRunContext,
    fs: &FsCatalog,
) -> (r: Result<ConvertPlan, String>)
    ensures
        match r {
            Ok(plan) => {
                &&& fs.has_file(src_file@)
                &&& metadata_of_text_spec(plan.metadata, adoc_text@, *acx)
                &&& !hbs_denied_spec(plan.metadata)
                &&& plan.command.program@ == "asciidoctor"@
                &&& plan.command.current_dir@ == acx.src_dir@
                &&& str_views(plan.command.args@) == seq![
                    src_file@,
                    "-o"@,
                    "-"@,
                    "-r"@,
                    "asciidoctor-diagram"@,
                    "--trace"@,
                    "--verbose"@,
                ] + seq!["-B"@, acx.src_dir@] + expand_opts_spec(acx.opts@, *acx) + (
                if wants_hbs_spec(plan.metadata) {
                    seq!["--embedded"@]
                } else {
                    Seq::<Seq<char>>::empty()
                })
                &&& match plan.hbs_template {
                    Some(t) => plan.metadata.find_attr_spec("hbs"@) matches Some(a) && a
                        is Allow && t@ == join_spec(acx.src_dir@, attr_view(a).2),
                    None => !wants_hbs_spec(plan.metadata),
                }
            },
            Err(_) => !fs.has_file(src_file@) || exists|m: AdocMetadata|
                #[trigger] metadata_of_text_spec(m, adoc_text@, *acx) && hbs_denied_spec(m),
        },
{
    let metadata = AdocMetadata::extract_with_base(adoc_text, acx);

    // a template means the converter must emit the body alone
    let hbs_template: Option<String> = match metadata.find_attr("hbs") {
        None => None,
        Some(a) => match a.value() {
            None => {
                proof {
                    assert(metadata_of_text_spec(metadata, adoc_text@, *acx) && hbs_denied_spec(
                        metadata,
                    ));
                }
                return Err(String::from_str("hbs attribute without a template path"));
            },
            Some(v) => {
                let name = String::from_str(v);
                Some(join_str(&acx.src_dir, &name))
            },
        },
    };

    let mut run_acx = acx.clone_context();
    let wants_hbs = hbs_template.is_some();
    if wants_hbs {
        run_acx.set_embedded_mode(true);
    }
    let command = match adoc::asciidoctor(src_file, &run_acx, fs) {
        Ok(c) => c,
        Err(e) => {
            return Err(e);
        },
    };
    proof {
        if wants_hbs {
            let pre = run_acx.opts@.drop_last();
            assert(run_acx.opts@.subrange(0, run_acx.opts@.len() - 1) =~= pre);
            adoc::lemma_expand_opts_embedded(run_acx.opts@, run_acx);
            adoc::lemma_expand_opts_congruence(pre, acx.opts@, run_acx, *acx);
        } else {
            adoc::lemma_expand_opts_congruence(run_acx.opts@, acx.opts@, run_acx, *acx);
        }
    }
    Ok(ConvertPlan { metadata, command, hbs_template })
}

} // verus!
