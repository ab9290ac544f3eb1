//! Building a project into its site directory.
//!
//! The build walks the loaded tree, decides which files must be rendered
//! again, renders those, and assembles rendered pages, static assets and
//! theme files into the site directory. The decisions here plan the
//! assembly — what is kept, copied and written, and what is recorded as an
//! error — while the shell performs the copies and writes. Only a missing
//! output root, and a failed final snapshot write, may abort a build; every
//! other failure is collected and reported.

pub mod cache;
pub mod convert;
pub mod visit;

use vstd::prelude::*;

use crate::book::BookStructure;
use crate::book::walk::BuildOutput;
use crate::path::{
    is_relative, is_relative_spec, join_chars, join_spec, join_str, last_index_of, strip_prefix,
    strip_prefix_spec, with_extension, with_extension_spec,
};
use crate::text::{chars_to_string, str_to_chars, str_views};
use crate::vfs::FsCatalog;

verus! {

/// One planned copy from the source tree into the site.
#[derive(Debug)]
pub struct CopyAction {
    pub src: String,
    pub dst: String,
    /// Whether the source is a directory, copied recursively.
    pub is_dir: bool,
}

/// The shape of a planned copy.
pub open spec fn copy_view(a: CopyAction) -> (Seq<char>, Seq<char>, bool) {
    (a.src@, a.dst@, a.is_dir)
}

/// The shapes of a list of planned copies.
pub open spec fn copy_views(actions: Seq<CopyAction>) -> Seq<(Seq<char>, Seq<char>, bool)> {
    actions.map_values(|a: CopyAction| copy_view(a))
}

/// A declared asset that could not be planned.
#[derive(Debug)]
pub enum AssembleError {
    /// The declared path is not relative to the source directory.
    NonRelativePath(String),
    /// Nothing exists where the declared path points.
    MissingSource(String),
}

/// The shape of an assembly error: whether the path was non-relative, and
/// the declared path itself.
pub open spec fn assemble_error_view(e: AssembleError) -> (bool, Seq<char>) {
    match e {
        AssembleError::NonRelativePath(p) => (true, p@),
        AssembleError::MissingSource(p) => (false, p@),
    }
}

/// The shapes of a list of assembly errors.
pub open spec fn assemble_error_views(errors: Seq<AssembleError>) -> Seq<(bool, Seq<char>)> {
    errors.map_values(|e: AssembleError| assemble_error_view(e))
}

/// The copies the declared `includes` yield: each existing relative path
/// is copied from under the source directory to the same relative location
/// under the site directory.
pub open spec fn include_actions_spec(
    includes: Seq<Seq<char>>,
    book: BookStructure,
    fs: FsCatalog,
) -> Seq<(Seq<char>, Seq<char>, bool)>
    decreases includes.len(),
{
    if includes.len() == 0 {
        Seq::empty()
    } else {
        let rel = includes[0];
        let rest = include_actions_spec(includes.drop_first(), book, fs);
        let src = join_spec(book.src_dir_spec(), rel);
        let dst = join_spec(book.site_dir_spec(), rel);
        if !is_relative_spec(rel) {
            rest
        } else if fs.has_file(src) {
            seq![(src, dst, false)] + rest
        } else if fs.has_dir(src) {
            seq![(src, dst, true)] + rest
        } else {
            rest
        }
    }
}

/// The errors the declared `includes` yield: one per non-relative path and
/// one per path with nothing under the source directory, each naming the
/// declared path.
pub open spec fn include_errors_spec(
    includes: Seq<Seq<char>>,
    book: BookStructure,
    fs: FsCatalog,
) -> Seq<(bool, Seq<char>)>
    decreases includes.len(),
{
    if includes.len() == 0 {
        Seq::empty()
    } else {
        let rel = includes[0];
        let rest = include_errors_spec(includes.drop_first(), book, fs);
        let src = join_spec(book.src_dir_spec(), rel);
        if !is_relative_spec(rel) {
            seq![(true, rel)] + rest
        } else if fs.has_file(src) || fs.has_dir(src) {
            rest
        } else {
            seq![(false, rel)] + rest
        }
    }
}

/// Every declared asset is accounted for exactly once: it is planned as a
/// copy or recorded as an error, never both, never neither.
pub proof fn lemma_include_accounted(includes: Seq<Seq<char>>, book: BookStructure, fs: FsCatalog)
    ensures
        include_actions_spec(includes, book, fs).len() + include_errors_spec(
            includes,
            book,
            fs,
        ).len() == includes.len(),
    decreases includes.len(),
{
    if includes.len() > 0 {
        lemma_include_accounted(includes.drop_first(), book, fs);
    }
}

/// Plans the copies of the book's declared assets into the site: existing
/// relative paths are copied to the same relative location; a non-relative
/// or missing path is recorded and skipped, never fatal.
pub fn plan_includes(book: &BookStructure, fs: &FsCatalog) -> (r: (
    Vec<CopyAction>,
    Vec<AssembleError>,
))
    ensures
        copy_views(r.0@) == include_actions_spec(str_views(book.book_ron.includes@), *book, *fs),
        assemble_error_views(r.1@) == include_errors_spec(
            str_views(book.book_ron.includes@),
            *book,
            *fs,
        ),
{
    let ghost incv = str_views(book.book_ron.includes@);
    let src_dir = book.src_dir_path();
    let site_dir = book.site_dir_path();
    let src_chars = str_to_chars(src_dir.as_str());
    let site_chars = str_to_chars(site_dir.as_str());
    let mut actions: Vec<CopyAction> = Vec::new();
    let mut errors: Vec<AssembleError> = Vec::new();
    let mut i: usize = 0;
    proof {
        assert(incv.skip(0) =~= incv);
        assert(copy_views(actions@) + include_actions_spec(incv, *book, *fs)
            =~= include_actions_spec(incv, *book, *fs));
        assert(assemble_error_views(errors@) + include_errors_spec(incv, *book, *fs)
            =~= include_errors_spec(incv, *book, *fs));
    }
    while i < book.book_ron.includes.len()
        invariant
            i <= incv.len(),
            incv == str_views(book.book_ron.includes@),
            src_chars@ == book.src_dir_spec(),
            site_chars@ == book.site_dir_spec(),
            copy_views(actions@) + include_actions_spec(incv.skip(i as int), *book, *fs)
                == include_actions_spec(incv, *book, *fs),
            assemble_error_views(errors@) + include_errors_spec(incv.skip(i as int), *book, *fs)
                == include_errors_spec(incv, *book, *fs),
        decreases incv.len() - i,
    {
        let ghost tail = incv.skip(i as int);
        proof {
            assert(tail[0] == incv[i as int]);
            assert(tail.drop_first() =~= incv.skip(i + 1));
            assert(incv[i as int] == book.book_ron.includes@[i as int]@);
        }
        let rel = &book.book_ron.includes[i];
        let rel_chars = str_to_chars(rel.as_str());
        let ghost pre_a = actions@;
        let ghost pre_e = errors@;
        if !is_relative(&rel_chars) {
            errors.push(AssembleError::NonRelativePath(rel.clone()));
            proof {
                lemma_assemble_error_views_push(pre_e, errors@.last());
            }
        } else {
            let src = chars_to_string(&join_chars(&src_chars, &rel_chars));
            let dst = chars_to_string(&join_chars(&site_chars, &rel_chars));
            if fs.is_file(&src) {
                actions.push(CopyAction { src, dst, is_dir: false });
                proof {
                    lemma_copy_views_push(pre_a, actions@.last());
                }
            } else if fs.is_dir(&src) {
                actions.push(CopyAction { src, dst, is_dir: true });
                proof {
                    lemma_copy_views_push(pre_a, actions@.last());
                }
            } else {
                errors.push(AssembleError::MissingSource(rel.clone()));
                proof {
                    lemma_assemble_error_views_push(pre_e, errors@.last());
                }
            }
        }
        i += 1;
        proof {
            assert(copy_views(actions@) + include_actions_spec(incv.skip(i as int), *book, *fs)
                =~= copy_views(pre_a) + include_actions_spec(tail, *book, *fs));
            assert(assemble_error_views(errors@) + include_errors_spec(
                incv.skip(i as int),
                *book,
                *fs,
            ) =~= assemble_error_views(pre_e) + include_errors_spec(tail, *book, *fs));
        }
    }
    proof {
        assert(incv.skip(i as int) =~= Seq::<Seq<char>>::empty());
        assert(copy_views(actions@) + include_actions_spec(incv.skip(i as int), *book, *fs)
            =~= copy_views(actions@));
        assert(assemble_error_views(errors@) + include_errors_spec(incv.skip(i as int), *book, *fs)
            =~= assemble_error_views(errors@));
    }
    (actions, errors)
}

/// Appending one copy appends its shape.
proof fn lemma_copy_views_push(actions: Seq<CopyAction>, a: CopyAction)
    ensures
        copy_views(actions.push(a)) =~= copy_views(actions).push(copy_view(a)),
{
}

/// Appending one error appends its shape.
proof fn lemma_assemble_error_views_push(errors: Seq<AssembleError>, e: AssembleError)
    ensures
        assemble_error_views(errors.push(e)) =~= assemble_error_views(errors).push(
            assemble_error_view(e),
        ),
{
}

/// The name after the last slash of `p`.
pub open spec fn file_name_spec(p: Seq<char>) -> Seq<char> {
    p.skip(last_index_of(p, '/') + 1)
}

/// An entry the site clear must keep: the fresh output directory itself,
/// and anything whose name starts with a dot, such as version-control
/// metadata.
pub open spec fn keep_on_clear_spec(p: Seq<char>, out_dir: Seq<char>) -> bool {
    p == out_dir || {
        let name = file_name_spec(p);
        name.len() > 0 && name[0] == '.'
    }
}

/// Is `p` kept when the site directory is cleared before assembly?
pub fn keep_on_clear(p: &String, out_dir: &String) -> (r: bool)
    ensures
        r == keep_on_clear_spec(p@, out_dir@),
{
    if *p == *out_dir {
        return true;
    }
    let chars = str_to_chars(p.as_str());
    let n: usize = chars.len();
    let name_start: usize = match crate::path::rfind_char(&chars, '/') {
        Some(s) => {
            proof {
                assert(s < n);
            }
            s + 1
        },
        None => 0,
    };
    proof {
        crate::path::lemma_last_index_bound(p@, '/');
        assert(chars@.skip(name_start as int) =~= file_name_spec(p@));
        if name_start < n {
            assert(file_name_spec(p@)[0] == chars@[name_start as int]);
        }
    }
    name_start < n && chars[name_start] == '.'
}

/// Where one rendered page is written: the source path relative to the
/// source directory, with the page extension, under `out_dir`.
pub open spec fn html_dst_spec(src_dir: Seq<char>, out_dir: Seq<char>, src_file: Seq<char>) -> Option<
    Seq<char>,
> {
    match strip_prefix_spec(with_extension_spec(src_file, "html"@), src_dir) {
        None => None,
        Some(rel) => Some(join_spec(out_dir, rel)),
    }
}

/// One planned write of rendered text.
#[derive(Debug)]
pub struct WriteAction {
    pub path: String,
    pub text: String,
}

/// Plans the writes that publish the build's outputs under `out_dir`, one
/// per output, in order: the path per [`html_dst_spec`], the text as
/// rendered.
pub fn plan_html_outputs(outputs: &Vec<BuildOutput>, src_dir: &String, out_dir: &String) -> (r: Vec<
    WriteAction,
>)
    requires
        forall|k: int|
            0 <= k < outputs@.len() ==> html_dst_spec(
                src_dir@,
                out_dir@,
                (#[trigger] outputs@[k]).src_file@,
            ) is Some,
    ensures
        r@.len() == outputs@.len(),
        forall|k: int|
            0 <= k < outputs@.len() ==> (#[trigger] r@[k]).path@ == html_dst_spec(
                src_dir@,
                out_dir@,
                outputs@[k].src_file@,
            ).unwrap() && r@[k].text@ == outputs@[k].string@,
{
    let src_chars = str_to_chars(src_dir.as_str());
    let out_chars = str_to_chars(out_dir.as_str());
    let mut writes: Vec<WriteAction> = Vec::new();
    let mut i: usize = 0;
    while i < outputs.len()
        invariant
            i <= outputs@.len(),
            src_chars@ == src_dir@,
            out_chars@ == out_dir@,
            writes@.len() == i,
            forall|k: int|
                0 <= k < outputs@.len() ==> html_dst_spec(
                    src_dir@,
                    out_dir@,
                    (#[trigger] outputs@[k]).src_file@,
                ) is Some,
            forall|k: int|
                0 <= k < i ==> (#[trigger] writes@[k]).path@ == html_dst_spec(
                    src_dir@,
                    out_dir@,
                    outputs@[k].src_file@,
                ).unwrap() && writes@[k].text@ == outputs@[k].string@,
        decreases outputs@.len() - i,
    {
        let output = &outputs[i];
        let file_chars = str_to_chars(output.src_file.as_str());
        let page = with_extension(&file_chars, "html");
        let rel = strip_prefix(&page, &src_chars).unwrap();
        let dst = join_chars(&out_chars, &rel);
        writes.push(WriteAction { path: chars_to_string(&dst), text: output.string.clone() });
        i += 1;
    }
    writes
}

} // verus!

verus! {

/// The (from, to) views of the declared extra copies.
pub open spec fn copy_decl_views(copies: Seq<crate::book::config::CopyRon>) -> Seq<
    (Seq<char>, Seq<char>),
> {
    copies.map_values(|c: crate::book::config::CopyRon| (c.from@, c.to@))
}

/// The copies the declared `copies` table yields: both sides joined onto
/// the project root, files and directories by what exists at the source.
pub open spec fn copies_actions_spec(decls: Seq<(Seq<char>, Seq<char>)>, book: BookStructure, fs: FsCatalog) -> Seq<
    (Seq<char>, Seq<char>, bool),
>
    decreases decls.len(),
{
    if decls.len() == 0 {
        Seq::empty()
    } else {
        let rest = copies_actions_spec(decls.drop_first(), book, fs);
        let src = join_spec(book.root@, decls[0].0);
        let dst = join_spec(book.root@, decls[0].1);
        if fs.has_file(src) {
            seq![(src, dst, false)] + rest
        } else if fs.has_dir(src) {
            seq![(src, dst, true)] + rest
        } else {
            rest
        }
    }
}

/// The warnings the declared `copies` table yields: one per source with
/// nothing under the project root, naming the declared path.
pub open spec fn copies_warnings_spec(decls: Seq<(Seq<char>, Seq<char>)>, book: BookStructure, fs: FsCatalog) -> Seq<
    Seq<char>,
>
    decreases decls.len(),
{
    if decls.len() == 0 {
        Seq::empty()
    } else {
        let rest = copies_warnings_spec(decls.drop_first(), book, fs);
        let src = join_spec(book.root@, decls[0].0);
        if fs.has_file(src) || fs.has_dir(src) {
            rest
        } else {
            seq![decls[0].0] + rest
        }
    }
}

/// Plans the extra copies the project declares, both sides relative to the
/// project root; a missing source is a warning and is skipped, never fatal.
pub fn plan_copies(book: &BookStructure, fs: &FsCatalog) -> (r: (Vec<CopyAction>, Vec<String>))
    ensures
        copy_views(r.0@) == copies_actions_spec(
            copy_decl_views(book.book_ron.copies@),
            *book,
            *fs,
        ),
        str_views(r.1@) == copies_warnings_spec(copy_decl_views(book.book_ron.copies@), *book, *fs),
{
    let ghost decls = copy_decl_views(book.book_ron.copies@);
    let mut actions: Vec<CopyAction> = Vec::new();
    let mut warnings: Vec<String> = Vec::new();
    let mut i: usize = 0;
    proof {
        assert(decls.skip(0) =~= decls);
        assert(copy_views(actions@) + copies_actions_spec(decls, *book, *fs)
            =~= copies_actions_spec(decls, *book, *fs));
        assert(str_views(warnings@) + copies_warnings_spec(decls, *book, *fs)
            =~= copies_warnings_spec(decls, *book, *fs));
    }
    while i < book.book_ron.copies.len()
        invariant
            i <= decls.len(),
            decls == copy_decl_views(book.book_ron.copies@),
            copy_views(actions@) + copies_actions_spec(decls.skip(i as int), *book, *fs)
                == copies_actions_spec(decls, *book, *fs),
            str_views(warnings@) + copies_warnings_spec(decls.skip(i as int), *book, *fs)
                == copies_warnings_spec(decls, *book, *fs),
        decreases decls.len() - i,
    {
        let ghost tail = decls.skip(i as int);
        proof {
            assert(tail[0] == decls[i as int]);
            assert(tail.drop_first() =~= decls.skip(i + 1));
            assert(decls[i as int] == (
                book.book_ron.copies@[i as int].from@,
                book.book_ron.copies@[i as int].to@,
            ));
        }
        let decl = &book.book_ron.copies[i];
        let src = join_str(&book.root, &decl.from);
        let dst = join_str(&book.root, &decl.to);
        let ghost pre_a = actions@;
        let ghost pre_w = warnings@;
        if fs.is_file(&src) {
            actions.push(CopyAction { src, dst, is_dir: false });
            proof {
                lemma_copy_views_push(pre_a, actions@.last());
            }
        } else if fs.is_dir(&src) {
            actions.push(CopyAction { src, dst, is_dir: true });
            proof {
                lemma_copy_views_push(pre_a, actions@.last());
            }
        } else {
            warnings.push(decl.from.clone());
            proof {
                crate::text::lemma_str_views_push(pre_w, warnings@.last());
            }
        }
        i += 1;
        proof {
            assert(copy_views(actions@) + copies_actions_spec(decls.skip(i as int), *book, *fs)
                =~= copy_views(pre_a) + copies_actions_spec(tail, *book, *fs));
            assert(str_views(warnings@) + copies_warnings_spec(decls.skip(i as int), *book, *fs)
                =~= str_views(pre_w) + copies_warnings_spec(tail, *book, *fs));
        }
    }
    proof {
        assert(decls.skip(i as int) =~= Seq::<(Seq<char>, Seq<char>)>::empty());
        assert(copy_views(actions@) + copies_actions_spec(decls.skip(i as int), *book, *fs)
            =~= copy_views(actions@));
        assert(str_views(warnings@) + copies_warnings_spec(decls.skip(i as int), *book, *fs)
            =~= str_views(warnings@));
    }
    (actions, warnings)
}

} // verus!
