//! Walking the book: which files a build touches, in what order, and what
//! becomes of each.
//!
//! The tree is flattened depth-first — each directory's summary document
//! first, then its children in declaration order, sub-directories traversed
//! fully before the next sibling — and the declared convert-only files are
//! appended. The flattened list is partitioned against the cache into the
//! render set and the reuse set before any work is dispatched, so the total
//! unit count is known up front. The shell renders the render set
//! concurrently; the crate turns the collected results and the mirror
//! lookups into per-file outcomes.

use vstd::prelude::*;

use crate::book::BookStructure;
use crate::book::index::{Index, IndexItem};
use crate::build::cache::{need_build_spec, rel_in_src_spec, find_mtime, CacheIndexDiff};
use crate::path::{join_spec, join_str};
use crate::text::{extend_chars, extend_lit, chars_to_string, lemma_str_views_push, str_to_chars, str_views};

verus! {

/// Converter of each source file in the book. The crate plans with
/// [`CacheIndexDiff`] directly; this trait is the seam for the shell's
/// builders, which render by running the external converter.
pub trait BookBuilder {
    /// Can this file be satisfied from the previous build?
    fn can_skip_build(&self, src_file: &String) -> bool;

    /// Render or copy one source file.
    fn convert_file(&mut self, src_file: &String) -> BuildResult;
}

/// What one file's build attempt produced.
pub type BuildResult = Result<BuildOutput, BuildError>;

/// Rendered text plus the source file it came from.
#[derive(Debug)]
pub struct BuildOutput {
    pub string: String,
    /// Canonical path of the source file.
    pub src_file: String,
}

/// An error plus the source file it is attributed to.
#[derive(Debug)]
pub struct BuildError {
    pub err: String,
    /// Canonical path of the source file.
    pub src_file: String,
}

/// The depth-first flattening of a directory: its summary document, then
/// each child in declaration order, sub-directories in full.
pub open spec fn flatten_spec(index: Index) -> Seq<Seq<char>>
    decreases index,
{
    seq![index.summary@] + flatten_items_spec(index.items@)
}

/// The flattening of a list of children, in order.
pub open spec fn flatten_items_spec(items: Seq<IndexItem>) -> Seq<Seq<char>>
    decreases items,
{
    if items.len() == 0 {
        Seq::empty()
    } else {
        flatten_item_spec(items[0]) + flatten_items_spec(items.drop_first())
    }
}

/// The flattening of one child: a file is itself, a directory flattens
/// recursively.
pub open spec fn flatten_item_spec(item: IndexItem) -> Seq<Seq<char>>
    decreases item,
{
    match item {
        IndexItem::File(_name, path) => seq![path@],
        IndexItem::Dir(sub) => flatten_spec(*sub),
    }
}

/// The convert-only files: declared relative to the source directory,
/// rendered but kept out of the sidebar.
pub open spec fn converts_spec(book: BookStructure) -> Seq<Seq<char>> {
    book.book_ron.converts@.map_values(|p: String| join_spec(book.src_dir_spec(), p@))
}

/// Every file a build touches: the flattened tree followed by the declared
/// convert-only files.
pub open spec fn list_src_files_spec(book: BookStructure) -> Seq<Seq<char>> {
    flatten_spec(book.index) + converts_spec(book)
}

/// Appends the flattening of `index` onto `files`.
fn list_files_rec(index: &Index, files: &mut Vec<String>)
    ensures
        str_views(final(files)@) == str_views(old(files)@) + flatten_spec(*index),
    decreases *index,
{
    let ghost base = str_views(files@);
    files.push(index.summary.clone());
    proof {
        assert(str_views(files@) =~= base + seq![index.summary@]);
    }
    let mut i: usize = 0;
    while i < index.items.len()
        invariant
            i <= index.items@.len(),
            str_views(files@) == base + seq![index.summary@] + flatten_items_spec(
                index.items@.subrange(0, i as int),
            ),
        decreases index.items@.len() - i,
    {
        let ghost mid = str_views(files@);
        match &index.items[i] {
            IndexItem::File(_name, path) => {
                files.push(path.clone());
                proof {
                    assert(str_views(files@) =~= mid + flatten_item_spec(
                        index.items@[i as int],
                    ));
                }
            },
            IndexItem::Dir(sub) => {
                list_files_rec(sub, files);
                proof {
                    assert(str_views(files@) =~= mid + flatten_item_spec(
                        index.items@[i as int],
                    ));
                }
            },
        }
        i += 1;
        proof {
            lemma_flatten_items_snoc(index.items@, i as int);
            assert(str_views(files@) =~= base + seq![index.summary@] + flatten_items_spec(
                index.items@.subrange(0, i as int),
            ));
        }
    }
    proof {
        assert(index.items@.subrange(0, index.items@.len() as int) =~= index.items@);
        assert(str_views(files@) =~= base + flatten_spec(*index));
    }
}

/// A one-longer prefix flattens to the shorter prefix plus its last item.
proof fn lemma_flatten_items_snoc(items: Seq<IndexItem>, i: int)
    requires
        0 < i <= items.len(),
    ensures
        flatten_items_spec(items.subrange(0, i)) == flatten_items_spec(items.subrange(0, i - 1))
            + flatten_item_spec(items[i - 1]),
    decreases i,
{
    reveal_with_fuel(flatten_items_spec, 3);
    let pre = items.subrange(0, i);
    if i == 1 {
        assert(pre.drop_first() =~= Seq::<IndexItem>::empty());
        assert(flatten_items_spec(pre) =~= flatten_item_spec(items[0]));
        assert(items.subrange(0, 0) =~= Seq::<IndexItem>::empty());
        assert(flatten_items_spec(pre) =~= flatten_items_spec(items.subrange(0, 0))
            + flatten_item_spec(items[0]));
    } else {
        let t = items.drop_first();
        assert(pre.drop_first() =~= t.subrange(0, i - 1));
        assert(items.subrange(0, i - 1).drop_first() =~= t.subrange(0, i - 2));
        lemma_flatten_items_snoc(t, i - 1);
        assert(t[i - 2] == items[i - 1]);
        assert(flatten_items_spec(pre) =~= flatten_items_spec(items.subrange(0, i - 1))
            + flatten_item_spec(items[i - 1]));
    }
}

/// Every file a build touches, in build order: the tree flattened depth
/// first, then the declared convert-only files joined onto the source
/// directory.
pub fn list_src_files(book: &BookStructure) -> (r: Vec<String>)
    ensures
        str_views(r@) == list_src_files_spec(*book),
{
    let mut files: Vec<String> = Vec::new();
    list_files_rec(&book.index, &mut files);
    proof {
        assert(str_views(files@) =~= flatten_spec(book.index));
    }
    let src_dir = book.src_dir_path();
    let mut i: usize = 0;
    while i < book.book_ron.converts.len()
        invariant
            i <= book.book_ron.converts@.len(),
            src_dir@ == book.src_dir_spec(),
            str_views(files@) == flatten_spec(book.index) + converts_spec(*book).subrange(
                0,
                i as int,
            ),
        decreases book.book_ron.converts@.len() - i,
    {
        let p = join_str(&src_dir, &book.book_ron.converts[i]);
        let ghost prefiles = files@;
        files.push(p);
        i += 1;
        proof {
            lemma_str_views_push(prefiles, files@.last());
            assert(converts_spec(*book)[i - 1] == join_spec(
                book.src_dir_spec(),
                book.book_ron.converts@[i - 1]@,
            ));
            assert(str_views(files@) =~= flatten_spec(book.index) + converts_spec(
                *book,
            ).subrange(0, i as int));
        }
    }
    proof {
        assert(converts_spec(*book).subrange(0, i as int) =~= converts_spec(*book));
    }
    files
}

/// The files of `files` that must be rendered this build, in order.
pub open spec fn render_set_spec(
    files: Seq<Seq<char>>,
    diff: CacheIndexDiff,
    book: BookStructure,
) -> Seq<Seq<char>>
    decreases files.len(),
{
    if files.len() == 0 {
        Seq::empty()
    } else {
        let rest = render_set_spec(files.drop_first(), diff, book);
        if need_build_spec(diff.old, diff.new, rel_in_src_spec(book, files[0]).unwrap()) {
            seq![files[0]] + rest
        } else {
            rest
        }
    }
}

/// The files of `files` that the previous build's artifacts satisfy, in
/// order.
pub open spec fn reuse_set_spec(
    files: Seq<Seq<char>>,
    diff: CacheIndexDiff,
    book: BookStructure,
) -> Seq<Seq<char>>
    decreases files.len(),
{
    if files.len() == 0 {
        Seq::empty()
    } else {
        let rest = reuse_set_spec(files.drop_first(), diff, book);
        if need_build_spec(diff.old, diff.new, rel_in_src_spec(book, files[0]).unwrap()) {
            rest
        } else {
            seq![files[0]] + rest
        }
    }
}

/// Every file the plan may be asked about is under the source directory and
/// tracked by the current snapshot.
pub open spec fn files_tracked_spec(
    files: Seq<Seq<char>>,
    diff: CacheIndexDiff,
    book: BookStructure,
) -> bool {
    forall|k: int|
        0 <= k < files.len() ==> rel_in_src_spec(book, #[trigger] files[k]) is Some && find_mtime(
            diff.new.entries@,
            rel_in_src_spec(book, files[k]).unwrap(),
        ) is Some
}

/// The partition of one build: what is rendered and what is reused, each in
/// flattening order. It is fixed before any rendering is dispatched, so the
/// total unit count is known up front.
#[derive(Debug)]
pub struct BuildPlan {
    pub render: Vec<String>,
    pub reuse: Vec<String>,
}

/// Splits the build's file list into the render set and the reuse set using
/// the cache diff, wholly, before any work starts.
pub fn plan_build(files: &Vec<String>, diff: &CacheIndexDiff, book: &BookStructure) -> (r:
    BuildPlan)
    requires
        files_tracked_spec(str_views(files@), *diff, *book),
    ensures
        str_views(r.render@) == render_set_spec(str_views(files@), *diff, *book),
        str_views(r.reuse@) == reuse_set_spec(str_views(files@), *diff, *book),
{
    let mut render: Vec<String> = Vec::new();
    let mut reuse: Vec<String> = Vec::new();
    let mut i: usize = 0;
    let ghost fv = str_views(files@);
    proof {
        assert(fv.subrange(0, 0) =~= Seq::<Seq<char>>::empty());
        assert(str_views(render@) =~= render_set_spec(fv.subrange(0, 0), *diff, *book));
        assert(str_views(reuse@) =~= reuse_set_spec(fv.subrange(0, 0), *diff, *book));
    }
    while i < files.len()
        invariant
            i <= files@.len(),
            fv == str_views(files@),
            files_tracked_spec(fv, *diff, *book),
            str_views(render@) == render_set_spec(fv.subrange(0, i as int), *diff, *book),
            str_views(reuse@) == reuse_set_spec(fv.subrange(0, i as int), *diff, *book),
        decreases files@.len() - i,
    {
        let ghost pre_render = str_views(render@);
        let ghost pre_reuse = str_views(reuse@);
        let file = &files[i];
        proof {
            assert(fv[i as int] == file@);
        }
        if diff.need_build(book, file) {
            render.push(file.clone());
            proof {
                assert(str_views(render@) =~= pre_render.push(file@));
            }
        } else {
            reuse.push(file.clone());
            proof {
                assert(str_views(reuse@) =~= pre_reuse.push(file@));
            }
        }
        i += 1;
        proof {
            lemma_partition_snoc(fv, *diff, *book, i as int);
            assert(str_views(render@) =~= render_set_spec(fv.subrange(0, i as int), *diff, *book));
            assert(str_views(reuse@) =~= reuse_set_spec(fv.subrange(0, i as int), *diff, *book));
        }
    }
    proof {
        assert(fv.subrange(0, i as int) =~= fv);
    }
    BuildPlan { render, reuse }
}

/// Extending a prefix by one file appends it to exactly one of the two
/// sets, according to the staleness predicate.
proof fn lemma_partition_snoc(files: Seq<Seq<char>>, diff: CacheIndexDiff, book: BookStructure, i: int)
    requires
        0 < i <= files.len(),
    ensures
        render_set_spec(files.subrange(0, i), diff, book) == if need_build_spec(
            diff.old,
            diff.new,
            rel_in_src_spec(book, files[i - 1]).unwrap(),
        ) {
            render_set_spec(files.subrange(0, i - 1), diff, book).push(files[i - 1])
        } else {
            render_set_spec(files.subrange(0, i - 1), diff, book)
        },
        reuse_set_spec(files.subrange(0, i), diff, book) == if need_build_spec(
            diff.old,
            diff.new,
            rel_in_src_spec(book, files[i - 1]).unwrap(),
        ) {
            reuse_set_spec(files.subrange(0, i - 1), diff, book)
        } else {
            reuse_set_spec(files.subrange(0, i - 1), diff, book).push(files[i - 1])
        },
    decreases i,
{
    reveal_with_fuel(render_set_spec, 3);
    reveal_with_fuel(reuse_set_spec, 3);
    let pre = files.subrange(0, i);
    if i == 1 {
        assert(pre.drop_first() =~= Seq::<Seq<char>>::empty());
        assert(files.subrange(0, 0) =~= Seq::<Seq<char>>::empty());
        if need_build_spec(diff.old, diff.new, rel_in_src_spec(book, files[0]).unwrap()) {
            assert(render_set_spec(pre, diff, book) =~= render_set_spec(
                files.subrange(0, 0),
                diff,
                book,
            ).push(files[0]));
        } else {
            assert(reuse_set_spec(pre, diff, book) =~= reuse_set_spec(
                files.subrange(0, 0),
                diff,
                book,
            ).push(files[0]));
        }
    } else {
        let t = files.drop_first();
        assert(pre.drop_first() =~= t.subrange(0, i - 1));
        assert(files.subrange(0, i - 1).drop_first() =~= t.subrange(0, i - 2));
        lemma_partition_snoc(t, diff, book, i - 1);
        assert(t[i - 2] == files[i - 1]);
        let x_render = render_set_spec(t.subrange(0, i - 2), diff, book);
        let x_reuse = reuse_set_spec(t.subrange(0, i - 2), diff, book);
        let c0 = need_build_spec(diff.old, diff.new, rel_in_src_spec(book, files[0]).unwrap());
        let cl = need_build_spec(
            diff.old,
            diff.new,
            rel_in_src_spec(book, files[i - 1]).unwrap(),
        );
        if cl {
            if c0 {
                assert(render_set_spec(pre, diff, book) =~= (seq![files[0]] + x_render).push(
                    files[i - 1],
                ));
            } else {
                assert(render_set_spec(pre, diff, book) =~= x_render.push(files[i - 1]));
            }
            assert(render_set_spec(pre, diff, book) =~= render_set_spec(
                files.subrange(0, i - 1),
                diff,
                book,
            ).push(files[i - 1]));
            assert(reuse_set_spec(pre, diff, book) =~= reuse_set_spec(
                files.subrange(0, i - 1),
                diff,
                book,
            ));
        } else {
            if c0 {
                assert(reuse_set_spec(pre, diff, book) =~= x_reuse.push(files[i - 1]));
            } else {
                assert(reuse_set_spec(pre, diff, book) =~= (seq![files[0]] + x_reuse).push(
                    files[i - 1],
                ));
            }
            assert(reuse_set_spec(pre, diff, book) =~= reuse_set_spec(
                files.subrange(0, i - 1),
                diff,
                book,
            ).push(files[i - 1]));
            assert(render_set_spec(pre, diff, book) =~= render_set_spec(
                files.subrange(0, i - 1),
                diff,
                book,
            ));
        }
    }
}

} // verus!

verus! {

/// The successful outputs among `results`, in order.
pub open spec fn outputs_spec(results: Seq<BuildResult>) -> Seq<BuildOutput>
    decreases results.len(),
{
    if results.len() == 0 {
        Seq::empty()
    } else {
        let rest = outputs_spec(results.drop_first());
        match results[0] {
            Ok(o) => seq![o] + rest,
            Err(_) => rest,
        }
    }
}

/// The failures among `results`, in order.
pub open spec fn failures_spec(results: Seq<BuildResult>) -> Seq<BuildError>
    decreases results.len(),
{
    if results.len() == 0 {
        Seq::empty()
    } else {
        let rest = failures_spec(results.drop_first());
        match results[0] {
            Ok(_) => rest,
            Err(e) => seq![e] + rest,
        }
    }
}

/// Every dispatched file yields exactly one outcome: the successes and the
/// failures together count the results, so one failing render loses no
/// other file's output.
pub proof fn lemma_every_file_has_outcome(results: Seq<BuildResult>)
    ensures
        outputs_spec(results).len() + failures_spec(results).len() == results.len(),
    decreases results.len(),
{
    if results.len() > 0 {
        lemma_every_file_has_outcome(results.drop_first());
    }
}

/// Splits the collected per-file results into the usable outputs and the
/// failures, each in completion order; nothing is dropped.
pub fn collect_build_results(results: Vec<BuildResult>) -> (r: (Vec<BuildOutput>, Vec<BuildError>))
    ensures
        r.0@ == outputs_spec(results@),
        r.1@ == failures_spec(results@),
        r.0@.len() + r.1@.len() == results@.len(),
{
    let mut outputs: Vec<BuildOutput> = Vec::new();
    let mut errors: Vec<BuildError> = Vec::new();
    let mut rest = results;
    let ghost all = rest@;
    proof {
        assert(outputs@ + outputs_spec(all) =~= outputs_spec(all));
        assert(errors@ + failures_spec(all) =~= failures_spec(all));
    }
    while rest.len() > 0
        invariant
            outputs@ + outputs_spec(rest@) == outputs_spec(all),
            errors@ + failures_spec(rest@) == failures_spec(all),
        decreases rest@.len(),
    {
        let ghost tail = rest@;
        let item = rest.remove(0);
        proof {
            assert(rest@ =~= tail.drop_first());
            assert(item == tail[0]);
        }
        match item {
            Ok(o) => {
                let ghost pre = outputs@;
                outputs.push(o);
                proof {
                    assert(outputs@ + outputs_spec(rest@) =~= pre + outputs_spec(tail));
                }
            },
            Err(e) => {
                let ghost pre = errors@;
                errors.push(e);
                proof {
                    assert(errors@ + failures_spec(rest@) =~= pre + failures_spec(tail));
                }
            },
        }
    }
    proof {
        assert(rest@ =~= Seq::<BuildResult>::empty());
        assert(outputs@ + outputs_spec(rest@) =~= outputs@);
        assert(errors@ + failures_spec(rest@) =~= errors@);
        lemma_every_file_has_outcome(all);
    }
    (outputs, errors)
}

} // verus!

verus! {

impl BuildPlan {
    /// Nothing to render: the build may stop at once, as a success.
    pub fn is_noop(&self) -> (r: bool)
        ensures
            r == (self.render@.len() == 0),
    {
        self.render.len() == 0
    }
}

/// The message of the hard per-file error raised when the index claims a
/// file is reusable but the artifact mirror holds nothing for it.
pub open spec fn cache_drift_message_spec(src_file: Seq<char>) -> Seq<char> {
    "Unable to locate cached file for "@ + src_file
        + "; the cache is out of step, clear it and rebuild"@
}

/// The outcome of one reuse-set file, from what the artifact mirror held
/// for it. A missing artifact despite the index claiming reusability is a
/// hard per-file error recommending a cache clear — never a silent
/// re-render.
pub fn reuse_outcome(src_file: &String, cached: Option<String>) -> (r: BuildResult)
    ensures
        match r {
            Ok(o) => cached is Some && o.string@ == cached.unwrap()@ && o.src_file@ == src_file@,
            Err(e) => cached is None && e.src_file@ == src_file@ && e.err@
                == cache_drift_message_spec(src_file@),
        },
{
    match cached {
        Some(text) => Ok(BuildOutput { string: text, src_file: src_file.clone() }),
        None => {
            let mut msg: Vec<char> = Vec::new();
            extend_lit(&mut msg, "Unable to locate cached file for ");
            let f = str_to_chars(src_file.as_str());
            extend_chars(&mut msg, &f);
            extend_lit(&mut msg, "; the cache is out of step, clear it and rebuild");
            Err(BuildError { err: chars_to_string(&msg), src_file: src_file.clone() })
        },
    }
}

/// An immediately repeated build re-renders nothing: when the previous
/// snapshot equals the one just taken, the render set is empty and every
/// tracked file falls into the reuse set.
pub proof fn lemma_unchanged_snapshot_renders_nothing(
    files: Seq<Seq<char>>,
    diff: CacheIndexDiff,
    book: BookStructure,
)
    requires
        files_tracked_spec(files, diff, book),
        diff.old is Some,
        crate::build::cache::entry_views(diff.old.unwrap().entries@)
            == crate::build::cache::entry_views(diff.new.entries@),
    ensures
        render_set_spec(files, diff, book) == Seq::<Seq<char>>::empty(),
        reuse_set_spec(files, diff, book) == files,
    decreases files.len(),
{
    if files.len() > 0 {
        let rel = rel_in_src_spec(book, files[0]).unwrap();
        crate::build::cache::lemma_find_mtime_from_views(
            diff.old.unwrap().entries@,
            diff.new.entries@,
            rel,
        );
        assert(!need_build_spec(diff.old, diff.new, rel));
        assert(files_tracked_spec(files.drop_first(), diff, book)) by {
            assert(forall|k: int|
                0 <= k < files.len() - 1 ==> files.drop_first()[k] == #[trigger] files[k + 1]);
        }
        lemma_unchanged_snapshot_renders_nothing(files.drop_first(), diff, book);
        assert(reuse_set_spec(files, diff, book) =~= files);
    } else {
        assert(render_set_spec(files, diff, book) =~= Seq::<Seq<char>>::empty());
        assert(reuse_set_spec(files, diff, book) =~= files);
    }
}

} // verus!
