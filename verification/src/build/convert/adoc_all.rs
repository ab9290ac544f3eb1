//! The combined source document: one file that pulls in every page of the
//! book, section levels following the tree depth.

use vstd::prelude::*;

use crate::book::BookStructure;
use crate::book::index::{Index, IndexItem};
use crate::build::convert::hbs::next_depth_spec;
use crate::text::{chars_to_string, dec_digits, extend_chars, extend_lit, str_to_chars, u64_to_chars};

verus! {

/// The directive line that pulls `file` in at section level `depth`.
pub open spec fn file_line_spec(file: Seq<char>, depth: int) -> Seq<char> {
    "include::"@ + file + "[leveloffset="@ + dec_digits(depth as nat) + "]\n"@
}

/// The directive lines of one directory: its summary document, then each
/// child one level deeper, sub-directories in full.
pub open spec fn visit_spec(index: Index, depth: int) -> Seq<char>
    decreases index,
{
    file_line_spec(index.summary@, depth) + visit_items_spec(index.items@, next_depth_spec(depth))
}

/// The directive lines of a list of children, in order.
pub open spec fn visit_items_spec(items: Seq<IndexItem>, depth: int) -> Seq<char>
    decreases items,
{
    if items.len() == 0 {
        Seq::empty()
    } else {
        visit_item_spec(items[0], depth) + visit_items_spec(items.drop_first(), depth)
    }
}

/// The directive lines of one child.
pub open spec fn visit_item_spec(item: IndexItem, depth: int) -> Seq<char>
    decreases item,
{
    match item {
        IndexItem::File(_name, path) => file_line_spec(path@, depth),
        IndexItem::Dir(sub) => visit_spec(*sub, depth),
    }
}

/// The combined document of a whole book: its title, a stylesheet line,
/// and every page pulled in at its tree depth.
pub open spec fn gen_all_spec(book: BookStructure) -> Seq<char> {
    "= "@ + book.book_ron.title@ + "\n"@ + ":stylesheet: all.css\n"@ + "\n"@ + visit_spec(
        book.index,
        1,
    )
}

/// Appends the directive line for `file` at level `depth` onto `out`.
pub fn write_file(out: &mut Vec<char>, file: &String, depth: usize)
    ensures
        final(out)@ == old(out)@ + file_line_spec(file@, depth as int),
{
    let ghost base = out@;
    extend_lit(out, "include::");
    let f = str_to_chars(file.as_str());
    extend_chars(out, &f);
    extend_lit(out, "[leveloffset=");
    let d = u64_to_chars(depth as u64);
    extend_chars(out, &d);
    extend_lit(out, "]\n");
    proof {
        assert(out@ =~= base + file_line_spec(file@, depth as int));
    }
}

/// Appends the directive lines of `index` at level `depth` onto `out`.
pub fn visit(out: &mut Vec<char>, index: &Index, depth: usize)
    ensures
        final(out)@ == old(out)@ + visit_spec(*index, depth as int),
    decreases *index,
{
    let ghost base = out@;
    write_file(out, &index.summary, depth);
    let deeper: usize = if depth == usize::MAX {
        depth
    } else {
        depth + 1
    };
    let mut i: usize = 0;
    proof {
        assert(visit_items_spec(index.items@.subrange(0, 0), deeper as int) =~= Seq::<
            char,
        >::empty());
        assert(out@ =~= base + file_line_spec(index.summary@, depth as int) + visit_items_spec(
            index.items@.subrange(0, 0),
            deeper as int,
        ));
    }
    while i < index.items.len()
        invariant
            i <= index.items@.len(),
            deeper as int == next_depth_spec(depth as int),
            out@ == base + file_line_spec(index.summary@, depth as int) + visit_items_spec(
                index.items@.subrange(0, i as int),
                deeper as int,
            ),
        decreases index.items@.len() - i,
    {
        let ghost mid = out@;
        match &index.items[i] {
            IndexItem::File(_name, path) => {
                write_file(out, path, deeper);
                proof {
                    assert(out@ =~= mid + visit_item_spec(index.items@[i as int], deeper as int));
                }
            },
            IndexItem::Dir(sub) => {
                visit(out, sub, deeper);
                proof {
                    assert(out@ =~= mid + visit_item_spec(index.items@[i as int], deeper as int));
                }
            },
        }
        i += 1;
        proof {
            lemma_visit_items_snoc(index.items@, deeper as int, i as int);
            assert(out@ =~= base + file_line_spec(index.summary@, depth as int)
                + visit_items_spec(index.items@.subrange(0, i as int), deeper as int));
        }
    }
    proof {
        assert(index.items@.subrange(0, index.items@.len() as int) =~= index.items@);
    }
}

/// A one-longer prefix of children adds exactly the last child's lines.
proof fn lemma_visit_items_snoc(items: Seq<IndexItem>, depth: int, i: int)
    requires
        0 < i <= items.len(),
    ensures
        visit_items_spec(items.subrange(0, i), depth) == visit_items_spec(
            items.subrange(0, i - 1),
            depth,
        ) + visit_item_spec(items[i - 1], depth),
    decreases i,
{
    reveal_with_fuel(visit_items_spec, 3);
    let pre = items.subrange(0, i);
    if i == 1 {
        assert(pre.drop_first() =~= Seq::<IndexItem>::empty());
        assert(items.subrange(0, 0) =~= Seq::<IndexItem>::empty());
        assert(visit_items_spec(pre, depth) =~= visit_items_spec(items.subrange(0, 0), depth)
            + visit_item_spec(items[0], depth));
    } else {
        let t = items.drop_first();
        assert(pre.drop_first() =~= t.subrange(0, i - 1));
        assert(items.subrange(0, i - 1).drop_first() =~= t.subrange(0, i - 2));
        lemma_visit_items_snoc(t, depth, i - 1);
        assert(t[i - 2] == items[i - 1]);
        assert(visit_items_spec(pre, depth) =~= visit_items_spec(items.subrange(0, i - 1), depth)
            + visit_item_spec(items[i - 1], depth));
    }
}

/// The combined source document of the whole book.
pub fn gen_all(book: &BookStructure) -> (r: String)
    ensures
        r@ == gen_all_spec(*book),
{
    let mut out: Vec<char> = Vec::new();
    extend_lit(&mut out, "= ");
    let title = str_to_chars(book.book_ron.title.as_str());
    extend_chars(&mut out, &title);
    extend_lit(&mut out, "\n");
    extend_lit(&mut out, ":stylesheet: all.css\n");
    extend_lit(&mut out, "\n");
    visit(&mut out, &book.index, 1);
    proof {
        assert(out@ =~= gen_all_spec(*book));
    }
    chars_to_string(&out)
}

} // verus!
