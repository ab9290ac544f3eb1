//! The sidebar and the input handed to the template engine.
//!
//! Pages rendered through a template carry a sidebar mirroring the book
//! tree: one entry per file, one per directory with its children nested,
//! each with a display title and a site-relative URL. The crate builds the
//! sidebar and the full template input; the shell only feeds them to the
//! external template engine.

use vstd::prelude::*;

use crate::book::BookStructure;
use crate::book::index::IndexItem;
use crate::build::convert::adoc::{AdocAttr, AdocMetadata};
use crate::path::{strip_prefix, strip_prefix_spec, with_extension, with_extension_spec};
use crate::text::{
    chars_to_string, extend_chars, starts_with, starts_with_spec, str_to_chars, sub_chars, trim,
    trim_spec,
};
use crate::vfs::FsCatalog;

verus! {

/// One sidebar entry.
#[derive(Debug)]
pub struct SidebarItem {
    pub name: String,
    pub url: Option<String>,
    pub children: Option<Box<Vec<SidebarItem>>>,
    pub active: bool,
    pub depth: usize,
}

/// The mathematical shape of a sidebar entry.
#[verifier::ext_equal]
pub struct SidebarItemV {
    pub name: Seq<char>,
    pub url: Option<Seq<char>>,
    pub children: Option<Seq<SidebarItemV>>,
    pub active: bool,
    pub depth: int,
}

impl SidebarItem {
    /// This entry's shape.
    pub open spec fn view_spec(self) -> SidebarItemV
        decreases self,
    {
        SidebarItemV {
            name: self.name@,
            url: match self.url {
                Some(u) => Some(u@),
                None => None,
            },
            children: match self.children {
                Some(cs) => Some(items_views(cs@)),
                None => None,
            },
            active: self.active,
            depth: self.depth as int,
        }
    }
}

/// The shapes of a list of entries.
pub open spec fn items_views(items: Seq<SidebarItem>) -> Seq<SidebarItemV>
    decreases items,
{
    if items.len() == 0 {
        Seq::empty()
    } else {
        seq![items[0].view_spec()] + items_views(items.drop_first())
    }
}

/// Appending one entry appends its shape.
proof fn lemma_items_views_push(items: Seq<SidebarItem>, it: SidebarItem)
    ensures
        items_views(items.push(it)) =~= items_views(items).push(it.view_spec()),
    decreases items.len(),
{
    reveal_with_fuel(items_views, 3);
    if items.len() == 0 {
        assert(items.push(it).drop_first() =~= Seq::<SidebarItem>::empty());
        assert(items.push(it)[0] == it);
    } else {
        lemma_items_views_push(items.drop_first(), it);
        assert(items.push(it).drop_first() =~= items.drop_first().push(it));
        assert(items.push(it)[0] == items[0]);
    }
}

/// A display title: the declared name when it is not empty, else the
/// file's opening line without its `"= "` marker, else a placeholder; no
/// title at all when the file is not in the catalog.
pub open spec fn title_of_spec(name: Seq<char>, file: Seq<char>, fs: FsCatalog) -> Option<
    Seq<char>,
> {
    if name.len() > 0 {
        Some(name)
    } else if !fs.has_file(file) {
        None
    } else {
        let first = fs.file_at(file).first_line@;
        if starts_with_spec(first, "= "@) {
            Some(trim_spec(first.skip(2)))
        } else {
            Some("<untitled>"@)
        }
    }
}

/// Reads the display title of `file`, as [`title_of_spec`] describes; an
/// unreadable file is the error, carrying its path.
fn get_title(name: &String, file: &String, fs: &FsCatalog) -> (r: Result<String, String>)
    ensures
        match r {
            Ok(t) => title_of_spec(name@, file@, *fs) == Some(t@),
            Err(_) => title_of_spec(name@, file@, *fs) is None,
        },
{
    if name.as_str().unicode_len() > 0 {
        return Ok(name.clone());
    }
    match fs.find_file(file) {
        None => Err(file.clone()),
        Some(rec) => {
            let first = str_to_chars(rec.first_line.as_str());
            if starts_with(&first, "= ") {
                proof {
                    reveal_strlit("= ");
                }
                let rest = sub_chars(&first, 2, first.len());
                proof {
                    assert(rest@ =~= first@.skip(2));
                }
                Ok(chars_to_string(&trim(&rest)))
            } else {
                Ok(String::from_str("<untitled>"))
            }
        },
    }
}

/// The URL of an article: its path relative to the source directory, with
/// the page extension, behind the base URL; no URL when the file is not
/// under the source directory.
pub open spec fn url_spec(src_dir: Seq<char>, src_file: Seq<char>, base_url: Seq<char>) -> Option<
    Seq<char>,
> {
    match strip_prefix_spec(src_file, src_dir) {
        None => None,
        Some(rel) => Some(base_url + seq!['/'] + with_extension_spec(rel, "html"@)),
    }
}

#[derive(Debug)]
pub struct Sidebar {
    pub items: Vec<SidebarItem>,
    /// Entries up to this level are open by default.
    pub fold_level: Option<usize>,
}

impl Sidebar {
    /// The URL for an article in the sidebar, per [`url_spec`]; a file
    /// outside the source directory is the error, carrying its path.
    pub fn get_url(src_dir: &String, src_file: &String, base_url_str: &String) -> (r: Result<
        String,
        String,
    >)
        ensures
            match r {
                Ok(u) => url_spec(src_dir@, src_file@, base_url_str@) == Some(u@),
                Err(_) => url_spec(src_dir@, src_file@, base_url_str@) is None,
            },
    {
        let file_chars = str_to_chars(src_file.as_str());
        let dir_chars = str_to_chars(src_dir.as_str());
        match strip_prefix(&file_chars, &dir_chars) {
            None => Err(src_file.clone()),
            Some(rel) => {
                let page = with_extension(&rel, "html");
                let mut url = str_to_chars(base_url_str.as_str());
                url.push('/');
                proof {
                    assert(url@ =~= base_url_str@ + seq!['/']);
                }
                extend_chars(&mut url, &page);
                proof {
                    assert(url@ =~= base_url_str@ + seq!['/'] + with_extension_spec(
                        rel@,
                        "html"@,
                    ));
                }
                Ok(chars_to_string(&url))
            },
        }
    }
}

/// `d` one level deeper; the deepest level stays put rather than wrap.
pub open spec fn next_depth_spec(d: int) -> int {
    if d == usize::MAX as int {
        d
    } else {
        d + 1
    }
}

/// The sidebar entry one tree item yields, or nothing when its title or
/// URL cannot be made.
pub open spec fn map_item_spec(
    item: IndexItem,
    src_dir: Seq<char>,
    base_url: Seq<char>,
    fs: FsCatalog,
    depth: int,
) -> Option<SidebarItemV>
    decreases item,
{
    match item {
        IndexItem::File(name, file) => {
            match (title_of_spec(name@, file@, fs), url_spec(src_dir, file@, base_url)) {
                (Some(t), Some(u)) => Some(
                    SidebarItemV { name: t, url: Some(u), children: None, active: false, depth },
                ),
                _ => None,
            }
        },
        IndexItem::Dir(sub) => {
            let children = collect_spec(sub.items@, src_dir, base_url, fs, next_depth_spec(depth));
            match (
                title_of_spec(sub.name@, sub.summary@, fs),
                url_spec(src_dir, sub.summary@, base_url),
            ) {
                (Some(t), Some(u)) => Some(
                    SidebarItemV {
                        name: t,
                        url: Some(u),
                        children: Some(children),
                        active: false,
                        depth,
                    },
                ),
                _ => None,
            }
        },
    }
}

/// The sidebar entries a list of tree items yields, in order; items that
/// yield nothing are dropped.
pub open spec fn collect_spec(
    items: Seq<IndexItem>,
    src_dir: Seq<char>,
    base_url: Seq<char>,
    fs: FsCatalog,
    depth: int,
) -> Seq<SidebarItemV>
    decreases items,
{
    if items.len() == 0 {
        Seq::empty()
    } else {
        let rest = collect_spec(items.drop_first(), src_dir, base_url, fs, depth);
        match map_item_spec(items[0], src_dir, base_url, fs, depth) {
            Some(v) => seq![v] + rest,
            None => rest,
        }
    }
}

impl Sidebar {
    /// Turns one tree item into its sidebar entry, recursing through
    /// directories; inner errors land in `errors`, and an item whose own
    /// title or URL cannot be made is the error.
    fn map_item(
        item: &IndexItem,
        src_dir: &String,
        base_url_str: &String,
        errors: &mut Vec<String>,
        depth: usize,
        fs: &FsCatalog,
    ) -> (r: Result<SidebarItem, String>)
        ensures
            match r {
                Ok(s) => map_item_spec(*item, src_dir@, base_url_str@, *fs, depth as int) == Some(
                    s.view_spec(),
                ),
                Err(_) => map_item_spec(*item, src_dir@, base_url_str@, *fs, depth as int)
                    is None,
            },
            final(errors)@.len() >= old(errors)@.len(),
            final(errors)@.subrange(0, old(errors)@.len() as int) == old(errors)@,
        decreases *item,
    {
        match item {
            IndexItem::File(name, file) => {
                proof {
                    assert(final(errors)@.subrange(0, old(errors)@.len() as int) =~= old(
                        errors,
                    )@);
                }
                let title = match get_title(name, file, fs) {
                    Ok(t) => t,
                    Err(e) => {
                        return Err(e);
                    },
                };
                let url = match Self::get_url(src_dir, file, base_url_str) {
                    Ok(u) => u,
                    Err(e) => {
                        return Err(e);
                    },
                };
                Ok(
                    SidebarItem {
                        name: title,
                        url: Some(url),
                        children: None,
                        active: false,
                        depth,
                    },
                )
            },
            IndexItem::Dir(sub) => {
                let next_depth: usize = if depth == usize::MAX {
                    depth
                } else {
                    depth + 1
                };
                let children = Self::collect_sidebar_items(
                    &sub.items,
                    src_dir,
                    base_url_str,
                    errors,
                    next_depth,
                    fs,
                );
                let title = match get_title(&sub.name, &sub.summary, fs) {
                    Ok(t) => t,
                    Err(e) => {
                        return Err(e);
                    },
                };
                let url = match Self::get_url(src_dir, &sub.summary, base_url_str) {
                    Ok(u) => u,
                    Err(e) => {
                        return Err(e);
                    },
                };
                let r = SidebarItem {
                    name: title,
                    url: Some(url),
                    children: Some(Box::new(children)),
                    active: false,
                    depth,
                };
                proof {
                    assert(r.view_spec().children == Some(
                        collect_spec(
                            sub.items@,
                            src_dir@,
                            base_url_str@,
                            *fs,
                            next_depth_spec(depth as int),
                        ),
                    ));
                }
                Ok(r)
            },
        }
    }

    /// Turns a list of tree items into sidebar entries, in order; an item
    /// whose entry cannot be made lands in `errors` and is dropped.
    fn collect_sidebar_items(
        items: &Vec<IndexItem>,
        src_dir: &String,
        base_url_str: &String,
        errors: &mut Vec<String>,
        depth: usize,
        fs: &FsCatalog,
    ) -> (r: Vec<SidebarItem>)
        ensures
            items_views(r@) == collect_spec(items@, src_dir@, base_url_str@, *fs, depth as int),
            final(errors)@.len() >= old(errors)@.len(),
            final(errors)@.subrange(0, old(errors)@.len() as int) == old(errors)@,
        decreases items@,
    {
        let ghost base_errors = errors@;
        let mut out: Vec<SidebarItem> = Vec::new();
        let mut i: usize = 0;
        proof {
            assert(errors@.subrange(0, base_errors.len() as int) =~= base_errors);
            assert(items@.skip(0) =~= items@);
            assert(items_views(out@) + collect_spec(
                items@.skip(0),
                src_dir@,
                base_url_str@,
                *fs,
                depth as int,
            ) =~= collect_spec(items@, src_dir@, base_url_str@, *fs, depth as int));
        }
        while i < items.len()
            invariant
                i <= items@.len(),
                items_views(out@) + collect_spec(
                    items@.skip(i as int),
                    src_dir@,
                    base_url_str@,
                    *fs,
                    depth as int,
                ) == collect_spec(items@, src_dir@, base_url_str@, *fs, depth as int),
                errors@.len() >= base_errors.len(),
                errors@.subrange(0, base_errors.len() as int) == base_errors,
            decreases items@.len() - i,
        {
            let ghost tail = items@.skip(i as int);
            proof {
                assert(tail[0] == items@[i as int]);
                assert(tail.drop_first() =~= items@.skip(i + 1));
                assert(decreases_to!(items@ => items@[i as int]));
            }
            let ghost mid_errors = errors@;
            match Self::map_item(&items[i], src_dir, base_url_str, errors, depth, fs) {
                Ok(s) => {
                    let ghost pre = out@;
                    out.push(s);
                    proof {
                        lemma_items_views_push(pre, out@.last());
                        assert(items_views(out@) + collect_spec(
                            items@.skip(i + 1),
                            src_dir@,
                            base_url_str@,
                            *fs,
                            depth as int,
                        ) =~= items_views(pre) + collect_spec(
                            tail,
                            src_dir@,
                            base_url_str@,
                            *fs,
                            depth as int,
                        ));
                    }
                },
                Err(e) => {
                    let ghost pre_err = errors@;
                    errors.push(e);
                    proof {
                        assert(errors@.subrange(0, pre_err.len() as int) =~= pre_err);
                    }
                },
            }
            i += 1;
            proof {
                assert(errors@.subrange(0, base_errors.len() as int) =~= base_errors);
            }
        }
        proof {
            assert(items@.skip(i as int) =~= Seq::<IndexItem>::empty());
            assert(items_views(out@) + collect_spec(
                items@.skip(i as int),
                src_dir@,
                base_url_str@,
                *fs,
                depth as int,
            ) =~= items_views(out@));
        }
        out
    }
}

} // verus!

verus! {

/// The sidebar entry of the book's own summary document. Its title falls
/// back to a marker when the document cannot be read — that failure is
/// recorded, not fatal — while a summary outside the source directory
/// yields no entry at all.
pub open spec fn summary_entry_spec(book: BookStructure, fs: FsCatalog) -> Option<SidebarItemV> {
    let t0 = title_of_spec(book.index.name@, book.index.summary@, fs);
    let sname = if t0 is None {
        "<ERROR>"@
    } else {
        t0.unwrap()
    };
    match url_spec(book.src_dir_spec(), book.index.summary@, book.book_ron.base_url@) {
        None => None,
        Some(u) => Some(
            SidebarItemV { name: sname, url: Some(u), children: None, active: false, depth: 0 },
        ),
    }
}

impl Sidebar {
    /// Builds the sidebar of a book: the summary document's entry first,
    /// then one entry per tree item, nothing highlighted yet. Items whose
    /// titles or URLs cannot be made are dropped, each with an error
    /// recorded.
    pub fn from_book(book: &BookStructure, fs: &FsCatalog) -> (r: (Sidebar, Vec<String>))
        ensures
            r.0.fold_level == book.book_ron.fold_level,
            items_views(r.0.items@) == (match summary_entry_spec(*book, *fs) {
                None => Seq::<SidebarItemV>::empty(),
                Some(e) => seq![e],
            }) + collect_spec(
                book.index.items@,
                book.src_dir_spec(),
                book.book_ron.base_url@,
                *fs,
                0,
            ),
    {
        let mut errors: Vec<String> = Vec::new();
        let src_dir = book.src_dir_path();

        let mut items: Vec<SidebarItem> = Vec::new();
        let summary_name = match get_title(&book.index.name, &book.index.summary, fs) {
            Ok(t) => t,
            Err(e) => {
                errors.push(e);
                String::from_str("<ERROR>")
            },
        };
        match Self::get_url(&src_dir, &book.index.summary, &book.book_ron.base_url) {
            Ok(u) => {
                let ghost pre = items@;
                items.push(
                    SidebarItem {
                        name: summary_name,
                        url: Some(u),
                        children: None,
                        active: false,
                        depth: 0,
                    },
                );
                proof {
                    lemma_items_views_push(pre, items@.last());
                    assert(items@.last().view_spec() =~~= summary_entry_spec(*book, *fs).unwrap());
                }
            },
            Err(e) => {
                errors.push(e);
            },
        }
        let ghost head = items@;
        proof {
            assert(items_views(head) =~~= match summary_entry_spec(*book, *fs) {
                None => Seq::<SidebarItemV>::empty(),
                Some(e) => seq![e],
            });
        }

        let children = Self::collect_sidebar_items(
            &book.index.items,
            &src_dir,
            &book.book_ron.base_url,
            &mut errors,
            0,
            fs,
        );
        let mut rest = children;
        while rest.len() > 0
            invariant
                items_views(items@) + items_views(rest@) == items_views(head) + collect_spec(
                    book.index.items@,
                    book.src_dir_spec(),
                    book.book_ron.base_url@,
                    *fs,
                    0,
                ),
            decreases rest@.len(),
        {
            let ghost tailv = rest@;
            let it = rest.remove(0);
            let ghost pre = items@;
            items.push(it);
            proof {
                assert(rest@ =~= tailv.drop_first());
                lemma_items_views_push(pre, items@.last());
                assert(items_views(tailv) =~= seq![tailv[0].view_spec()] + items_views(
                    tailv.drop_first(),
                ));
                assert(items_views(items@) + items_views(rest@) =~= items_views(pre)
                    + items_views(tailv));
            }
        }
        proof {
            assert(items_views(rest@) =~= Seq::<SidebarItemV>::empty());
            assert(items_views(items@) + items_views(rest@) =~= items_views(items@));
        }
        (Sidebar { items, fold_level: book.book_ron.fold_level }, errors)
    }
}

/// One entry with only its own highlight recomputed: lit exactly when its
/// URL is the active one.
pub open spec fn relight_spec(v: SidebarItemV, url: Seq<char>) -> SidebarItemV {
    SidebarItemV { active: v.url == Some(url), ..v }
}

/// A list of entries with each one's own highlight recomputed.
pub open spec fn relight_children_spec(cs: Seq<SidebarItemV>, url: Seq<char>) -> Seq<SidebarItemV>
    decreases cs.len(),
{
    if cs.len() == 0 {
        Seq::empty()
    } else {
        seq![relight_spec(cs[0], url)] + relight_children_spec(cs.drop_first(), url)
    }
}

/// A top-level entry after highlighting: itself and its direct children
/// are lit exactly when their URL is the active one; deeper descendants
/// keep their flags.
pub open spec fn activate_spec(v: SidebarItemV, url: Seq<char>) -> SidebarItemV {
    SidebarItemV {
        active: v.url == Some(url),
        children: match v.children {
            Some(cs) => Some(relight_children_spec(cs, url)),
            None => None,
        },
        ..v
    }
}

/// The whole sidebar after highlighting.
pub open spec fn activate_items_spec(items: Seq<SidebarItemV>, url: Seq<char>) -> Seq<SidebarItemV>
    decreases items.len(),
{
    if items.len() == 0 {
        Seq::empty()
    } else {
        seq![activate_spec(items[0], url)] + activate_items_spec(items.drop_first(), url)
    }
}

/// Does this entry's URL equal `url`?
fn url_matches(it: &SidebarItem, url_chars: &Vec<char>) -> (r: bool)
    ensures
        r == (it.view_spec().url == Some(url_chars@)),
{
    match &it.url {
        Some(u) => {
            let u_chars = str_to_chars(u.as_str());
            crate::text::eq_chars(&u_chars, url_chars)
        },
        None => false,
    }
}

impl Sidebar {
    /// Highlights the entry whose URL is `url`: every top-level entry and
    /// every direct child has its flag recomputed; deeper descendants are
    /// left as they are.
    pub fn set_active_url(&mut self, url: &str)
        ensures
            items_views(final(self).items@) == activate_items_spec(
                items_views(old(self).items@),
                url@,
            ),
            final(self).fold_level == old(self).fold_level,
    {
        let url_chars = str_to_chars(url);
        let mut rest: Vec<SidebarItem> = Vec::new();
        core::mem::swap(&mut rest, &mut self.items);
        let ghost all = items_views(rest@);
        let mut out: Vec<SidebarItem> = Vec::new();
        proof {
            assert(items_views(out@) + activate_items_spec(items_views(rest@), url@)
                =~= activate_items_spec(all, url@));
        }
        while rest.len() > 0
            invariant
                url_chars@ == url@,
                items_views(out@) + activate_items_spec(items_views(rest@), url@)
                    == activate_items_spec(all, url@),
            decreases rest@.len(),
        {
            let ghost tailv = items_views(rest@);
            let ghost tail0 = rest@[0];
            let mut it = rest.remove(0);
            proof {
                assert(tailv =~~= seq![tail0.view_spec()] + items_views(rest@));
            }
            it.active = url_matches(&it, &url_chars);
            let children = match it.children {
                None => None,
                Some(boxed) => {
                    let mut cs: Vec<SidebarItem> = *boxed;
                    let ghost csv = items_views(cs@);
                    let mut new_cs: Vec<SidebarItem> = Vec::new();
                    proof {
                        assert(items_views(new_cs@) + relight_children_spec(items_views(cs@), url@)
                            =~= relight_children_spec(csv, url@));
                    }
                    while cs.len() > 0
                        invariant
                            url_chars@ == url@,
                            items_views(new_cs@) + relight_children_spec(
                                items_views(cs@),
                                url@,
                            ) == relight_children_spec(csv, url@),
                        decreases cs@.len(),
                    {
                        let ghost ctailv = items_views(cs@);
                        let ghost c0 = cs@[0];
                        let mut c = cs.remove(0);
                        proof {
                            assert(ctailv =~~= seq![c0.view_spec()] + items_views(cs@));
                        }
                        c.active = url_matches(&c, &url_chars);
                        let ghost prec = new_cs@;
                        proof {
                            assert(c.view_spec() =~~= relight_spec(c0.view_spec(), url@));
                        }
                        new_cs.push(c);
                        proof {
                            lemma_items_views_push(prec, new_cs@.last());
                            assert(ctailv.drop_first() =~= items_views(cs@));
                            assert(relight_children_spec(ctailv, url@) =~~= seq![
                                relight_spec(c0.view_spec(), url@),
                            ] + relight_children_spec(items_views(cs@), url@));
                            assert(items_views(new_cs@) + relight_children_spec(
                                items_views(cs@),
                                url@,
                            ) =~~= items_views(prec) + relight_children_spec(ctailv, url@));
                        }
                    }
                    proof {
                        assert(items_views(cs@) =~= Seq::<SidebarItemV>::empty());
                        assert(relight_children_spec(items_views(cs@), url@) =~= Seq::<
                            SidebarItemV,
                        >::empty());
                        assert(items_views(new_cs@) + relight_children_spec(
                            items_views(cs@),
                            url@,
                        ) =~= items_views(new_cs@));
                    }
                    Some(Box::new(new_cs))
                },
            };
            it.children = children;
            let ghost pre = out@;
            proof {
                assert(it.view_spec() =~~= activate_spec(tail0.view_spec(), url@));
            }
            out.push(it);
            proof {
                lemma_items_views_push(pre, out@.last());
                assert(tailv.drop_first() =~= items_views(rest@));
                assert(activate_items_spec(tailv, url@) =~~= seq![
                    activate_spec(tail0.view_spec(), url@),
                ] + activate_items_spec(items_views(rest@), url@));
                assert(items_views(out@) + activate_items_spec(items_views(rest@), url@)
                    =~~= items_views(pre) + activate_items_spec(tailv, url@));
            }
        }
        proof {
            assert(items_views(rest@) =~= Seq::<SidebarItemV>::empty());
            assert(activate_items_spec(items_views(rest@), url@) =~= Seq::<SidebarItemV>::empty());
            assert(items_views(out@) + activate_items_spec(items_views(rest@), url@) =~= items_views(
                out@,
            ));
        }
        self.items = out;
    }
}

} // verus!

verus! {

/// A copy of one sidebar entry, shape for shape.
fn copy_item(it: &SidebarItem) -> (r: SidebarItem)
    ensures
        r.view_spec() == it.view_spec(),
    decreases *it,
{
    let url = match &it.url {
        Some(u) => Some(u.clone()),
        None => None,
    };
    let children = match &it.children {
        None => None,
        Some(cs) => Some(Box::new(copy_items(cs))),
    };
    let r = SidebarItem {
        name: it.name.clone(),
        url,
        children,
        active: it.active,
        depth: it.depth,
    };
    proof {
        assert(r.view_spec() =~~= it.view_spec());
    }
    r
}

/// A copy of a list of sidebar entries, shape for shape.
fn copy_items(cs: &Vec<SidebarItem>) -> (r: Vec<SidebarItem>)
    ensures
        items_views(r@) == items_views(cs@),
    decreases cs@,
{
    let mut copied: Vec<SidebarItem> = Vec::new();
    let mut i: usize = 0;
    proof {
        assert(items_views(copied@) + items_views(cs@.skip(0)) =~~= items_views(cs@)) by {
            assert(cs@.skip(0) =~= cs@);
        }
    }
    while i < cs.len()
        invariant
            i <= cs@.len(),
            items_views(copied@) + items_views(cs@.skip(i as int)) == items_views(cs@),
        decreases cs@.len() - i,
    {
        let ghost tail = cs@.skip(i as int);
        proof {
            assert(tail[0] == cs@[i as int]);
            assert(tail.drop_first() =~= cs@.skip(i + 1));
            assert(decreases_to!(cs@ => cs@[i as int]));
        }
        let ghost pre = copied@;
        let c = copy_item(&cs[i]);
        copied.push(c);
        i += 1;
        proof {
            lemma_items_views_push(pre, copied@.last());
            assert(items_views(tail) =~~= seq![tail[0].view_spec()] + items_views(
                tail.drop_first(),
            ));
            assert(items_views(copied@) + items_views(cs@.skip(i as int)) =~~= items_views(pre)
                + items_views(tail));
        }
    }
    proof {
        assert(cs@.skip(i as int) =~= Seq::<SidebarItem>::empty());
        assert(items_views(copied@) + items_views(cs@.skip(i as int)) =~= items_views(copied@));
    }
    copied
}

/// Context to build the template input of each page.
#[derive(Debug)]
pub struct HbsContext {
    pub sidebar: Sidebar,
}

impl HbsContext {
    /// The template context of a book: its sidebar, with any build errors.
    pub fn from_book(book: &BookStructure, fs: &FsCatalog) -> (r: (Self, Vec<String>))
        ensures
            r.0.sidebar.fold_level == book.book_ron.fold_level,
            items_views(r.0.sidebar.items@) == (match summary_entry_spec(*book, *fs) {
                None => Seq::<SidebarItemV>::empty(),
                Some(e) => seq![e],
            }) + collect_spec(
                book.index.items@,
                book.src_dir_spec(),
                book.book_ron.base_url@,
                *fs,
                0,
            ),
    {
        let (sidebar, errors) = Sidebar::from_book(book, fs);
        (Self { sidebar }, errors)
    }

    /// The sidebar for one article: a copy with that article's entry
    /// highlighted.
    pub fn sidebar_for_url(&self, url: &str) -> (r: Sidebar)
        ensures
            items_views(r.items@) == activate_items_spec(items_views(self.sidebar.items@), url@),
            r.fold_level == self.sidebar.fold_level,
    {
        let mut items: Vec<SidebarItem> = Vec::new();
        let mut i: usize = 0;
        proof {
            assert(items_views(items@) + items_views(self.sidebar.items@.skip(0)) =~~= items_views(
                self.sidebar.items@,
            )) by {
                assert(self.sidebar.items@.skip(0) =~= self.sidebar.items@);
            }
        }
        while i < self.sidebar.items.len()
            invariant
                i <= self.sidebar.items@.len(),
                items_views(items@) + items_views(self.sidebar.items@.skip(i as int))
                    == items_views(self.sidebar.items@),
            decreases self.sidebar.items@.len() - i,
        {
            let ghost tail = self.sidebar.items@.skip(i as int);
            proof {
                assert(tail[0] == self.sidebar.items@[i as int]);
                assert(tail.drop_first() =~= self.sidebar.items@.skip(i + 1));
            }
            let ghost pre = items@;
            let c = copy_item(&self.sidebar.items[i]);
            items.push(c);
            i += 1;
            proof {
                lemma_items_views_push(pre, items@.last());
                assert(items_views(tail) =~~= seq![tail[0].view_spec()] + items_views(
                    tail.drop_first(),
                ));
                assert(items_views(items@) + items_views(self.sidebar.items@.skip(i as int))
                    =~~= items_views(pre) + items_views(tail));
            }
        }
        proof {
            assert(self.sidebar.items@.skip(i as int) =~= Seq::<SidebarItem>::empty());
            assert(items_views(items@) + items_views(self.sidebar.items@.skip(i as int))
                =~= items_views(items@));
        }
        let mut s = Sidebar { items, fold_level: self.sidebar.fold_level };
        s.set_active_url(url);
        s
    }
}

} // verus!

verus! {

/// The value attribute `name` resolves to in `meta`: the value of the
/// first matching allow; a deny or a miss yields nothing.
pub open spec fn attr_value_spec(meta: AdocMetadata, name: Seq<char>) -> Option<Seq<char>> {
    match meta.find_attr_spec(name) {
        Some(a) => match a {
            AdocAttr::Allow(_n, v) => Some(v@),
            AdocAttr::Deny(_n) => None,
        },
        None => None,
    }
}

/// The stylesheet reference of a page: the `stylesheet` attribute, behind
/// the `stylesdir` base directory when one is given.
pub open spec fn stylesheet_spec(meta: AdocMetadata) -> Option<Seq<char>> {
    match attr_value_spec(meta, "stylesheet"@) {
        None => None,
        Some(rel) => match attr_value_spec(meta, "stylesdir"@) {
            Some(base) => Some(base + seq!['/'] + rel),
            None => Some(rel),
        },
    }
}

/// The value of attribute `name`, as a fresh string.
fn attr(name: &str, metadata: &AdocMetadata) -> (r: Option<String>)
    ensures
        match r {
            Some(v) => attr_value_spec(*metadata, name@) == Some(v@),
            None => attr_value_spec(*metadata, name@) is None,
        },
{
    match metadata.find_attr(name) {
        None => None,
        Some(a) => match a.value() {
            Some(v) => Some(String::from_str(v)),
            None => None,
        },
    }
}

/// Variables handed to the template engine for one page.
#[derive(Debug)]
pub struct HbsInput<'a> {
    /// Used in templates for hard-coded paths.
    pub base_url: String,
    /// Page title of the html document.
    pub h_title: String,
    /// Author written into the html head.
    pub h_author: String,
    /// The document's own title.
    pub a_title: Option<String>,
    /// The rendered article body.
    pub a_article: &'a str,
    pub a_revdate: Option<String>,
    pub a_author: Option<String>,
    pub a_email: Option<String>,
    pub a_stylesheet: Option<String>,
    /// The sidebar entries of this page.
    pub sidebar_items: Vec<SidebarItem>,
}

impl<'a> HbsInput<'a> {
    /// Gathers everything a template sees for one page: the rendered body,
    /// the document's title and attributes, and the sidebar.
    pub fn new(html: &'a str, meta: &AdocMetadata, base_url: &str, sidebar: Sidebar) -> (r: Self)
        ensures
            r.base_url@ == base_url@,
            r.h_title@ == match meta.title {
                Some(t) => t@,
                None => Seq::<char>::empty(),
            },
            r.h_author@ == match attr_value_spec(*meta, "author"@) {
                Some(v) => v,
                None => Seq::<char>::empty(),
            },
            match (r.a_title, meta.title) {
                (Some(a), Some(b)) => a@ == b@,
                (None, None) => true,
                _ => false,
            },
            r.a_article == html,
            match r.a_revdate {
                Some(v) => attr_value_spec(*meta, "revdate"@) == Some(v@),
                None => attr_value_spec(*meta, "revdate"@) is None,
            },
            match r.a_author {
                Some(v) => attr_value_spec(*meta, "author"@) == Some(v@),
                None => attr_value_spec(*meta, "author"@) is None,
            },
            match r.a_email {
                Some(v) => attr_value_spec(*meta, "email"@) == Some(v@),
                None => attr_value_spec(*meta, "email"@) is None,
            },
            match r.a_stylesheet {
                Some(v) => stylesheet_spec(*meta) == Some(v@),
                None => stylesheet_spec(*meta) is None,
            },
            r.sidebar_items == sidebar.items,
    {
        let css: Option<String> = match attr("stylesheet", meta) {
            None => None,
            Some(rel) => match attr("stylesdir", meta) {
                Some(base) => {
                    // the stylesheet is supplied relative to a base directory
                    let mut path = str_to_chars(base.as_str());
                    path.push('/');
                    proof {
                        assert(path@ =~= base@ + seq!['/']);
                    }
                    let rel_chars = str_to_chars(rel.as_str());
                    extend_chars(&mut path, &rel_chars);
                    Some(chars_to_string(&path))
                },
                None => Some(rel),
            },
        };
        let h_title = match &meta.title {
            Some(t) => t.clone(),
            None => String::new(),
        };
        let a_title = match &meta.title {
            Some(t) => Some(t.clone()),
            None => None,
        };
        let h_author = match attr("author", meta) {
            Some(a) => a,
            None => String::new(),
        };
        HbsInput {
            base_url: String::from_str(base_url),
            h_title,
            h_author,
            a_title,
            a_article: html,
            a_revdate: attr("revdate", meta),
            a_author: attr("author", meta),
            a_email: attr("email", meta),
            a_stylesheet: css,
            sidebar_items: sidebar.items,
        }
    }
}

} // verus!
