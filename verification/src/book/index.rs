//! The recursive list of items in a source directory.
//!
//! Every source directory carries an `index.ron` description naming a
//! mandatory summary document and an ordered list of children: files and
//! sub-directories with descriptions of their own. Loading builds an
//! [`Index`] tree against the filesystem catalog; a bad entry is dropped
//! with an error recorded, and only a missing summary aborts the enclosing
//! sub-tree. Errors from sub-trees are flattened into one list. A
//! description that (directly or through descendants) names a directory
//! already being loaded is reported as a cycle instead of recursing without
//! bound.

use vstd::prelude::*;

use vstd::set_lib::lemma_len_subset;

use crate::book::config::{IndexRon, IndexRonItem};
use crate::path::resolve_spec;
use crate::path::resolve_str;
use crate::text::{contains_string, str_views};
use crate::vfs::{lemma_first_dir_match_exists, DirRecord, FsCatalog, IndexRonLoad};

verus! {

/// Error while loading a directory description.
#[derive(Debug, Clone)]
pub enum IndexLoadError {
    /// (relative path of the entry, directory whose description names it):
    /// nothing exists where the entry points.
    FailedToLocateItem(String, String),
    /// (relative path of the summary, directory whose description names it):
    /// the mandatory summary document does not exist.
    FailedToLocateSummary(String, String),
    /// A declared sub-directory has no description file of its own.
    FoundDirectoryWithoutIndexRon(String),
    /// (directory, message): its description file could not be read.
    FailedToReadIndexRon(String, String),
    /// (directory, message): its description file could not be parsed.
    FailedToParseIndexRon(String, String),
    /// A declared sub-directory is already being loaded further up the
    /// recursion; descending would never terminate.
    FoundCycle(String),
}

/// The recursive book structure of one directory.
#[derive(Debug)]
pub struct Index {
    /// Canonical path of the directory.
    pub dir: String,
    /// Display name of the directory.
    pub name: String,
    /// Canonical path of the summary document describing the directory.
    pub summary: String,
    /// Children, in declaration order.
    pub items: Vec<IndexItem>,
}

/// One child of a directory.
#[derive(Debug)]
pub enum IndexItem {
    /// (name, canonical path).
    File(String, String),
    /// A fully loaded sub-directory.
    Dir(Box<Index>),
}

impl Index {
    /// Every path reachable from this tree exists in the catalog: the
    /// directory itself, its summary document, and every child.
    pub open spec fn wf(self, fs: FsCatalog) -> bool
        decreases self,
    {
        &&& fs.has_dir(self.dir@)
        &&& fs.has_file(self.summary@)
        &&& forall|i: int| 0 <= i < self.items@.len() ==> (#[trigger] self.items@[i]).wf(fs)
    }
}

impl IndexItem {
    /// The paths of this item exist in the catalog.
    pub open spec fn wf(self, fs: FsCatalog) -> bool
        decreases self,
    {
        match self {
            IndexItem::File(_name, path) => fs.has_entry(path@),
            IndexItem::Dir(sub) => sub.wf(fs),
        }
    }
}

/// The relative path a declared child names.
pub open spec fn item_rel_spec(item: IndexRonItem) -> Seq<char> {
    match item {
        IndexRonItem::File(_name, rel) => rel@,
        IndexRonItem::Dir(rel) => rel@,
    }
}

/// The declared child points at nothing usable: a file entry at no entry at
/// all, a directory entry at no directory.
pub open spec fn item_missing_spec(fs: FsCatalog, dir: Seq<char>, item: IndexRonItem) -> bool {
    match item {
        IndexRonItem::File(_name, rel) => !fs.has_entry(resolve_spec(dir, rel@)),
        IndexRonItem::Dir(rel) => !fs.has_dir(resolve_spec(dir, rel@)),
    }
}

/// `it` is the file item that a declared entry named `name` at `path`
/// yields.
pub open spec fn is_file_item(it: IndexItem, name: Seq<char>, path: Seq<char>) -> bool {
    it matches IndexItem::File(n, p) && n@ == name && p@ == path
}

/// Some child of the list is the file item of `name` at `path`.
pub open spec fn has_file_item(items: Seq<IndexItem>, name: Seq<char>, path: Seq<char>) -> bool {
    exists|j: int| 0 <= j < items.len() && is_file_item(#[trigger] items[j], name, path)
}

/// The tree keeps every declared file entry whose target exists: it appears
/// as a file item under its declared name and resolved path.
pub open spec fn keeps_existing_files_spec(
    items: Seq<IndexItem>,
    declared: Seq<IndexRonItem>,
    dir: Seq<char>,
    fs: FsCatalog,
) -> bool {
    forall|i: int|
        0 <= i < declared.len() ==> match #[trigger] declared[i] {
            IndexRonItem::File(n, rel) => fs.has_entry(resolve_spec(dir, rel@))
                ==> has_file_item(items, n@, resolve_spec(dir, rel@)),
            IndexRonItem::Dir(_rel) => true,
        }
}

/// `e` records that `rel`, declared in `dir`, could not be located.
pub open spec fn is_locate_error(e: IndexLoadError, rel: Seq<char>, dir: Seq<char>) -> bool {
    match e {
        IndexLoadError::FailedToLocateItem(r, d) => r@ == rel && d@ == dir,
        _ => false,
    }
}

/// Some recorded error says that `rel`, declared in `dir`, could not be
/// located.
pub open spec fn has_locate_error(errors: Seq<IndexLoadError>, rel: Seq<char>, dir: Seq<char>) -> bool {
    exists|j: int| 0 <= j < errors.len() && is_locate_error(#[trigger] errors[j], rel, dir)
}

/// The directories on the active recursion path: pairwise distinct, and
/// each one a directory of the catalog.
pub open spec fn active_wf(active: Seq<String>, fs: FsCatalog) -> bool {
    &&& str_views(active).no_duplicates()
    &&& forall|i: int| 0 <= i < active.len() ==> fs.has_dir(#[trigger] active[i]@)
}

/// Pairwise-distinct directory paths that all exist in the catalog cannot
/// outnumber the catalog's directories.
proof fn lemma_active_len_bound(active: Seq<String>, fs: FsCatalog)
    requires
        active_wf(active, fs),
    ensures
        active.len() <= fs.dirs@.len(),
{
    broadcast use vstd::seq_lib::group_seq_properties;

    let views = str_views(active);
    let dirpaths = fs.dirs@.map_values(|d: DirRecord| d.path@);
    views.unique_seq_to_set();
    assert forall|x: Seq<char>| views.to_set().contains(x) implies dirpaths.to_set().contains(
        x,
    ) by {
        let i = choose|i: int| 0 <= i < views.len() && views[i] == x;
        assert(fs.has_dir(active[i]@));
        lemma_first_dir_match_exists(fs.dirs@, x);
        let j = choose|j: int| 0 <= j < fs.dirs@.len() && fs.dirs@[j].path@ == x;
        assert(dirpaths[j] == x);
    }
    lemma_len_subset(views.to_set(), dirpaths.to_set());
    dirpaths.lemma_cardinality_of_set();
}

impl Index {
    /// Loads the description of `ix_ron_dir` into a tree, recursing through
    /// declared sub-directories. Entries that cannot be located, directories
    /// without descriptions, unreadable or unparsable descriptions and
    /// cycles are dropped with an error recorded; the missing summary
    /// document is the one hard error, and it aborts only this sub-tree.
    /// `active` holds the directories the recursion is already inside.
    pub fn from_index_ron_recursive(
        ix_ron: &IndexRon,
        ix_ron_dir: &String,
        fs: &FsCatalog,
        active: &Vec<String>,
    ) -> (r: Result<(Index, Vec<IndexLoadError>), IndexLoadError>)
        requires
            active_wf(active@, *fs),
            fs.has_dir(ix_ron_dir@),
            !str_views(active@).contains(ix_ron_dir@),
        ensures
            match r {
                Ok((index, errors)) => {
                    &&& index.wf(*fs)
                    &&& index.dir@ == ix_ron_dir@
                    &&& index.name@ == ix_ron.summary.name@
                    &&& index.summary@ == resolve_spec(ix_ron_dir@, ix_ron.summary.path@)
                    &&& forall|i: int|
                        0 <= i < ix_ron.items@.len() && item_missing_spec(
                            *fs,
                            ix_ron_dir@,
                            #[trigger] ix_ron.items@[i],
                        ) ==> has_locate_error(
                            errors@,
                            item_rel_spec(ix_ron.items@[i]),
                            ix_ron_dir@,
                        )
                    &&& keeps_existing_files_spec(index.items@, ix_ron.items@, ix_ron_dir@, *fs)
                },
                Err(e) => {
                    &&& e matches IndexLoadError::FailedToLocateSummary(rel, d) ==> rel@
                        == ix_ron.summary.path@ && d@ == ix_ron_dir@
                    &&& e is FailedToLocateSummary
                    &&& !fs.has_file(resolve_spec(ix_ron_dir@, ix_ron.summary.path@))
                },
            },
        decreases fs.dirs@.len() - active@.len(),
{
        let mut errors: Vec<IndexLoadError> = Vec::new();
        let mut items: Vec<IndexItem> = Vec::new();

        // the summary document is required
        let summary = {
            let file = resolve_str(ix_ron_dir, &ix_ron.summary.path);
            if !fs.is_file(&file) {
                return Err(IndexLoadError::FailedToLocateSummary(
                    ix_ron.summary.path.clone(),
                    ix_ron_dir.clone(),
                ));
            }
            file
        };

        let mut idx: usize = 0;
        while idx < ix_ron.items.len()
            invariant
                active_wf(active@, *fs),
                fs.has_dir(ix_ron_dir@),
                !str_views(active@).contains(ix_ron_dir@),
                idx <= ix_ron.items@.len(),
                forall|k: int| 0 <= k < items@.len() ==> (#[trigger] items@[k]).wf(*fs),
                forall|i: int|
                    0 <= i < idx && item_missing_spec(
                        *fs,
                        ix_ron_dir@,
                        #[trigger] ix_ron.items@[i],
                    ) ==> has_locate_error(errors@, item_rel_spec(ix_ron.items@[i]), ix_ron_dir@),
                keeps_existing_files_spec(
                    items@,
                    ix_ron.items@.subrange(0, idx as int),
                    ix_ron_dir@,
                    *fs,
                ),
            decreases ix_ron.items@.len() - idx,
        {
            let ghost preerrors = errors@;
            let ghost preitems = items@;
            match &ix_ron.items[idx] {
                IndexRonItem::File(name, rel_path) => {
                    let path = resolve_str(ix_ron_dir, rel_path);
                    if !fs.is_file(&path) && !fs.is_dir(&path) {
                        errors.push(
                            IndexLoadError::FailedToLocateItem(
                                rel_path.clone(),
                                ix_ron_dir.clone(),
                            ),
                        );
                        proof {
                            assert(is_locate_error(errors@.last(), rel_path@, ix_ron_dir@));
                        }
                    } else {
                        items.push(IndexItem::File(name.clone(), path));
                        proof {
                            assert(is_file_item(
                                items@[items@.len() - 1],
                                name@,
                                resolve_spec(ix_ron_dir@, rel_path@),
                            ));
                        }
                    }
                },
                IndexRonItem::Dir(rel_path) => {
                    let path = resolve_str(ix_ron_dir, rel_path);
                    if !fs.is_dir(&path) {
                        errors.push(
                            IndexLoadError::FailedToLocateItem(
                                rel_path.clone(),
                                ix_ron_dir.clone(),
                            ),
                        );
                        proof {
                            assert(is_locate_error(errors@.last(), rel_path@, ix_ron_dir@));
                        }
                    } else if path == *ix_ron_dir || contains_string(active, &path) {
                        // descending here would revisit a directory that is
                        // still being loaded
                        errors.push(IndexLoadError::FoundCycle(path));
                    } else {
                        let rec = fs.find_dir(&path).unwrap();
                        match &rec.index_ron {
                            None => {
                                errors.push(
                                    IndexLoadError::FoundDirectoryWithoutIndexRon(path),
                                );
                            },
                            Some(IndexRonLoad::ReadError(msg)) => {
                                errors.push(
                                    IndexLoadError::FailedToReadIndexRon(path, msg.clone()),
                                );
                            },
                            Some(IndexRonLoad::ParseError(msg)) => {
                                errors.push(
                                    IndexLoadError::FailedToParseIndexRon(path, msg.clone()),
                                );
                            },
                            Some(IndexRonLoad::Parsed(sub_ron)) => {
                                let mut sub_active: Vec<String> = Vec::new();
                                let mut ai: usize = 0;
                                while ai < active.len()
                                    invariant
                                        ai <= active@.len(),
                                        sub_active@ == active@.subrange(0, ai as int),
                                    decreases active@.len() - ai,
                                {
                                    sub_active.push(active[ai].clone());
                                    ai += 1;
                                    proof {
                                        assert(sub_active@ =~= active@.subrange(0, ai as int));
                                    }
                                }
                                proof {
                                    assert(sub_active@ =~= active@);
                                }
                                sub_active.push(ix_ron_dir.clone());
                                proof {
                                    assert(str_views(sub_active@) =~= str_views(active@).push(
                                        ix_ron_dir@,
                                    ));
                                    assert(active_wf(sub_active@, *fs));
                                    lemma_active_len_bound(sub_active@, *fs);
                                }
                                match Index::from_index_ron_recursive(
                                    sub_ron,
                                    &path,
                                    fs,
                                    &sub_active,
                                ) {
                                    Err(e) => {
                                        errors.push(e);
                                    },
                                    Ok((sub_index, mut sub_errors)) => {
                                        // flatten sub-tree errors into this list
                                        errors.append(&mut sub_errors);
                                        items.push(IndexItem::Dir(Box::new(sub_index)));
                                    },
                                }
                            },
                        }
                    }
                },
            }
            idx += 1;
            proof {
                assert forall|i: int|
                    0 <= i < idx implies match #[trigger] ix_ron.items@.subrange(0, idx as int)[i] {
                    IndexRonItem::File(n, rel) => fs.has_entry(resolve_spec(ix_ron_dir@, rel@))
                        ==> has_file_item(items@, n@, resolve_spec(ix_ron_dir@, rel@)),
                    IndexRonItem::Dir(_rel) => true,
                } by {
                    assert(ix_ron.items@.subrange(0, idx as int)[i] == ix_ron.items@[i]);
                    match ix_ron.items@[i] {
                        IndexRonItem::File(n, rel) => {
                            if fs.has_entry(resolve_spec(ix_ron_dir@, rel@)) {
                                if i < idx - 1 {
                                    assert(ix_ron.items@.subrange(0, idx - 1)[i]
                                        == ix_ron.items@[i]);
                                    let j = choose|j: int|
                                        0 <= j < preitems.len() && is_file_item(
                                            #[trigger] preitems[j],
                                            n@,
                                            resolve_spec(ix_ron_dir@, rel@),
                                        );
                                    assert(items@[j] == preitems[j]);
                                }
                            }
                        },
                        IndexRonItem::Dir(_rel) => {},
                    }
                }
                assert forall|i: int|
                    0 <= i < idx && item_missing_spec(
                        *fs,
                        ix_ron_dir@,
                        #[trigger] ix_ron.items@[i],
                    ) implies has_locate_error(
                    errors@,
                    item_rel_spec(ix_ron.items@[i]),
                    ix_ron_dir@,
                ) by {
                    if i < idx - 1 {
                        let j = choose|j: int|
                            0 <= j < preerrors.len() && is_locate_error(
                                #[trigger] preerrors[j],
                                item_rel_spec(ix_ron.items@[i]),
                                ix_ron_dir@,
                            );
                        assert(errors@[j] == preerrors[j]);
                    }
                }
            }
        }

        let index = Index {
            dir: ix_ron_dir.clone(),
            name: ix_ron.summary.name.clone(),
            summary,
            items,
        };
        proof {
            assert(ix_ron.items@.subrange(0, idx as int) =~= ix_ron.items@);
            assert(index.wf(*fs));
        }
        Ok((index, errors))
    }
}

} // verus!
