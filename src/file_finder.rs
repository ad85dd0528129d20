//! Finding the regular files under a root, optionally only those whose file
//! name holds a given substring.

use vstd::prelude::*;
use std::path::PathBuf;
use crate::error::FinderError;
use crate::path_parser;
use crate::text::{has_substring, str_contains};

verus! {

#[verifier::external_type_specification]
#[verifier::external_body]
pub struct ExPathBuf(std::path::PathBuf);

/// One entry reached by a walk of the tree: its path, its file name (bytes
/// that are not UTF-8 shown as U+FFFD), and whether it is a regular file (for
/// a followed link, whether its target is).
pub struct WalkEntry {
    pub path: PathBuf,
    pub name: String,
    pub is_file: bool,
}

/// Relies on walkdir 2: `WalkDir::new(root).follow_links(true)` walks the
/// tree under `root` depth first, following symbolic links, and yields each
/// entry or an error; `DirEntry::file_type` gives the target's type for a
/// followed link, `DirEntry::file_name` the last path component, which
/// `OsStr::to_string_lossy` turns into text. Errors are
/// handed on as `None`. The outcome depends on the disk: nothing is promised
/// about it.
#[verifier::external_body]
fn walk(root: &str) -> (r: Vec<Option<WalkEntry>>) {
    walkdir::WalkDir::new(root).follow_links(true).into_iter().map(|item| match item {
        Ok(e) => Some(WalkEntry {
            is_file: e.file_type().is_file(),
            name: e.file_name().to_string_lossy().into_owned(),
            path: e.into_path(),
        }),
        Err(_) => None,
    }).collect()
}

/// Whether an item of a walk is kept: it is an entry (not an error), a
/// regular file, and, under a filter, its file name holds the filter.
pub open spec fn keeps(item: Option<WalkEntry>, query: Option<&str>) -> bool {
    match item {
        Some(e) => e.is_file && match query {
            None => true,
            Some(q) => has_substring(e.name@, q@),
        },
        None => false,
    }
}

/// The paths of the kept items, in walk order.
pub open spec fn selected(items: Seq<Option<WalkEntry>>, query: Option<&str>) -> Seq<PathBuf>
    decreases items.len(),
{
    if items.len() == 0 {
        Seq::empty()
    } else {
        let earlier = selected(items.drop_last(), query);
        if keeps(items.last(), query) {
            earlier.push(items.last()->0.path)
        } else {
            earlier
        }
    }
}

/// Some kept item of the walk has this path.
pub open spec fn kept_origin(items: Seq<Option<WalkEntry>>, query: Option<&str>, path: PathBuf) -> bool {
    exists|k: int| 0 <= k < items.len() && keeps(items[k], query) && items[k]->0.path == path
}

/// Exactly the kept items are selected: every kept item's path is among the
/// selected paths, and every selected path is that of a kept item. Without a
/// filter the kept items are all the regular files of the walk; with one,
/// those whose file name holds it.
pub proof fn lemma_selected_exact(items: Seq<Option<WalkEntry>>, query: Option<&str>)
    ensures
        forall|k: int|
            0 <= k < items.len() && #[trigger] keeps(items[k], query) ==> selected(items, query).contains(
                items[k]->0.path,
            ),
        forall|j: int|
            0 <= j < selected(items, query).len() ==> #[trigger] kept_origin(items, query, selected(items, query)[j]),
    decreases items.len(),
{
    if items.len() > 0 {
        let shorter = items.drop_last();
        lemma_selected_exact(shorter, query);
        let earlier = selected(shorter, query);
        let all = selected(items, query);
        assert forall|k: int|
            0 <= k < items.len() && #[trigger] keeps(items[k], query) implies all.contains(items[k]->0.path) by {
            if k < items.len() - 1 {
                assert(shorter[k] == items[k]);
                let j = choose|j: int| 0 <= j < earlier.len() && earlier[j] == items[k]->0.path;
                assert(all[j] == earlier[j]);
            } else {
                assert(all[all.len() - 1] == items[k]->0.path);
            }
        }
        assert forall|j: int| 0 <= j < all.len() implies #[trigger] kept_origin(items, query, all[j]) by {
            if j < earlier.len() {
                assert(all[j] == earlier[j]);
                assert(kept_origin(shorter, query, earlier[j]));
                let k = choose|k: int|
                    0 <= k < shorter.len() && keeps(shorter[k], query) && shorter[k]->0.path == earlier[j];
                assert(shorter[k] == items[k]);
                assert(keeps(items[k], query) && items[k]->0.path == all[j]);
            } else {
                assert(keeps(items[items.len() - 1], query));
                assert(all[j] == items[items.len() - 1]->0.path);
                let k = items.len() - 1;
                assert(0 <= k < items.len() && keeps(items[k], query) && items[k]->0.path == all[j]);
            }
        }
    } else {
        assert(selected(items, query).len() == 0);
    }
}

/// Every file name holds the empty text, so an empty filter selects exactly
/// what no filter selects.
pub proof fn lemma_empty_filter_keeps_all(items: Seq<Option<WalkEntry>>, q: &str)
    requires
        q@.len() == 0,
    ensures
        selected(items, Some(q)) == selected(items, None),
    decreases items.len(),
{
    if items.len() > 0 {
        lemma_empty_filter_keeps_all(items.drop_last(), q);
        if items.last() is Some {
            let name = items.last()->0.name@;
            assert(name.subrange(0int, 0int + q@.len()) == q@);
            assert(has_substring(name, q@));
        }
    }
}

/// `r` is the selection from `items`: the kept paths in walk order, holding
/// the path of every kept item, and only paths of kept items.
pub open spec fn is_exact_selection(items: Seq<Option<WalkEntry>>, query: Option<&str>, r: Seq<PathBuf>) -> bool {
    &&& r == selected(items, query)
    &&& forall|k: int| 0 <= k < items.len() && #[trigger] keeps(items[k], query) ==> r.contains(items[k]->0.path)
    &&& forall|j: int| 0 <= j < r.len() ==> #[trigger] kept_origin(items, query, r[j])
}

/// The paths of the walked items that are regular files and, under a
/// filter, whose file name holds it, in walk order.
pub fn select_files(items: Vec<Option<WalkEntry>>, query: Option<&str>) -> (r: Vec<PathBuf>)
    ensures
        r@ == selected(items@, query),
{
    let ghost all = items@;
    let mut items = items;
    let mut results: Vec<PathBuf> = Vec::new();
    let mut i: usize = 0;
    while i < items.len()
        invariant
            items@.len() == all.len(),
            0 <= i <= all.len(),
            forall|k: int| i <= k < all.len() ==> #[trigger] items@[k] == all[k],
            results@ == selected(all.take(i as int), query),
        decreases all.len() - i,
    {
        let mut item: Option<WalkEntry> = None;
        std::mem::swap(&mut items[i], &mut item);
        assert(item == all[i as int]);
        proof {
            assert(all.take(i + 1).drop_last() == all.take(i as int));
            assert(all.take(i + 1).last() == all[i as int]);
        }
        if let Some(entry) = item {
            if entry.is_file {
                let wanted = match query {
                    None => true,
                    Some(q) => str_contains(entry.name.as_str(), q),
                };
                if wanted {
                    results.push(entry.path);
                }
            }
        }
        i = i + 1;
    }
    proof {
        assert(all.take(i as int) == all);
    }
    results
}

/// A validated root to search under.
pub struct Finder<'a> {
    pub path: &'a str,
}

impl<'a> Finder<'a> {
    /// A finder at the resolved root: the current directory when none is
    /// given, else the given path if it exists, or `PathNotFound`.
    pub fn new(root: Option<&'a str>) -> (r: Result<Finder<'a>, FinderError>)
        ensures
            root is None ==> (r is Ok && r->Ok_0.path@ == path_parser::default_path()),
            root is Some ==> (r is Ok && r->Ok_0.path@ == root->0@) || (r is Err && r->Err_0 is PathNotFound
                && r->Err_0->PathNotFound_0@ == root->0@),
    {
        let path = path_parser::parse(root)?;
        Ok(Finder { path })
    }

    /// Every regular file under the root.
    fn unfiltered_find(&self) -> (r: Vec<PathBuf>)
        ensures
            exists|items: Seq<Option<WalkEntry>>| is_exact_selection(items, None, r@),
    {
        let items = walk(self.path);
        let ghost walked = items@;
        let r = select_files(items, None);
        proof {
            lemma_selected_exact(walked, None);
            assert(is_exact_selection(walked, None, r@));
        }
        r
    }

    /// Every regular file under the root whose file name holds `query`.
    fn filtered_find(&self, query: &str) -> (r: Vec<PathBuf>)
        ensures
            exists|items: Seq<Option<WalkEntry>>| is_exact_selection(items, Some(query), r@),
    {
        let items = walk(self.path);
        let ghost walked = items@;
        let r = select_files(items, Some(query));
        proof {
            lemma_selected_exact(walked, Some(query));
            assert(is_exact_selection(walked, Some(query), r@));
        }
        r
    }

    /// The regular files under the root, in walk order, filtered by file
    /// name when a query is given. What the walk reaches depends on the disk,
    /// so the contract speaks of the items of some walk: the result holds the
    /// path of every regular file among them whose name holds the query (of
    /// every regular file without one) and nothing else; walk errors are
    /// skipped.
    pub fn find(&self, query: Option<&str>) -> (r: Vec<PathBuf>)
        ensures
            exists|items: Seq<Option<WalkEntry>>| is_exact_selection(items, query, r@),
    {
        match query {
            Some(q) => self.filtered_find(q),
            None => self.unfiltered_find(),
        }
    }
}

} // verus!
