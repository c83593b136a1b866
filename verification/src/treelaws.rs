//! What the tree of files shows.

use crate::fstree::{
    children_of, enters, hidden_name, row_keys, row_of, rows_of, sorted_rows, subtree_end,
    EntryState, Filter, TreeState,
};
use crate::sorting::{lemma_order_of, order_of, place, place_before, text_before};
use crate::strings::text_lowercase;
use vstd::prelude::*;

verus! {

/// Whether an item of a folder is shown.
pub open spec fn shown_item(n: Seq<char>) -> bool {
    !(n == ".git"@ || n == ".hg"@ || n == ".svn"@ || n == ".oxru"@ || n == ".DS_Store"@)
}

proof fn lemma_rows(
    root: Seq<char>,
    dir: Seq<char>,
    listing: Seq<(Seq<char>, bool)>,
    depth: int,
    filter: Filter,
)
    ensures
        ({
            let rows = rows_of(root, dir, listing, depth, filter);
            &&& rows.len() <= listing.len()
            &&& forall|k: int|
                0 <= k < rows.len() ==> exists|i: int|
                    0 <= i < listing.len() && shown_item((#[trigger] listing[i]).0) && (
                    #[trigger] rows[k]) == row_of(root, dir, listing[i], depth, filter)
            &&& forall|i: int|
                0 <= i < listing.len() && shown_item((#[trigger] listing[i]).0) ==> rows.contains(
                    row_of(root, dir, listing[i], depth, filter),
                )
        }),
    decreases listing.len(),
{
    if listing.len() > 0 {
        let l = listing.drop_last();
        lemma_rows(root, dir, l, depth, filter);
        let rest = rows_of(root, dir, l, depth, filter);
        let rows = rows_of(root, dir, listing, depth, filter);
        let n = listing.len() - 1;
        assert(listing[n] == listing.last());
        assert forall|k: int| 0 <= k < rows.len() implies exists|i: int|
            0 <= i < listing.len() && shown_item((#[trigger] listing[i]).0) && (#[trigger] rows[k])
                == row_of(root, dir, listing[i], depth, filter) by {
            if k < rest.len() {
                assert(rows[k] == rest[k]);
                let i = choose|i: int|
                    0 <= i < l.len() && shown_item((#[trigger] l[i]).0) && rest[k] == row_of(
                        root,
                        dir,
                        l[i],
                        depth,
                        filter,
                    );
                assert(listing[i] == l[i]);
            } else {
                assert(shown_item(listing[n].0));
            }
        }
        assert forall|i: int|
            0 <= i < listing.len() && shown_item((#[trigger] listing[i]).0) implies rows.contains(
            row_of(root, dir, listing[i], depth, filter),
        ) by {
            if i < n {
                assert(l[i] == listing[i]);
                let x = row_of(root, dir, l[i], depth, filter);
                assert(rest.contains(x));
                let k = choose|k: int| 0 <= k < rest.len() && rest[k] == x;
                assert(rows[k] == x);
            } else {
                assert(rows[rest.len() as int] == row_of(root, dir, listing[i], depth, filter));
            }
        }
    }
}

proof fn lemma_all_shown(
    root: Seq<char>,
    dir: Seq<char>,
    listing: Seq<(Seq<char>, bool)>,
    depth: int,
    filter: Filter,
)
    requires
        listing.len() <= usize::MAX,
    ensures
        ({
            let rows = children_of(root, dir, listing, depth, filter);
            &&& forall|i: int|
                0 <= i < listing.len() && shown_item((#[trigger] listing[i]).0) ==> exists|k: int|
                    0 <= k < rows.len() && (#[trigger] rows[k]).name == listing[i].0
                        && rows[k].is_dir == listing[i].1
        }),
{
    let items = rows_of(root, dir, listing, depth, filter);
    let rows = children_of(root, dir, listing, depth, filter);
    let keys = row_keys(items);
    lemma_rows(root, dir, listing, depth, filter);
    lemma_order_of(keys);
    let o = order_of(keys);
    assert(rows.len() == items.len());
    assert forall|i: int| 0 <= i < listing.len() && shown_item((#[trigger] listing[i]).0) implies
        exists|k: int|
        0 <= k < rows.len() && (#[trigger] rows[k]).name == listing[i].0 && rows[k].is_dir
            == listing[i].1 by {
        let x = row_of(root, dir, listing[i], depth, filter);
        assert(items.contains(x));
        let j = choose|j: int| 0 <= j < items.len() && items[j] == x;
        assert(o.contains(place(j)));
        let k = choose|k: int| 0 <= k < o.len() && o[k] == place(j);
        assert(rows[k] == items[o[k] as int]);
        assert(rows[k] == x);
    }
}

proof fn lemma_only_held(
    root: Seq<char>,
    dir: Seq<char>,
    listing: Seq<(Seq<char>, bool)>,
    depth: int,
    filter: Filter,
)
    requires
        listing.len() <= usize::MAX,
    ensures
        ({
            let rows = children_of(root, dir, listing, depth, filter);
            &&& forall|k: int|
                0 <= k < rows.len() ==> shown_item((#[trigger] rows[k]).name) && rows[k].depth
                    == depth && !rows[k].expanded && exists|i: int|
                    0 <= i < listing.len() && (#[trigger] listing[i]).0 == rows[k].name
                        && listing[i].1 == rows[k].is_dir
        }),
{
    let items = rows_of(root, dir, listing, depth, filter);
    let rows = children_of(root, dir, listing, depth, filter);
    let keys = row_keys(items);
    lemma_rows(root, dir, listing, depth, filter);
    lemma_order_of(keys);
    let o = order_of(keys);
    assert(rows.len() == items.len());
    assert forall|k: int| 0 <= k < rows.len() implies shown_item((#[trigger] rows[k]).name)
        && rows[k].depth == depth && !rows[k].expanded && exists|i: int|
        0 <= i < listing.len() && (#[trigger] listing[i]).0 == rows[k].name && listing[i].1
            == rows[k].is_dir by {
        assert(o[k] < keys.len());
        assert(rows[k] == items[o[k] as int]);
        let i = choose|i: int|
            0 <= i < listing.len() && shown_item((#[trigger] listing[i]).0) && items[o[k] as int]
                == row_of(root, dir, listing[i], depth, filter);
        assert(listing[i].0 == rows[k].name);
    }
}

proof fn lemma_in_order(
    root: Seq<char>,
    dir: Seq<char>,
    listing: Seq<(Seq<char>, bool)>,
    depth: int,
    filter: Filter,
)
    requires
        listing.len() <= usize::MAX,
    ensures
        ({
            let rows = children_of(root, dir, listing, depth, filter);
            &&& forall|j: int, k: int|
                0 <= j < k < rows.len() ==> {
                    let a = #[trigger] rows[j];
                    let b = #[trigger] rows[k];
                    &&& a.is_dir || !b.is_dir
                    &&& a.is_dir == b.is_dir ==> !text_before(
                        text_lowercase(b.name),
                        text_lowercase(a.name),
                    )
                }
        }),
{
    let items = rows_of(root, dir, listing, depth, filter);
    let rows = children_of(root, dir, listing, depth, filter);
    let keys = row_keys(items);
    assert(items.len() <= listing.len()) by {
        lemma_rows(root, dir, listing, depth, filter);
    }
    lemma_order_of(keys);
    assert forall|j: int, k: int| 0 <= j < k < rows.len() implies {
        let a = #[trigger] rows[j];
        let b = #[trigger] rows[k];
        &&& a.is_dir || !b.is_dir
        &&& a.is_dir == b.is_dir ==> !text_before(text_lowercase(b.name), text_lowercase(a.name))
    } by {
        lemma_two_in_order(items, j, k);
    }
}

proof fn lemma_two_in_order(items: Seq<EntryState>, j: int, k: int)
    requires
        items.len() <= usize::MAX,
        0 <= j < k < items.len(),
    ensures
        ({
            let a = sorted_rows(items)[j];
            let b = sorted_rows(items)[k];
            &&& a.is_dir || !b.is_dir
            &&& a.is_dir == b.is_dir ==> !text_before(
                text_lowercase(b.name),
                text_lowercase(a.name),
            )
        }),
{
    let keys = row_keys(items);
    lemma_order_of(keys);
    let o = order_of(keys);
    assert(o[j] < keys.len() && o[k] < keys.len());
    assert(place_before(keys, o[j] as int, o[k] as int));
    let a = items[o[j] as int];
    let b = items[o[k] as int];
    crate::sorting::lemma_text_order(text_lowercase(a.name), text_lowercase(b.name), 0);
    crate::sorting::lemma_text_order(text_lowercase(b.name), text_lowercase(b.name), 0);
}

/// What is below a folder is what the folder holds, but for the internals of tools,
/// and nothing else: one row each, one step deeper, shut. Folders come first, and
/// then the names in alphabetical order, whatever their case.
pub proof fn law_a_folder_shows_what_it_holds(
    root: Seq<char>,
    dir: Seq<char>,
    listing: Seq<(Seq<char>, bool)>,
    depth: int,
    filter: Filter,
)
    requires
        listing.len() <= usize::MAX,
    ensures
        ({
            let rows = children_of(root, dir, listing, depth, filter);
            &&& forall|i: int|
                0 <= i < listing.len() && shown_item((#[trigger] listing[i]).0) ==> exists|k: int|
                    0 <= k < rows.len() && (#[trigger] rows[k]).name == listing[i].0
                        && rows[k].is_dir == listing[i].1
            &&& forall|k: int|
                0 <= k < rows.len() ==> shown_item((#[trigger] rows[k]).name) && rows[k].depth
                    == depth && !rows[k].expanded && exists|i: int|
                    0 <= i < listing.len() && (#[trigger] listing[i]).0 == rows[k].name
                        && listing[i].1 == rows[k].is_dir
            &&& forall|j: int, k: int|
                0 <= j < k < rows.len() ==> {
                    let a = #[trigger] rows[j];
                    let b = #[trigger] rows[k];
                    &&& a.is_dir || !b.is_dir
                    &&& a.is_dir == b.is_dir ==> !text_before(
                        text_lowercase(b.name),
                        text_lowercase(a.name),
                    )
                }
        }),
{
    lemma_all_shown(root, dir, listing, depth, filter);
    lemma_only_held(root, dir, listing, depth, filter);
    lemma_in_order(root, dir, listing, depth, filter);
}

proof fn lemma_subtree_end(rows: Seq<EntryState>, i: int, depth: int)
    requires
        0 <= i <= rows.len(),
    ensures
        ({
            let e = subtree_end(rows, i, depth);
            &&& i <= e <= rows.len()
            &&& forall|k: int| i <= k < e ==> (#[trigger] rows[k]).depth > depth
            &&& e < rows.len() ==> rows[e].depth <= depth
        }),
    decreases rows.len() - i,
{
    if i < rows.len() && rows[i].depth > depth {
        lemma_subtree_end(rows, i + 1, depth);
    }
}

/// Opening a folder puts what it holds right below it and moves the rest down;
/// shutting it takes away the rows below it that are deeper, up to the first that
/// is not, and no others. The folder itself stays where it is.
pub proof fn law_a_folder_opens_below_itself(t: TreeState, i: int, children: Seq<EntryState>)
    requires
        0 <= i < t.entries.len(),
    ensures
        ({
            let o = t.opened(i, children);
            let c = t.closed(i);
            let n = children.len() as int;
            &&& o.selected == t.selected && c.selected == t.selected
            &&& o.entries.len() == t.entries.len() + n
            &&& o.entries[i] == (EntryState { expanded: true, ..t.entries[i] })
            &&& c.entries[i] == (EntryState { expanded: false, ..t.entries[i] })
            &&& forall|k: int|
                0 <= k < i ==> #[trigger] o.entries[k] == t.entries[k] && c.entries[k]
                    == t.entries[k]
            &&& forall|k: int| 0 <= k < n ==> #[trigger] children[k] == o.entries[i + 1 + k]
            &&& forall|k: int|
                i < k < t.entries.len() ==> #[trigger] t.entries[k] == o.entries[k + n]
        }),
        ({
            let c = t.closed(i);
            let d = t.entries.len() - c.entries.len();
            &&& 0 <= d < t.entries.len() - i
            &&& forall|k: int| i < k <= i + d ==> (#[trigger] t.entries[k]).depth > t.entries[i].depth
            &&& i + d + 1 < t.entries.len() ==> t.entries[i + d + 1].depth <= t.entries[i].depth
            &&& forall|k: int|
                i + d < k < t.entries.len() ==> #[trigger] t.entries[k] == c.entries[k - d]
        }),
{
    let rows = t.entries;
    let e = subtree_end(rows, i + 1, rows[i].depth);
    lemma_subtree_end(rows, i + 1, rows[i].depth);
    let c = t.closed(i);
    assert(c.entries.len() == i + 1 + (rows.len() - e));
    let o = t.opened(i, children);
    assert forall|k: int| 0 <= k < children.len() implies #[trigger] children[k] == o.entries[i + 1
        + k] by {}
    assert forall|k: int| i < k < rows.len() implies #[trigger] rows[k] == o.entries[k
        + children.len()] by {}
    let d = rows.len() - c.entries.len();
    assert(d == e - i - 1);
    assert forall|k: int| i + d < k < rows.len() implies #[trigger] rows[k] == c.entries[k - d] by {}
}

/// A folder can be opened exactly when it is shut, and shut exactly when it is
/// open; a file can be neither.
pub proof fn law_only_folders_open_and_shut(t: TreeState)
    requires
        t.current() is Some,
        t.current()->0.depth < usize::MAX,
    ensures
        t.can_open() == (t.current()->0.is_dir && !t.current()->0.expanded),
        t.can_close() == (t.current()->0.is_dir && t.current()->0.expanded),
{
}

/// The search never goes into the internals of tools, and into the folders of
/// builds and dependencies only where that is asked for.
pub proof fn law_the_search_skips_tools_and_builds(n: Seq<char>)
    ensures
        !shown_item(n) ==> !enters(n, true) && !enters(n, false),
        n == "node_modules"@ || n == "target"@ || n == "dist"@ || n == "build"@ || n
            == "__pycache__"@ || n == ".venv"@ || n == "coverage"@ || n == ".cache"@ ==> !enters(
            n,
            false,
        ),
        shown_item(n) ==> enters(n, true),
        enters(n, false) ==> enters(n, true),
        hidden_name(n) == !shown_item(n),
{
}

} // verus!
