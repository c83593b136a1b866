//! The files of a project: the tree that the file dialog browses and the list
//! that it searches.

pub mod collect;

use crate::filedialog::texts;
use crate::paths::{
    display_name, has_path, holds_path, is_same_path, join_path, joined_path, relative,
    relative_path, same_path, shown_name,
};
use crate::sorting::{keys_view, order_of, ordered, sort_order, KeyState, SortKey};
use crate::strings::{chars_of, lowercase, same_text, text_lowercase};
use vstd::prelude::*;
use vstd::string::*;

verus! {

/// `ignore::gitignore::Gitignore`, the rules of an ignore file; opaque.
#[verifier::external_type_specification]
#[verifier::external_body]
pub struct ExGitignore(ignore::gitignore::Gitignore);

/// What a set of rules ignores: paths, each with whether it is a folder. A path
/// in an ignored folder is ignored with it.
pub uninterp spec fn ignored_paths(gi: ignore::gitignore::Gitignore) -> Set<(Seq<char>, bool)>;

/// A path with no slash in front and no two slashes in a row.
pub open spec fn plain_relative(p: Seq<char>) -> bool {
    &&& p.len() > 0 ==> p[0] != '/'
    &&& forall|i: int| 0 <= i < p.len() - 1 && p[i] == '/' ==> #[trigger] p[i + 1] != '/'
}

/// `Gitignore::matched_path_or_any_parents` looks a path and the folders that it
/// lies in up in the rules, and `Match::is_ignore` says whether the rule that
/// was found ignores it. The answer depends on the rules, the path and whether
/// it is a folder.
#[verifier::external_body]
pub(crate) fn rules_match(gi: &ignore::gitignore::Gitignore, path: &str, is_dir: bool) -> (r: bool)
    requires
        plain_relative(path@),
    ensures
        r == ignored_paths(*gi).contains((path@, is_dir)),
{
    gi.matched_path_or_any_parents(path, is_dir).is_ignore()
}

/// The most files that are collected for the search.
pub const MAX_FILES: usize = 50_000;

/// The internals of tools, which are never shown.
pub open spec fn hidden_name(n: Seq<char>) -> bool {
    n == ".git"@ || n == ".hg"@ || n == ".svn"@ || n == ".oxru"@ || n == ".DS_Store"@
}

/// The internals of tools, which are never shown.
pub fn is_hidden(n: &str) -> (r: bool)
    ensures
        r == hidden_name(n@),
{
    same_text(n, ".git") || same_text(n, ".hg") || same_text(n, ".svn") || same_text(n, ".oxru")
        || same_text(n, ".DS_Store")
}

/// The folders of builds, dependencies and caches: shown in the tree, and left
/// out of the search unless asked for.
pub open spec fn junk_name(n: Seq<char>) -> bool {
    n == ".idea"@ || n == "node_modules"@ || n == "bower_components"@ || n == "dist"@
        || n == "build"@ || n == "out"@ || n == ".next"@ || n == ".nuxt"@ || n == ".svelte-kit"@
        || n == ".turbo"@ || n == ".parcel-cache"@ || n == ".cache"@ || n == ".output"@
        || n == "coverage"@ || n == "target"@ || n == "__pycache__"@ || n == ".venv"@
        || n == "venv"@ || n == ".mypy_cache"@ || n == ".pytest_cache"@ || n == ".ruff_cache"@
        || n == ".tox"@ || n == ".dart_tool"@ || n == ".gradle"@ || n == "Pods"@
        || n == "DerivedData"@ || n == ".terraform"@
}

/// The folders of builds, dependencies and caches.
pub fn is_junk(n: &str) -> (r: bool)
    ensures
        r == junk_name(n@),
{
    same_text(n, ".idea") || same_text(n, "node_modules") || same_text(n, "bower_components")
        || same_text(n, "dist") || same_text(n, "build") || same_text(n, "out")
        || same_text(n, ".next") || same_text(n, ".nuxt") || same_text(n, ".svelte-kit")
        || same_text(n, ".turbo") || same_text(n, ".parcel-cache") || same_text(n, ".cache")
        || same_text(n, ".output") || same_text(n, "coverage") || same_text(n, "target")
        || same_text(n, "__pycache__") || same_text(n, ".venv") || same_text(n, "venv")
        || same_text(n, ".mypy_cache") || same_text(n, ".pytest_cache")
        || same_text(n, ".ruff_cache") || same_text(n, ".tox") || same_text(n, ".dart_tool")
        || same_text(n, ".gradle") || same_text(n, "Pods") || same_text(n, "DerivedData")
        || same_text(n, ".terraform")
}

/// Whether the search walks into an entry of this name.
pub open spec fn enters(name: Seq<char>, include_junk: bool) -> bool {
    !hidden_name(name) && (include_junk || !junk_name(name))
}

/// Whether the search walks into an entry of this name.
pub fn walks_into(name: &str, include_junk: bool) -> (r: bool)
    ensures
        r == enters(name@, include_junk),
{
    !is_hidden(name) && (include_junk || !is_junk(name))
}

/// Whether a walk comes to the entry whose names, from the root down, are these:
/// it walks into every one of them.
pub open spec fn comes_to(names: Seq<Seq<char>>, include_junk: bool) -> bool {
    forall|i: int| 0 <= i < names.len() ==> enters(#[trigger] names[i], include_junk)
}

/// Asking for the junk only adds to what a walk comes to, and adds only what has
/// junk on the way; nothing hidden is come to either way.
pub proof fn law_junk_only_adds(names: Seq<Seq<char>>, include_junk: bool)
    ensures
        comes_to(names, false) ==> comes_to(names, true),
        comes_to(names, true) && !comes_to(names, false) ==> exists|i: int|
            0 <= i < names.len() && junk_name(#[trigger] names[i]),
        comes_to(names, include_junk) ==> forall|i: int|
            0 <= i < names.len() ==> !hidden_name(#[trigger] names[i]),
{
}

/// What is ignored in a project.
pub struct Filter {
    /// The rules of the project's root, where there are any.
    pub rules: Option<ignore::gitignore::Gitignore>,
}

impl Filter {
    /// Whether the entry at `path` below the root is ignored.
    pub open spec fn ignores(self, path: Seq<char>, is_dir: bool) -> bool {
        match self.rules {
            Some(gi) => ignored_paths(gi).contains((path, is_dir)),
            None => false,
        }
    }

    /// Whether a name is kept out of the tree. Ignored files are shown, only
    /// faded.
    pub fn hidden(&self, name: &str) -> (r: bool)
        ensures
            r == hidden_name(name@),
    {
        is_hidden(name)
    }

    /// Whether the entry at `path` below the root is ignored.
    pub fn ignored(&self, path: &str, is_dir: bool) -> (r: bool)
        requires
            plain_relative(path@),
        ensures
            r == self.ignores(path@, is_dir),
    {
        match &self.rules {
            Some(gi) => rules_match(gi, path, is_dir),
            None => false,
        }
    }
}

/// A row of the tree.
#[derive(Debug)]
pub struct Entry {
    pub path: String,
    pub name: String,
    pub depth: usize,
    pub is_dir: bool,
    pub expanded: bool,
    /// Shown faded.
    pub ignored: bool,
}

/// A row of the tree as a mathematical value.
#[verifier::ext_equal]
pub struct EntryState {
    pub path: Seq<char>,
    pub name: Seq<char>,
    pub depth: int,
    pub is_dir: bool,
    pub expanded: bool,
    pub ignored: bool,
}

impl View for Entry {
    type V = EntryState;

    open spec fn view(&self) -> EntryState {
        EntryState {
            path: self.path@,
            name: self.name@,
            depth: self.depth as int,
            is_dir: self.is_dir,
            expanded: self.expanded,
            ignored: self.ignored,
        }
    }
}

/// The rows of a tree.
pub open spec fn entries_view(v: Seq<Entry>) -> Seq<EntryState> {
    Seq::new(v.len(), |i: int| v[i]@)
}

/// What a folder holds: names, and whether each is a folder.
pub open spec fn listing_view(v: Seq<(String, bool)>) -> Seq<(Seq<char>, bool)> {
    Seq::new(v.len(), |i: int| (v[i].0@, v[i].1))
}

/// Whether an entry of the project at `root` is ignored.
pub open spec fn is_faded(filter: Filter, root: Seq<char>, path: Seq<char>, is_dir: bool) -> bool {
    match relative_path(root, path) {
        Some(r) => plain_relative(r) && filter.ignores(r, is_dir),
        None => false,
    }
}

/// The row for the item `x` of the folder `dir`.
pub open spec fn row_of(
    root: Seq<char>,
    dir: Seq<char>,
    x: (Seq<char>, bool),
    depth: int,
    filter: Filter,
) -> EntryState {
    let path = joined_path(dir, x.0);
    EntryState {
        path,
        name: x.0,
        depth,
        is_dir: x.1,
        expanded: false,
        ignored: is_faded(filter, root, path, x.1),
    }
}

/// What rows are ordered by: folders first, and then by name whatever the case.
pub open spec fn row_key(e: EntryState) -> KeyState {
    KeyState {
        group: if e.is_dir {
            0
        } else {
            1
        },
        text: text_lowercase(e.name),
    }
}

/// The rows of a folder, unsorted.
pub open spec fn rows_of(
    root: Seq<char>,
    dir: Seq<char>,
    listing: Seq<(Seq<char>, bool)>,
    depth: int,
    filter: Filter,
) -> Seq<EntryState>
    decreases listing.len(),
{
    if listing.len() == 0 {
        Seq::empty()
    } else {
        let rest = rows_of(root, dir, listing.drop_last(), depth, filter);
        if hidden_name(listing.last().0) {
            rest
        } else {
            rest.push(row_of(root, dir, listing.last(), depth, filter))
        }
    }
}

/// The keys of rows.
pub open spec fn row_keys(items: Seq<EntryState>) -> Seq<KeyState> {
    Seq::new(items.len(), |i: int| row_key(items[i]))
}

/// Rows in order; rows with the same key stay in the order that they came in.
pub open spec fn sorted_rows(items: Seq<EntryState>) -> Seq<EntryState> {
    Seq::new(items.len(), |i: int| items[order_of(row_keys(items))[i] as int])
}

/// The rows of a folder in order.
pub open spec fn children_of(
    root: Seq<char>,
    dir: Seq<char>,
    listing: Seq<(Seq<char>, bool)>,
    depth: int,
    filter: Filter,
) -> Seq<EntryState> {
    sorted_rows(rows_of(root, dir, listing, depth, filter))
}

/// A copy of a row.
fn copy_entry(e: &Entry) -> (r: Entry)
    ensures
        r@ == e@,
{
    Entry {
        path: e.path.clone(),
        name: e.name.clone(),
        depth: e.depth,
        is_dir: e.is_dir,
        expanded: e.expanded,
        ignored: e.ignored,
    }
}

/// Whether a path has no slash in front and no two slashes in a row.
fn is_plain(p: &str) -> (r: bool)
    ensures
        r == plain_relative(p@),
{
    let v = chars_of(p);
    if v.len() == 0 {
        return true;
    }
    if v[0] == '/' {
        return false;
    }
    let mut i: usize = 0;
    while i < v.len() - 1
        invariant
            v@ == p@,
            v@.len() > 0,
            i <= v@.len() - 1,
            v@[0] != '/',
            forall|k: int| 0 <= k < i && v@[k] == '/' ==> #[trigger] v@[k + 1] != '/',
        decreases v.len() - i,
    {
        if v[i] == '/' && v[i + 1] == '/' {
            assert(p@[i as int] == '/' && p@[i + 1] == '/');
            return false;
        }
        i = i + 1;
    }
    true
}

fn faded(filter: &Filter, root: &str, path: &str, is_dir: bool) -> (r: bool)
    ensures
        r == is_faded(*filter, root@, path@, is_dir),
{
    match relative(root, path) {
        Some(rel) => is_plain(rel.as_str()) && filter.ignored(rel.as_str(), is_dir),
        None => false,
    }
}

/// The rows of the folder `dir` that holds `listing`: without what is hidden,
/// folders first and then by name.
pub fn read_dir_entries(
    root: &str,
    dir: &str,
    listing: &Vec<(String, bool)>,
    depth: usize,
    filter: &Filter,
) -> (r: Vec<Entry>)
    ensures
        entries_view(r@) == children_of(
            root@,
            dir@,
            listing_view(listing@),
            depth as int,
            *filter,
        ),
        forall|k: int|
            0 <= k < r@.len() ==> (#[trigger] r@[k]).depth == depth && !r@[k].expanded
                && !hidden_name(r@[k].name@),
{
    let ghost all = listing_view(listing@);
    let mut rows: Vec<Entry> = Vec::new();
    let mut keys: Vec<SortKey> = Vec::new();
    let mut i: usize = 0;
    assert(entries_view(rows@) =~= rows_of(root@, dir@, all.take(0), depth as int, *filter));
    assert(keys_view(keys@) =~= row_keys(entries_view(rows@)));
    while i < listing.len()
        invariant
            i <= listing@.len(),
            all == listing_view(listing@),
            entries_view(rows@) == rows_of(
                root@,
                dir@,
                all.take(i as int),
                depth as int,
                *filter,
            ),
            keys_view(keys@) == row_keys(entries_view(rows@)),
        decreases listing.len() - i,
    {
        let ghost before = entries_view(rows@);
        assert(all.take(i + 1).drop_last() =~= all.take(i as int));
        assert(all[i as int] == (listing@[i as int].0@, listing@[i as int].1));
        let name = listing[i].0.as_str();
        if !filter.hidden(name) {
            let is_dir: bool = listing[i].1;
            let path = join_path(dir, name);
            let ignored = faded(filter, root, path.as_str(), is_dir);
            let low = lowercase(name);
            let text = chars_of(low.as_str());
            let e = Entry {
                path,
                name: name.to_owned(),
                depth,
                is_dir,
                expanded: false,
                ignored,
            };
            let ghost kb = keys_view(keys@);
            keys.push(SortKey {
                group: if is_dir {
                    0
                } else {
                    1
                },
                text,
            });
            rows.push(e);
            proof {
                assert(entries_view(rows@) =~= before.push(
                    row_of(root@, dir@, all[i as int], depth as int, *filter),
                ));
                let row = row_of(root@, dir@, all[i as int], depth as int, *filter);
                assert(keys_view(keys@) =~= kb.push(row_key(row)));
                assert(row_keys(before.push(row)) =~= row_keys(before).push(row_key(row)));
            }
        }
        i = i + 1;
    }
    assert(all.take(i as int) =~= all);
    let order = sort_order(&keys);
    let mut out: Vec<Entry> = Vec::new();
    let mut j: usize = 0;
    let ghost items = entries_view(rows@);
    while j < order.len()
        invariant
            j <= order@.len(),
            items == entries_view(rows@),
            order@.len() == items.len(),
            ordered(order@, row_keys(items)),
            order@ == order_of(row_keys(items)),
            entries_view(out@) == sorted_rows(items).take(j as int),
            items == rows_of(root@, dir@, all, depth as int, *filter),
            forall|k: int|
                0 <= k < out@.len() ==> (#[trigger] out@[k]).depth == depth && !out@[k].expanded
                    && !hidden_name(out@[k].name@),
        decreases order.len() - j,
    {
        assert(order@[j as int] < items.len());
        proof {
            lemma_rows_of(root@, dir@, all, depth as int, *filter, order@[j as int] as int);
            assert(items[order@[j as int] as int] == rows@[order@[j as int] as int]@);
        }
        let ghost before = entries_view(out@);
        out.push(copy_entry(&rows[order[j]]));
        assert(entries_view(out@) =~= before.push(items[order@[j as int] as int]));
        j = j + 1;
        assert(sorted_rows(items).take(j as int) =~= sorted_rows(items).take(j - 1).push(
            sorted_rows(items)[j - 1],
        ));
    }
    assert(entries_view(out@) =~= sorted_rows(items));
    out
}

/// The tree that the file dialog browses.
pub struct FileTree {
    pub root: String,
    pub entries: Vec<Entry>,
    pub selected: usize,
    pub filter: Filter,
}

/// The tree as a mathematical value.
#[verifier::ext_equal]
pub struct TreeState {
    pub root: Seq<char>,
    pub entries: Seq<EntryState>,
    pub selected: int,
    pub filter: Filter,
}

impl View for FileTree {
    type V = TreeState;

    open spec fn view(&self) -> TreeState {
        TreeState {
            root: self.root@,
            entries: entries_view(self.entries@),
            selected: self.selected as int,
            filter: self.filter,
        }
    }
}

/// The first row from `i` on that is no deeper than `depth`, or the end.
pub open spec fn subtree_end(rows: Seq<EntryState>, i: int, depth: int) -> int
    decreases rows.len() - i,
{
    if i < rows.len() && rows[i].depth > depth {
        subtree_end(rows, i + 1, depth)
    } else {
        i
    }
}

/// The rows that a tree starts with: its root, open, and what it holds.
pub open spec fn root_rows(
    root: Seq<char>,
    listing: Seq<(Seq<char>, bool)>,
    filter: Filter,
) -> Seq<EntryState> {
    seq![
        EntryState {
            path: root,
            name: display_name(root),
            depth: 0,
            is_dir: true,
            expanded: true,
            ignored: false,
        },
    ] + children_of(root, root, listing, 1, filter)
}

/// What is listed for `path`; nothing where there is no listing.
pub open spec fn listing_for(
    listings: Seq<(Seq<char>, Seq<(Seq<char>, bool)>)>,
    path: Seq<char>,
) -> Seq<(Seq<char>, bool)>
    decreases listings.len(),
{
    if listings.len() == 0 {
        Seq::empty()
    } else if same_path(listings.last().0, path) {
        listings.last().1
    } else {
        listing_for(listings.drop_last(), path)
    }
}

/// Listings of folders.
pub open spec fn listings_view(v: Seq<(String, Vec<(String, bool)>)>) -> Seq<
    (Seq<char>, Seq<(Seq<char>, bool)>),
> {
    Seq::new(v.len(), |i: int| (v[i].0@, listing_view(v[i].1@)))
}

/// `rows` with the folders of `open` opened again, `levels` deep at most.
pub open spec fn regrown(
    rows: Seq<EntryState>,
    open: Seq<Seq<char>>,
    listings: Seq<(Seq<char>, Seq<(Seq<char>, bool)>)>,
    root: Seq<char>,
    filter: Filter,
    levels: nat,
) -> Seq<EntryState>
    decreases levels, rows.len(),
{
    if rows.len() == 0 {
        Seq::empty()
    } else {
        let r = rows.last();
        let front = regrown(rows.drop_last(), open, listings, root, filter, levels);
        if levels > 0 && r.is_dir && !r.expanded && holds_path(open, r.path) && r.depth < usize::MAX {
            let children = children_of(
                root,
                r.path,
                listing_for(listings, r.path),
                r.depth + 1,
                filter,
            );
            front.push(EntryState { expanded: true, ..r }) + regrown(
                children,
                open,
                listings,
                root,
                filter,
                (levels - 1) as nat,
            )
        } else {
            front.push(r)
        }
    }
}

/// The paths of the open folders, in order.
pub open spec fn open_folders_of(rows: Seq<EntryState>) -> Seq<Seq<char>>
    decreases rows.len(),
{
    if rows.len() == 0 {
        Seq::empty()
    } else {
        let front = open_folders_of(rows.drop_last());
        if rows.last().is_dir && rows.last().expanded {
            front.push(rows.last().path)
        } else {
            front
        }
    }
}

/// The first row with this path from `i` on, or -1.
pub open spec fn row_with_path(rows: Seq<EntryState>, path: Seq<char>, i: int) -> int
    decreases rows.len() - i,
{
    if i >= rows.len() {
        -1
    } else if same_path(rows[i].path, path) {
        i
    } else {
        row_with_path(rows, path, i + 1)
    }
}

impl TreeState {
    /// The selection is on a row, where there is one.
    pub open spec fn wf(self) -> bool {
        &&& 0 <= self.selected
        &&& self.entries.len() > 0 ==> self.selected < self.entries.len()
    }

    /// The selected row.
    pub open spec fn current(self) -> Option<EntryState> {
        if 0 <= self.selected < self.entries.len() {
            Some(self.entries[self.selected])
        } else {
            None
        }
    }

    /// The folder on row `i` open, with `children` below it.
    pub open spec fn opened(self, i: int, children: Seq<EntryState>) -> TreeState {
        let e = EntryState { expanded: true, ..self.entries[i] };
        TreeState {
            entries: self.entries.take(i).push(e) + children + self.entries.skip(i + 1),
            ..self
        }
    }

    /// The folder on row `i` closed: what is below it is gone.
    pub open spec fn closed(self, i: int) -> TreeState {
        let e = EntryState { expanded: false, ..self.entries[i] };
        TreeState {
            entries: self.entries.take(i).push(e) + self.entries.skip(
                subtree_end(self.entries, i + 1, self.entries[i].depth),
            ),
            ..self
        }
    }

    /// Whether the selected row is a folder that can be opened.
    pub open spec fn can_open(self) -> bool {
        self.current() matches Some(e) && e.is_dir && !e.expanded && e.depth < usize::MAX
    }

    /// Whether the selected row is an open folder.
    pub open spec fn can_close(self) -> bool {
        self.current() matches Some(e) && e.is_dir && e.expanded
    }

    /// What the selected folder holds, as rows below it.
    pub open spec fn below_selected(self, listing: Seq<(Seq<char>, bool)>) -> Seq<EntryState> {
        let e = self.entries[self.selected];
        children_of(self.root, e.path, listing, e.depth + 1, self.filter)
    }

    /// The tree read again: the folders that were open are open, and the same
    /// path is selected where it is still there.
    pub open spec fn refreshed(
        self,
        listing: Seq<(Seq<char>, bool)>,
        listings: Seq<(Seq<char>, Seq<(Seq<char>, bool)>)>,
    ) -> TreeState {
        let open = open_folders_of(self.entries);
        let rows = regrown(
            root_rows(self.root, listing, self.filter),
            open,
            listings,
            self.root,
            self.filter,
            open.len(),
        );
        let at = match self.current() {
            Some(e) => row_with_path(rows, e.path, 0),
            None => 0,
        };
        TreeState {
            entries: rows,
            selected: if at < 0 {
                0
            } else {
                at
            },
            ..self
        }
    }
}

proof fn lemma_subtree_end(rows: Seq<EntryState>, i: int, depth: int)
    requires
        0 <= i <= rows.len(),
    ensures
        i <= subtree_end(rows, i, depth) <= rows.len(),
        forall|k: int|
            i <= k < subtree_end(rows, i, depth) ==> (#[trigger] rows[k]).depth > depth,
        subtree_end(rows, i, depth) < rows.len() ==> rows[subtree_end(rows, i, depth)].depth
            <= depth,
    decreases rows.len() - i,
{
    if i < rows.len() && rows[i].depth > depth {
        lemma_subtree_end(rows, i + 1, depth);
    }
}

proof fn lemma_regrown_grows(
    rows: Seq<EntryState>,
    open: Seq<Seq<char>>,
    listings: Seq<(Seq<char>, Seq<(Seq<char>, bool)>)>,
    root: Seq<char>,
    filter: Filter,
    levels: nat,
)
    ensures
        regrown(rows, open, listings, root, filter, levels).len() >= rows.len(),
    decreases rows.len(),
{
    if rows.len() > 0 {
        lemma_regrown_grows(rows.drop_last(), open, listings, root, filter, levels);
    }
}

/// What is listed for `path`.
fn find_listing<'a>(
    listings: &'a Vec<(String, Vec<(String, bool)>)>,
    path: &str,
    none: &'a Vec<(String, bool)>,
) -> (r: &'a Vec<(String, bool)>)
    requires
        none@.len() == 0,
    ensures
        listing_view(r@) == listing_for(listings_view(listings@), path@),
{
    let ghost all = listings_view(listings@);
    let mut i: usize = listings.len();
    assert(all.take(i as int) =~= all);
    while i > 0
        invariant
            i <= listings@.len(),
            all == listings_view(listings@),
            listing_for(all, path@) == listing_for(all.take(i as int), path@),
        decreases i,
    {
        assert(all.take(i as int).drop_last() =~= all.take(i - 1));
        if is_same_path(listings[i - 1].0.as_str(), path) {
            return &listings[i - 1].1;
        }
        i = i - 1;
    }
    assert(listing_view(none@) =~= Seq::empty());
    none
}

/// `rows` with the folders of `open` opened again.
fn regrow(
    rows: &Vec<Entry>,
    open: &Vec<String>,
    listings: &Vec<(String, Vec<(String, bool)>)>,
    root: &str,
    filter: &Filter,
    levels: usize,
) -> (r: Vec<Entry>)
    ensures
        entries_view(r@) == regrown(
            entries_view(rows@),
            texts(open@),
            listings_view(listings@),
            root@,
            *filter,
            levels as nat,
        ),
    decreases levels,
{
    let ghost all = entries_view(rows@);
    let ghost op = texts(open@);
    let ghost ls = listings_view(listings@);
    let none: Vec<(String, bool)> = Vec::new();
    let mut out: Vec<Entry> = Vec::new();
    let mut i: usize = 0;
    assert(entries_view(out@) =~= regrown(all.take(0), op, ls, root@, *filter, levels as nat));
    while i < rows.len()
        invariant
            i <= rows@.len(),
            none@.len() == 0,
            all == entries_view(rows@),
            op == texts(open@),
            ls == listings_view(listings@),
            entries_view(out@) == regrown(
                all.take(i as int),
                op,
                ls,
                root@,
                *filter,
                levels as nat,
            ),
        decreases rows.len() - i,
    {
        let ghost before = entries_view(out@);
        assert(all.take(i + 1).drop_last() =~= all.take(i as int));
        assert(all.take(i + 1).last() == all[i as int]);
        let mut e = copy_entry(&rows[i]);
        if levels > 0 && e.is_dir && !e.expanded && e.depth < usize::MAX && has_path(
            open,
            e.path.as_str(),
        ) {
            let listing = find_listing(listings, e.path.as_str(), &none);
            let children = read_dir_entries(root, e.path.as_str(), listing, e.depth + 1, filter);
            let mut grown = regrow(&children, open, listings, root, filter, levels - 1);
            e.expanded = true;
            let ghost ev = e@;
            let ghost gv = entries_view(grown@);
            out.push(e);
            out.append(&mut grown);
            assert(entries_view(out@) =~= before.push(ev) + gv);
        } else {
            let ghost ev = e@;
            out.push(e);
            assert(entries_view(out@) =~= before.push(ev));
        }
        i = i + 1;
    }
    assert(all.take(i as int) =~= all);
    out
}

/// The rows that a tree starts with.
fn build_root_entries(root: &str, listing: &Vec<(String, bool)>, filter: &Filter) -> (r: Vec<
    Entry,
>)
    ensures
        entries_view(r@) == root_rows(root@, listing_view(listing@), *filter),
{
    let mut out: Vec<Entry> = Vec::new();
    out.push(
        Entry {
            path: root.to_owned(),
            name: shown_name(root),
            depth: 0,
            is_dir: true,
            expanded: true,
            ignored: false,
        },
    );
    let mut rest = read_dir_entries(root, root, listing, 1, filter);
    let ghost rv = entries_view(rest@);
    let ghost first = entries_view(out@);
    out.append(&mut rest);
    assert(entries_view(out@) =~= first + rv);
    assert(first =~= seq![
        EntryState {
            path: root@,
            name: display_name(root@),
            depth: 0,
            is_dir: true,
            expanded: true,
            ignored: false,
        },
    ]);
    out
}

impl FileTree {
    /// The tree of the folder `root` that holds `listing`.
    pub fn new(root: String, listing: &Vec<(String, bool)>, filter: Filter) -> (r: FileTree)
        ensures
            r@ == (TreeState {
                root: root@,
                entries: root_rows(root@, listing_view(listing@), filter),
                selected: 0,
                filter,
            }),
            r@.wf(),
    {
        let entries = build_root_entries(root.as_str(), listing, &filter);
        FileTree { root, entries, selected: 0, filter }
    }

    /// No tree, where no folder is open.
    pub fn empty() -> (r: FileTree)
        ensures
            r@ == (TreeState {
                root: Seq::empty(),
                entries: Seq::empty(),
                selected: 0,
                filter: Filter { rules: None },
            }),
            r@.wf(),
    {
        let r = FileTree {
            root: String::new(),
            entries: Vec::new(),
            selected: 0,
            filter: Filter { rules: None },
        };
        assert(r@.entries =~= Seq::empty());
        r
    }

    /// The selected path, and whether it is a folder.
    pub fn selected(&self) -> (r: Option<(String, bool)>)
        ensures
            match r {
                Some((p, d)) => self@.current() matches Some(e) && p@ == e.path && d == e.is_dir,
                None => self@.current() is None,
            },
    {
        if self.selected < self.entries.len() {
            Some((self.entries[self.selected].path.clone(), self.entries[self.selected].is_dir))
        } else {
            None
        }
    }

    /// The folder whose listing is needed to open the selected row; none where
    /// there is nothing to open.
    pub fn folder_to_open(&self) -> (r: Option<String>)
        ensures
            match r {
                Some(p) => self@.can_open() && p@ == self@.current()->0.path,
                None => !self@.can_open(),
            },
    {
        if self.selected < self.entries.len() {
            let e = &self.entries[self.selected];
            if e.is_dir && !e.expanded && e.depth < usize::MAX {
                return Some(e.path.clone());
            }
        }
        None
    }

    /// Open the selected folder, which holds `listing`. Does nothing to a file
    /// or an open folder.
    pub fn expand_selected(&mut self, listing: &Vec<(String, bool)>)
        requires
            old(self)@.wf(),
        ensures
            final(self)@ == if old(self)@.can_open() {
                old(self)@.opened(
                    old(self)@.selected,
                    old(self)@.below_selected(listing_view(listing@)),
                )
            } else {
                old(self)@
            },
            final(self)@.wf(),
    {
        let i: usize = self.selected;
        if i >= self.entries.len() {
            return;
        }
        let is_dir: bool = self.entries[i].is_dir;
        let open: bool = self.entries[i].expanded;
        let depth: usize = self.entries[i].depth;
        if !is_dir || open || depth == usize::MAX {
            return;
        }
        let ghost s = self@;
        let mut children = read_dir_entries(
            self.root.as_str(),
            self.entries[i].path.as_str(),
            listing,
            depth + 1,
            &self.filter,
        );
        let ghost cv = entries_view(children@);
        let mut tail = self.entries.split_off(i + 1);
        let ghost tv = entries_view(tail@);
        let mut e = copy_entry(&self.entries[i]);
        e.expanded = true;
        let ghost ev = e@;
        self.entries.set(i, e);
        let ghost hv = entries_view(self.entries@);
        self.entries.append(&mut children);
        self.entries.append(&mut tail);
        proof {
            assert(tv =~= s.entries.skip(i + 1));
            assert(hv =~= s.entries.take(i as int).push(ev));
            assert(entries_view(self.entries@) =~= hv + cv + tv);
        }
    }

    /// Close the selected folder. Does nothing to a file or a closed folder.
    pub fn collapse_selected(&mut self)
        requires
            old(self)@.wf(),
        ensures
            final(self)@ == if old(self)@.can_close() {
                old(self)@.closed(old(self)@.selected)
            } else {
                old(self)@
            },
            final(self)@.wf(),
    {
        let i: usize = self.selected;
        if i >= self.entries.len() {
            return;
        }
        let is_dir: bool = self.entries[i].is_dir;
        let open: bool = self.entries[i].expanded;
        let depth: usize = self.entries[i].depth;
        if !is_dir || !open {
            return;
        }
        let ghost s = self@;
        let mut end: usize = i + 1;
        while end < self.entries.len() && self.entries[end].depth > depth
            invariant
                i < end <= self.entries@.len(),
                self@ == s,
                subtree_end(s.entries, i + 1, depth as int) == subtree_end(
                    s.entries,
                    end as int,
                    depth as int,
                ),
            decreases self.entries.len() - end,
        {
            end = end + 1;
        }
        let mut tail = self.entries.split_off(end);
        let ghost tv = entries_view(tail@);
        self.entries.truncate(i + 1);
        let mut e = copy_entry(&self.entries[i]);
        e.expanded = false;
        let ghost ev = e@;
        self.entries.set(i, e);
        let ghost hv = entries_view(self.entries@);
        self.entries.append(&mut tail);
        proof {
            assert(tv =~= s.entries.skip(end as int));
            assert(hv =~= s.entries.take(i as int).push(ev));
            assert(entries_view(self.entries@) =~= hv + tv);
        }
    }

    /// Open the selected folder where it is closed, and close it where it is
    /// open.
    pub fn toggle_tree_selected(&mut self, listing: &Vec<(String, bool)>)
        requires
            old(self)@.wf(),
        ensures
            final(self)@ == if old(self)@.can_close() {
                old(self)@.closed(old(self)@.selected)
            } else if old(self)@.can_open() {
                old(self)@.opened(
                    old(self)@.selected,
                    old(self)@.below_selected(listing_view(listing@)),
                )
            } else {
                old(self)@
            },
            final(self)@.wf(),
    {
        if self.selected < self.entries.len() && self.entries[self.selected].expanded {
            self.collapse_selected();
        } else {
            self.expand_selected(listing);
        }
    }

    /// Read the tree again. The root now holds `listing`, and the folders that
    /// are open hold what `listings` says.
    pub fn refresh(
        &mut self,
        listing: &Vec<(String, bool)>,
        listings: &Vec<(String, Vec<(String, bool)>)>,
    )
        requires
            old(self)@.wf(),
        ensures
            final(self)@ == old(self)@.refreshed(
                listing_view(listing@),
                listings_view(listings@),
            ),
            final(self)@.wf(),
    {
        let ghost s = self@;
        let mut open: Vec<String> = Vec::new();
        let mut i: usize = 0;
        assert(texts(open@) =~= open_folders_of(s.entries.take(0)));
        while i < self.entries.len()
            invariant
                i <= self.entries@.len(),
                self@ == s,
                texts(open@) == open_folders_of(s.entries.take(i as int)),
                open@.len() <= i,
            decreases self.entries.len() - i,
        {
            assert(s.entries.take(i + 1).drop_last() =~= s.entries.take(i as int));
            let ghost before = texts(open@);
            if self.entries[i].is_dir && self.entries[i].expanded {
                open.push(self.entries[i].path.clone());
                assert(texts(open@) =~= before.push(s.entries[i as int].path));
            }
            i = i + 1;
        }
        assert(s.entries.take(i as int) =~= s.entries);
        let path: Option<String> = if self.selected < self.entries.len() {
            Some(self.entries[self.selected].path.clone())
        } else {
            None
        };
        let start = build_root_entries(self.root.as_str(), listing, &self.filter);
        let rows = regrow(&start, &open, listings, self.root.as_str(), &self.filter, open.len());
        proof {
            lemma_regrown_grows(
                entries_view(start@),
                texts(open@),
                listings_view(listings@),
                self.root@,
                self.filter,
                open@.len(),
            );
        }
        self.selected = 0;
        self.entries = rows;
        if let Some(p) = path {
            let ghost rv = entries_view(self.entries@);
            let mut j: usize = 0;
            while j < self.entries.len()
                invariant_except_break
                    j <= self.entries@.len(),
                    self.selected == 0,
                    rv == entries_view(self.entries@),
                    self.root@ == s.root,
                    self.filter == s.filter,
                    row_with_path(rv, p@, 0) == row_with_path(rv, p@, j as int),
                ensures
                    rv == entries_view(self.entries@),
                    self.root@ == s.root,
                    self.filter == s.filter,
                    self.selected == if row_with_path(rv, p@, 0) < 0 {
                        0
                    } else {
                        row_with_path(rv, p@, 0)
                    },
                    self.selected < self.entries@.len() || self.selected == 0,
                decreases self.entries.len() - j,
            {
                if is_same_path(self.entries[j].path.as_str(), p.as_str()) {
                    self.selected = j;
                    break;
                }
                j = j + 1;
            }
        }
    }

    /// Move up, going round to the last row.
    pub fn move_up(&mut self)
        requires
            old(self)@.wf(),
        ensures
            final(self)@ == (TreeState {
                selected: if old(self)@.entries.len() == 0 {
                    old(self)@.selected
                } else if old(self)@.selected == 0 {
                    old(self)@.entries.len() - 1
                } else {
                    old(self)@.selected - 1
                },
                ..old(self)@
            }),
            final(self)@.wf(),
    {
        if self.entries.len() == 0 {
            return;
        }
        self.selected = if self.selected == 0 {
            self.entries.len() - 1
        } else {
            self.selected - 1
        };
    }

    /// Move down, going round to the first row.
    pub fn move_down(&mut self)
        requires
            old(self)@.wf(),
        ensures
            final(self)@ == (TreeState {
                selected: if old(self)@.entries.len() == 0 {
                    old(self)@.selected
                } else if old(self)@.selected + 1 == old(self)@.entries.len() {
                    0
                } else {
                    old(self)@.selected + 1
                },
                ..old(self)@
            }),
            final(self)@.wf(),
    {
        if self.entries.len() == 0 {
            return;
        }
        self.selected = if self.selected + 1 == self.entries.len() {
            0
        } else {
            self.selected + 1
        };
    }
}

/// Closing a folder takes back what opening it did, where its row is followed
/// by none that is deeper.
pub proof fn law_closing_reverts_opening(t: TreeState, children: Seq<EntryState>)
    requires
        t.can_open(),
        t.selected + 1 < t.entries.len() ==> t.entries[t.selected + 1].depth
            <= t.entries[t.selected].depth,
        forall|k: int|
            0 <= k < children.len() ==> (#[trigger] children[k]).depth
                > t.entries[t.selected].depth,
    ensures
        t.opened(t.selected, children).closed(t.selected) == t,
{
    let i = t.selected;
    let d = t.entries[i].depth;
    let o = t.opened(i, children);
    lemma_subtree_end(o.entries, i + 1, d);
    let e = subtree_end(o.entries, i + 1, d);
    assert(o.entries[i].depth == d);
    if e < i + 1 + children.len() {
        assert(o.entries[e] == children[e - i - 1]);
    }
    if e > i + 1 + children.len() {
        assert(o.entries[i + 1 + children.len()] == t.entries[i + 1]);
    }
    assert(e == i + 1 + children.len());
    assert(o.entries.skip(e) =~= t.entries.skip(i + 1));
    assert(o.closed(i).entries =~= t.entries);
}

proof fn lemma_rows_of(
    root: Seq<char>,
    dir: Seq<char>,
    listing: Seq<(Seq<char>, bool)>,
    depth: int,
    filter: Filter,
    k: int,
)
    requires
        0 <= k < rows_of(root, dir, listing, depth, filter).len(),
    ensures
        ({
            let e = rows_of(root, dir, listing, depth, filter)[k];
            e.depth == depth && !e.expanded && !hidden_name(e.name)
        }),
    decreases listing.len(),
{
    let rest = rows_of(root, dir, listing.drop_last(), depth, filter);
    if k < rest.len() {
        lemma_rows_of(root, dir, listing.drop_last(), depth, filter, k);
    }
}

} // verus!
