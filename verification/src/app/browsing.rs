//! The file dialog: a tree to browse while nothing is asked, and a list of
//! files that match otherwise.

use crate::app::{App, DiskFiles, Entries, FolderFiles};
use crate::buffer::opt_text;
use crate::buffer::state::next_revision;
use crate::dialog::{dismissed, Dialog};
use crate::editline::{char_len, clamp, field, insert, Field};
use crate::filedialog::{all_searchable, can_score_all, lists, texts, FileDialog};
use crate::fstree::collect::{
    chars_view, collect_files, collect_files_marked, kept_files, marked_files, marked_view, sorted_paths,
    walk_view,
};
use crate::fstree::{listing_view, listings_view, root_rows, FileTree, TreeState};
use crate::paths::{
    is_same_path, leads_to, parent, parent_path, relative, relative_path, same_path,
};
use crate::tabs::{place_in, rank_among, TabsState};
use crate::toast::ToastKind;
use vstd::prelude::*;
use vstd::string::*;

verus! {

/// How a path is shown and searched: relative to the open folder where it lies
/// in it.
pub open spec fn shown_path(root: Seq<char>, path: Seq<char>) -> Seq<char> {
    match relative_path(root, path) {
        Some(p) => p,
        None => path,
    }
}

/// What the dialog searches, for the files `m`.
pub open spec fn shown_paths(root: Seq<char>, m: Seq<(Seq<char>, bool)>) -> Seq<Seq<char>> {
    Seq::new(m.len(), |i: int| shown_path(root, m[i].0))
}

/// Whether the lists are those of the files `m`.
pub open spec fn entries_of(e: Entries, root: Seq<char>, m: Seq<(Seq<char>, bool)>) -> bool {
    &&& texts(e.paths@) == Seq::new(m.len(), |i: int| m[i].0)
    &&& e.ignored@ == Seq::new(m.len(), |i: int| m[i].1)
    &&& texts(e.display@) == shown_paths(root, m)
}

/// The place of each path among the recently used files.
pub open spec fn ranks_of(t: TabsState, paths: Seq<Seq<char>>) -> Seq<Option<usize>> {
    Seq::new(
        paths.len(),
        |i: int|
            {
                let k = place_in(t.recent_files, paths[i], 0);
                if k < 0 {
                    None
                } else {
                    Some(k as usize)
                }
            },
    )
}

/// Whether `b` is `a` after the query became `q` and the list was made anew.
pub open spec fn lists_for(a: App, q: Field, b: App) -> bool {
    &&& b == App { file_dialog: b.file_dialog, ..a }
    &&& b.file_dialog.field() == q
    &&& b.file_dialog.active == a.file_dialog.active
    &&& b.file_dialog.checked == a.file_dialog.checked
    &&& lists(
        b.file_dialog.matches@,
        texts(a.entries.display@),
        q.text,
        ranks_of(a.tabs@, texts(a.entries.paths@)),
    )
    &&& b.file_dialog.selected == if q.text.len() > 0 {
        0
    } else if a.file_dialog.selected < b.file_dialog.matches@.len() {
        a.file_dialog.selected as int
    } else if b.file_dialog.matches@.len() > 0 {
        b.file_dialog.matches@.len() - 1
    } else {
        0
    }
}

/// Whether `e` are the lists of `a` made anew from the files `m`: they count as
/// others then, and without an open folder there are none.
pub open spec fn entries_anew(a: App, m: Seq<(Seq<char>, bool)>, e: Entries) -> bool {
    match a.root {
        Some(root) => entries_of(e, root@, m) && e.rev == next_revision(a.entries.rev),
        None => {
            &&& e.paths@.len() == 0
            &&& e.display@.len() == 0
            &&& e.ignored@.len() == 0
            &&& e.rev == a.entries.rev
        },
    }
}

/// Whether `b` is `a` with the lists of the files `m`, the dialog itself being
/// the same.
pub open spec fn rebuilt(a: App, m: Seq<(Seq<char>, bool)>, b: App) -> bool {
    &&& b == App { entries: b.entries, file_dialog: b.file_dialog, ..a }
    &&& b.file_dialog.same_face(&a.file_dialog)
    &&& entries_anew(a, m, b.entries)
    &&& a.root is None ==> b.file_dialog == a.file_dialog
}

/// Whether `b` is `a` after the tree, the files of the open folder and the lists
/// of the dialog were brought up to what was found on disk.
pub open spec fn renewed(a: App, found: DiskFiles, b: App) -> bool {
    &&& b.tree@ == a.tree@.refreshed(listing_view(found.listing@), listings_view(found.listings@))
    &&& match a.root {
        Some(_) => texts(b.files@) == sorted_paths(kept_files(walk_view(found.files@))),
        None => b.files == a.files,
    }
    &&& rebuilt(
        App { tree: b.tree, files: b.files, ..a },
        marked_files(walk_view(found.walk@), walk_view(found.heeding_walk@)),
        b,
    )
}

/// Whether `b` is `a` with the matches of the dialog, where it is open, made anew.
pub open spec fn relisted(a: App, b: App) -> bool {
    if a.file_dialog.active && all_searchable(texts(a.entries.display@), a.file_dialog.query@) {
        lists_for(a, a.file_dialog.field(), b)
    } else {
        b == a
    }
}

/// The row after one step up or down a list of `n` rows that goes round.
pub open spec fn row_step(row: int, n: int, up: bool) -> int {
    if n == 0 {
        row
    } else if up {
        if row == 0 {
            n - 1
        } else {
            row - 1
        }
    } else if row + 1 == n {
        0
    } else {
        row + 1
    }
}

/// The row after so many steps.
pub open spec fn row_steps(row: int, n: int, up: bool, times: nat) -> int
    decreases times,
{
    if times == 0 {
        row
    } else {
        row_step(row_steps(row, n, up, (times - 1) as nat), n, up)
    }
}

/// Whether `b` is `a` after so many steps up or down the rows that show.
pub open spec fn steps(a: App, b: App, up: bool, times: nat) -> bool {
    if a.file_dialog.query@.len() == 0 {
        &&& b == App { tree: b.tree, ..a }
        &&& b.tree@ == TreeState {
            selected: row_steps(a.tree@.selected, a.tree@.entries.len() as int, up, times),
            ..a.tree@
        }
    } else {
        &&& b == App { file_dialog: b.file_dialog, ..a }
        &&& b.file_dialog == FileDialog { selected: b.file_dialog.selected, ..a.file_dialog }
        &&& b.file_dialog.selected == row_steps(
            a.file_dialog.selected as int,
            a.file_dialog.matches@.len() as int,
            up,
            times,
        )
    }
}

/// What is left to do after a key or a click in the dialog.
#[derive(Debug)]
pub enum BrowseStep {
    Nothing,
    /// These files are to be opened.
    Open(Vec<String>),
    /// This folder of the tree is to be listed and opened.
    Expand(String),
    /// The dialog is limited to this folder now, whose files are to be read.
    Reroot(String),
    /// A file or folder is to be moved into the folder `dir`.
    Move { from: String, to: String, dir: String },
}

/// The ticked ones of the first `n` paths.
pub open spec fn ticked_paths(paths: Seq<Seq<char>>, ticked: Set<usize>, n: int) -> Seq<Seq<char>>
    decreases n,
{
    if n <= 0 {
        Seq::empty()
    } else if ticked.contains((n - 1) as usize) {
        ticked_paths(paths, ticked, n - 1).push(paths[n - 1])
    } else {
        ticked_paths(paths, ticked, n - 1)
    }
}

impl App {
    /// The folder that the dialog shows.
    pub open spec fn browsed(self) -> Option<Seq<char>> {
        match self.root {
            Some(r) => match self.scope {
                Some(s) => Some(s@),
                None => Some(r@),
            },
            None => None,
        }
    }

    /// The folder that the dialog shows.
    pub fn browsed_folder(&self) -> (r: Option<String>)
        ensures
            opt_text(r) == self.browsed(),
    {
        match &self.root {
            Some(p) => match &self.scope {
                Some(s) => Some(s.clone()),
                None => Some(p.clone()),
            },
            None => None,
        }
    }

    /// Make the lists of files anew. The walks are those of the folder that the
    /// dialog shows.
    pub fn rebuild_dialog_entries(
        &mut self,
        walk: &Vec<(String, bool)>,
        heeding_walk: &Vec<(String, bool)>,
    )
        requires
            old(self).wf(),
        ensures
            rebuilt(
                *old(self),
                marked_files(walk_view(walk@), walk_view(heeding_walk@)),
                *final(self),
            ),
            final(self).wf(),
    {
        let ghost m = marked_files(walk_view(walk@), walk_view(heeding_walk@));
        let mut paths: Vec<String> = Vec::new();
        let mut display: Vec<String> = Vec::new();
        let mut ignored: Vec<bool> = Vec::new();
        let root = match &self.root {
            Some(r) => r,
            None => {
                self.entries.paths = paths;
                self.entries.display = display;
                self.entries.ignored = ignored;
                assert(texts(self.entries.display@) =~= Seq::empty());
                return;
            },
        };
        let marked = collect_files_marked(walk, heeding_walk);
        let mut i: usize = 0;
        while i < marked.len()
            invariant
                i <= marked@.len(),
                marked_view(marked@) == m,
                paths@.len() == i,
                display@.len() == i,
                ignored@.len() == i,
                forall|k: int| 0 <= k < i ==> (#[trigger] paths@[k])@ == m[k].0,
                forall|k: int| 0 <= k < i ==> #[trigger] ignored@[k] == m[k].1,
                forall|k: int|
                    0 <= k < i ==> (#[trigger] display@[k])@ == shown_path(root@, m[k].0),
            decreases marked.len() - i,
        {
            let path = marked[i].0.clone();
            assert(m[i as int] == (path@, marked@[i as int].1));
            let shown = match relative(root.as_str(), path.as_str()) {
                Some(p) => p,
                None => path.clone(),
            };
            paths.push(path);
            display.push(shown);
            ignored.push(marked[i].1);
            i = i + 1;
        }
        let ghost r = root@;
        let rev: u64 = self.entries.rev.wrapping_add(1);
        if self.file_dialog.prepared_rev == rev {
            // The numbers went round: what was made ready is of other lists.
            self.file_dialog.prepared = Vec::new();
            self.file_dialog.prepared_rev = self.entries.rev;
        }
        self.entries = Entries { paths, display, ignored, rev };
        assert(texts(self.entries.paths@) =~= Seq::new(m.len(), |i: int| m[i].0));
        assert(self.entries.ignored@ =~= Seq::new(m.len(), |i: int| m[i].1));
        assert(texts(self.entries.display@) =~= shown_paths(r, m));
    }

    /// Bring the tree, the files of the open folder and the lists of the dialog
    /// up to what was found on disk.
    pub fn renew_files(&mut self, found: &DiskFiles)
        requires
            old(self).wf(),
        ensures
            renewed(*old(self), *found, *final(self)),
            final(self).wf(),
    {
        self.tree.refresh(&found.listing, &found.listings);
        if self.root.is_some() {
            self.files = collect_files(&found.files).0;
        }
        self.rebuild_dialog_entries(&found.walk, &found.heeding_walk);
    }

    /// Make the matches of the dialog anew where it is open.
    pub fn relist_dialog(&mut self)
        requires
            old(self).wf(),
        ensures
            relisted(*old(self), *final(self)),
            final(self).wf(),
    {
        if self.file_dialog.active && self.can_search() {
            self.dialog_refilter();
        }
    }

    /// Whether every file can be scored against the query.
    pub fn can_search(&self) -> (r: bool)
        ensures
            r == all_searchable(texts(self.entries.display@), self.file_dialog.query@),
    {
        can_score_all(self.file_dialog.query.as_str(), &self.entries.display)
    }

    /// Make the list of matches anew.
    pub fn dialog_refilter(&mut self)
        requires
            old(self).wf(),
            all_searchable(texts(old(self).entries.display@), old(self).file_dialog.query@),
        ensures
            lists_for(*old(self), old(self).file_dialog.field(), *final(self)),
            final(self).wf(),
    {
        let ghost paths = texts(self.entries.paths@);
        let used = self.tabs.recent_chars();
        let mut recent: Vec<Option<usize>> = Vec::new();
        let mut i: usize = 0;
        while i < self.entries.paths.len()
            invariant
                i <= self.entries.paths@.len(),
                paths == texts(self.entries.paths@),
                chars_view(used@) == self.tabs@.recent_files,
                recent@.len() == i,
                forall|k: int|
                    0 <= k < i ==> #[trigger] recent@[k] == ranks_of(self.tabs@, paths)[k],
            decreases self.entries.paths.len() - i,
        {
            recent.push(rank_among(&used, self.entries.paths[i].as_str()));
            i = i + 1;
        }
        assert(recent@ =~= ranks_of(self.tabs@, paths));
        self.file_dialog.refilter(&self.entries.display, self.entries.rev, &recent);
    }

    /// Fill the dialog that was just opened with the files of the open folder.
    pub fn init_file_dialog(&mut self, files: FolderFiles)
        requires
            old(self).wf(),
        ensures
            final(self).scope is None,
            final(self).tree@ == match old(self).root {
                Some(r) => TreeState {
                    root: r@,
                    entries: root_rows(r@, listing_view(files.listing@), files.filter),
                    selected: 0,
                    filter: files.filter,
                },
                None => old(self).tree@,
            },
            entries_anew(
                *old(self),
                marked_files(walk_view(files.walk@), walk_view(files.heeding_walk@)),
                final(self).entries,
            ),
            final(self).file_dialog.active,
            final(self).file_dialog.field() == (Field {
                text: Seq::empty(),
                cursor: 0,
                anchor: None,
            }),
            final(self).file_dialog.checked@ == Set::<usize>::empty(),
            final(self).file_dialog.selected == 0,
            lists(
                final(self).file_dialog.matches@,
                texts(final(self).entries.display@),
                Seq::empty(),
                ranks_of(old(self).tabs@, texts(final(self).entries.paths@)),
            ),
            *final(self) == (App {
                scope: final(self).scope,
                tree: final(self).tree,
                entries: final(self).entries,
                file_dialog: final(self).file_dialog,
                ..*old(self)
            }),
            final(self).wf(),
    {
        self.scope = None;
        if let Some(r) = &self.root {
            self.tree = FileTree::new(r.clone(), &files.listing, files.filter);
        }
        self.rebuild_dialog_entries(&files.walk, &files.heeding_walk);
        self.file_dialog.open();
        assert(self.file_dialog.query@ =~= Seq::empty());
        proof {
            crate::terminals::lemma_empty_query(texts(self.entries.display@));
        }
        self.dialog_refilter();
    }

    /// The query changed: make the list of matches anew.
    pub fn dialog_query_changed(&mut self)
        requires
            old(self).wf(),
            all_searchable(texts(old(self).entries.display@), old(self).file_dialog.query@),
        ensures
            lists_for(*old(self), old(self).file_dialog.field().clamped(), *final(self)),
            final(self).wf(),
    {
        clamp(
            self.file_dialog.query.as_str(),
            &mut self.file_dialog.cursor,
            &mut self.file_dialog.anchor,
        );
        self.dialog_refilter();
    }

    /// Whether the tree shows: while nothing is asked.
    pub fn dialog_tree_mode(&self) -> (r: bool)
        ensures
            r == (self.file_dialog.query@.len() == 0),
    {
        char_len(self.file_dialog.query.as_str()) == 0
    }

    /// The file or folder that is selected, and whether it is a folder.
    pub open spec fn pick(self) -> Option<(Seq<char>, bool)> {
        if self.file_dialog.query@.len() == 0 {
            match self.tree@.current() {
                Some(e) => Some((e.path, e.is_dir)),
                None => None,
            }
        } else if self.file_dialog.selected < self.file_dialog.matches@.len()
            && self.file_dialog.matches@[self.file_dialog.selected as int]
            < self.entries.paths@.len() {
            Some(
                (
                    self.entries.paths@[self.file_dialog.matches@[self.file_dialog.selected as int] as int]@,
                    false,
                ),
            )
        } else {
            None
        }
    }

    /// The file or folder that is selected, and whether it is a folder.
    pub fn dialog_selected(&self) -> (r: Option<(String, bool)>)
        ensures
            match (r, self.pick()) {
                (Some((p, d)), Some((q, e))) => p@ == q && d == e,
                (None, None) => true,
                _ => false,
            },
    {
        if self.dialog_tree_mode() {
            return self.tree.selected();
        }
        match self.file_dialog.selected_source() {
            Some(i) => if i < self.entries.paths.len() {
                Some((self.entries.paths[i].clone(), false))
            } else {
                None
            },
            None => None,
        }
    }

    /// Where a new file or folder is made: in the selected folder, or beside
    /// the selected file.
    pub open spec fn base_dir(self) -> Seq<char> {
        let root = match self.root {
            Some(r) => r@,
            None => "."@,
        };
        match self.pick() {
            Some((p, true)) => p,
            Some((p, false)) => match parent_path(p) {
                Some(d) => d,
                None => root,
            },
            None => root,
        }
    }

    /// Where a new file or folder is made.
    pub fn dialog_base_dir(&self) -> (r: String)
        ensures
            r@ == self.base_dir(),
    {
        let root = match &self.root {
            Some(r) => r.clone(),
            None => ".".to_owned(),
        };
        match self.dialog_selected() {
            Some((p, is_dir)) => if is_dir {
                p
            } else {
                match parent(p.as_str()) {
                    Some(d) => d,
                    None => root,
                }
            },
            None => root,
        }
    }

    /// Copy the path of what is selected.
    pub fn copy_dialog_path(&mut self, relative_to_root: bool)
        requires
            old(self).wf(),
        ensures
            copies_pick(*old(self), relative_to_root, *final(self)),
            final(self).wf(),
    {
        if let Some((p, _)) = self.dialog_selected() {
            self.copy_path(p.as_str(), relative_to_root);
        }
    }

    /// One row up.
    pub fn dialog_up(&mut self)
        requires
            old(self).wf(),
        ensures
            steps(*old(self), *final(self), true, 1),
            final(self).wf(),
    {
        reveal_with_fuel(row_steps, 2);
        if self.dialog_tree_mode() {
            self.tree.move_up();
        } else {
            let n: usize = self.file_dialog.matches.len();
            self.file_dialog.move_up();
            assert(n == self.file_dialog.matches@.len());
        }
    }

    /// One row down.
    pub fn dialog_down(&mut self)
        requires
            old(self).wf(),
        ensures
            steps(*old(self), *final(self), false, 1),
            final(self).wf(),
    {
        reveal_with_fuel(row_steps, 2);
        if self.dialog_tree_mode() {
            self.tree.move_down();
        } else {
            let n: usize = self.file_dialog.matches.len();
            proof {
                let s = self.file_dialog.selected as int;
                if n > 0 {
                    if s + 1 < n {
                        vstd::arithmetic::div_mod::lemma_small_mod((s + 1) as nat, n as nat);
                    } else {
                        vstd::arithmetic::div_mod::lemma_mod_self_0(n as int);
                    }
                }
            }
            self.file_dialog.move_down();
        }
    }

    /// Move by the lines of the wheel, ten at most; up where they are positive.
    pub fn dialog_wheel(&mut self, lines: i32)
        requires
            old(self).wf(),
        ensures
            ({
                let n = if lines < -10 || lines > 10 {
                    10
                } else if lines < 0 {
                    -lines
                } else {
                    lines as int
                };
                steps(*old(self), *final(self), lines > 0, n as nat)
            }),
            final(self).wf(),
    {
        let n: u32 = if lines < -10 || lines > 10 {
            10
        } else if lines < 0 {
            (0 - lines) as u32
        } else {
            lines as u32
        };
        let ghost a = *self;
        let mut i: u32 = 0;
        reveal_with_fuel(row_steps, 2);
        while i < n
            invariant
                i <= n,
                self.wf(),
                steps(a, *self, lines > 0, i as nat),
            decreases n - i,
        {
            let ghost mid = *self;
            if lines > 0 {
                self.dialog_up();
            } else {
                self.dialog_down();
            }
            proof {
                lemma_steps(a, mid, *self, lines > 0, i as nat);
            }
            i = i + 1;
        }
    }

    /// Tick or untick the selected file.
    pub fn dialog_toggle_check(&mut self)
        requires
            old(self).wf(),
        ensures
            toggles_tick(*old(self), *final(self)),
            final(self).wf(),
    {
        if let Some(src) = self.file_dialog.selected_source() {
            if src < self.entries.paths.len() {
                self.file_dialog.toggle_check(src);
            }
        }
    }

    /// The ticked files, in the order of the list.
    fn ticked(&self) -> (r: Vec<String>)
        requires
            self.wf(),
        ensures
            texts(r@) == ticked_paths(
                texts(self.entries.paths@),
                self.file_dialog.checked@,
                self.entries.paths@.len() as int,
            ),
    {
        let mut r: Vec<String> = Vec::new();
        let ghost all = texts(self.entries.paths@);
        let mut i: usize = 0;
        assert(texts(r@) =~= Seq::empty());
        while i < self.entries.paths.len()
            invariant
                i <= self.entries.paths@.len(),
                all == texts(self.entries.paths@),
                texts(r@) == ticked_paths(all, self.file_dialog.checked@, i as int),
            decreases self.entries.paths.len() - i,
        {
            let ghost before = texts(r@);
            if self.file_dialog.checked.contains(&i) {
                r.push(self.entries.paths[i].clone());
                assert(texts(r@) =~= before.push(all[i as int]));
            }
            i = i + 1;
        }
        r
    }

    /// Open what is selected: a file of the tree, or close or open a folder of
    /// it; while something is asked, every ticked file or the selected one.
    pub fn dialog_open_selected(&mut self) -> (r: BrowseStep)
        requires
            old(self).wf(),
        ensures
            opens(*old(self), r, *final(self)),
            final(self).wf(),
    {
        if self.dialog_tree_mode() {
            return match self.tree.selected() {
                Some((path, is_dir)) => if is_dir {
                    match self.tree.folder_to_open() {
                        Some(p) => BrowseStep::Expand(p),
                        None => {
                            self.tree.collapse_selected();
                            BrowseStep::Nothing
                        },
                    }
                } else {
                    let mut v: Vec<String> = Vec::new();
                    v.push(path);
                    assert(texts(v@) =~= seq![path@]);
                    BrowseStep::Open(v)
                },
                None => BrowseStep::Nothing,
            };
        }
        if self.file_dialog.checked.len() > 0 {
            let paths = self.ticked();
            self.dismiss_dialog(Dialog::Files);
            return BrowseStep::Open(paths);
        }
        match self.dialog_selected() {
            Some((path, is_dir)) => {
                let mut v: Vec<String> = Vec::new();
                v.push(path);
                assert(texts(v@) =~= seq![path@]);
                BrowseStep::Open(v)
            },
            None => BrowseStep::Nothing,
        }
    }

    /// Open the selected folder of the tree, which holds `listing`.
    pub fn dialog_tree_expand(&mut self, listing: &Vec<(String, bool)>)
        requires
            old(self).wf(),
        ensures
            *final(self) == (App { tree: final(self).tree, ..*old(self) }),
            final(self).tree@ == if old(self).file_dialog.query@.len() == 0 && old(
                self,
            ).tree@.can_open() {
                old(self).tree@.opened(
                    old(self).tree@.selected,
                    old(self).tree@.below_selected(listing_view(listing@)),
                )
            } else {
                old(self).tree@
            },
            final(self).wf(),
    {
        if self.dialog_tree_mode() {
            self.tree.expand_selected(listing);
        }
    }

    /// Close the selected folder of the tree.
    pub fn dialog_tree_collapse(&mut self)
        requires
            old(self).wf(),
        ensures
            collapses(*old(self), *final(self)),
            final(self).wf(),
    {
        if self.dialog_tree_mode() {
            self.tree.collapse_selected();
        }
    }

    /// Whether the dialog shows the folder `path` already.
    pub open spec fn shows_folder(self, path: Seq<char>) -> bool {
        match (self.scope, self.root) {
            (Some(s), _) => same_path(s@, path),
            (None, Some(r)) => same_path(r@, path),
            (None, None) => false,
        }
    }

    /// Limit the dialog to the selected folder of the tree.
    pub fn dialog_scope_into(&mut self) -> (r: BrowseStep)
        requires
            old(self).wf(),
        ensures
            match old(self).tree@.current() {
                Some(e) => if e.is_dir && !old(self).shows_folder(e.path) {
                    &&& *final(self) == (App { scope: final(self).scope, ..*old(self) })
                    &&& opt_text(final(self).scope) == Some(e.path)
                    &&& r matches BrowseStep::Reroot(p) && p@ == e.path
                } else {
                    *final(self) == *old(self) && r is Nothing
                },
                None => *final(self) == *old(self) && r is Nothing,
            },
            final(self).wf(),
    {
        if let Some((path, is_dir)) = self.tree.selected() {
            if is_dir {
                let already = match &self.scope {
                    Some(s) => is_same_path(s.as_str(), path.as_str()),
                    None => match &self.root {
                        Some(r) => is_same_path(r.as_str(), path.as_str()),
                        None => false,
                    },
                };
                if !already {
                    self.scope = Some(path.clone());
                    return BrowseStep::Reroot(path);
                }
            }
        }
        BrowseStep::Nothing
    }

    /// The folder that the dialog is limited to after going out of one: the
    /// parent while that lies below the open folder, else none.
    pub open spec fn outer_scope(self) -> Option<Seq<char>> {
        match (self.scope, self.root) {
            (Some(s), Some(r)) => match parent_path(s@) {
                Some(p) => if !same_path(p, r@) && leads_to(r@, p) {
                    Some(p)
                } else {
                    None
                },
                None => None,
            },
            _ => None,
        }
    }

    /// Go out of the folder that the dialog is limited to.
    pub fn dialog_scope_pop(&mut self) -> (r: BrowseStep)
        requires
            old(self).wf(),
        ensures
            if old(self).scope is None {
                *final(self) == *old(self) && r is Nothing
            } else {
                &&& *final(self) == (App { scope: final(self).scope, ..*old(self) })
                &&& opt_text(final(self).scope) == old(self).outer_scope()
                &&& match final(self).browsed() {
                    Some(f) => r matches BrowseStep::Reroot(p) && p@ == f,
                    None => r is Nothing,
                }
            },
            final(self).wf(),
    {
        let outer = match &self.scope {
            None => return BrowseStep::Nothing,
            Some(s) => match &self.root {
                Some(r) => match parent(s.as_str()) {
                    Some(p) => if !is_same_path(p.as_str(), r.as_str()) && relative(
                        r.as_str(),
                        p.as_str(),
                    ).is_some() {
                        Some(p)
                    } else {
                        None
                    },
                    None => None,
                },
                None => None,
            },
        };
        self.scope = outer;
        match self.browsed_folder() {
            Some(f) => BrowseStep::Reroot(f),
            None => BrowseStep::Nothing,
        }
    }

    /// Fill the dialog with the files of the folder that it is limited to now.
    pub fn reroot_dialog(&mut self, files: FolderFiles)
        requires
            old(self).wf(),
            old(self).root matches Some(r) ==> all_searchable(
                shown_paths(
                    r@,
                    marked_files(walk_view(files.walk@), walk_view(files.heeding_walk@)),
                ),
                old(self).file_dialog.query@,
            ),
        ensures
            match old(self).browsed() {
                Some(f) => {
                    &&& *final(self) == (App {
                        tree: final(self).tree,
                        entries: final(self).entries,
                        file_dialog: final(self).file_dialog,
                        ..*old(self)
                    })
                    &&& final(self).tree@ == (TreeState {
                        root: f,
                        entries: root_rows(f, listing_view(files.listing@), files.filter),
                        selected: 0,
                        filter: files.filter,
                    })
                    &&& entries_anew(
                        *old(self),
                        marked_files(walk_view(files.walk@), walk_view(files.heeding_walk@)),
                        final(self).entries,
                    )
                    &&& lists_for(
                        App {
                            tree: final(self).tree,
                            entries: final(self).entries,
                            ..*old(self)
                        },
                        old(self).file_dialog.field(),
                        *final(self),
                    )
                },
                None => *final(self) == *old(self),
            },
            final(self).wf(),
    {
        if let Some(f) = self.browsed_folder() {
            self.tree = FileTree::new(f, &files.listing, files.filter);
            self.rebuild_dialog_entries(&files.walk, &files.heeding_walk);
            self.dialog_refilter();
        }
    }

    /// Tab: limit the dialog to the selected folder of the tree; while something
    /// is asked, tick the selected file and go on to the next.
    pub fn dialog_tab(&mut self) -> (r: BrowseStep)
        requires
            old(self).wf(),
        ensures
            tabs_in(*old(self), r, *final(self)),
            final(self).wf(),
    {
        if self.dialog_tree_mode() {
            self.dialog_scope_into()
        } else {
            self.dialog_toggle_check();
            self.dialog_down();
            reveal_with_fuel(row_steps, 2);
            BrowseStep::Nothing
        }
    }

    /// Shift+Tab: go out of the folder that the dialog is limited to; while
    /// something is asked, tick the selected file and go on to the one before.
    pub fn dialog_backtab(&mut self) -> (r: BrowseStep)
        requires
            old(self).wf(),
        ensures
            tabs_out(*old(self), r, *final(self)),
            final(self).wf(),
    {
        if self.dialog_tree_mode() {
            self.dialog_scope_pop()
        } else {
            self.dialog_toggle_check();
            self.dialog_up();
            reveal_with_fuel(row_steps, 2);
            BrowseStep::Nothing
        }
    }
}

/// Whether `b` is `a` after the selected file was ticked or unticked and the
/// selection went up or down.
pub open spec fn ticks(a: App, up: bool, b: App) -> bool {
    let d = a.file_dialog;
    let n = d.matches@.len() as int;
    &&& b == App { file_dialog: b.file_dialog, ..a }
    &&& b.file_dialog == FileDialog {
        checked: b.file_dialog.checked,
        selected: b.file_dialog.selected,
        ..d
    }
    &&& b.file_dialog.selected == row_step(d.selected as int, n, up)
    &&& b.file_dialog.checked@ == if d.selected < n && d.matches@[d.selected as int]
        < a.entries.paths@.len() {
        let src = d.matches@[d.selected as int];
        if d.checked@.contains(src) {
            d.checked@.remove(src)
        } else {
            d.checked@.insert(src)
        }
    } else {
        d.checked@
    }
}

/// Whether ticking or unticking the selected file makes `b` of `a`.
pub open spec fn toggles_tick(a: App, b: App) -> bool {
    let d = a.file_dialog;
    if d.selected < d.matches@.len() && d.matches@[d.selected as int] < a.entries.paths@.len() {
        let src = d.matches@[d.selected as int];
        &&& b == App { file_dialog: b.file_dialog, ..a }
        &&& b.file_dialog == FileDialog { checked: b.file_dialog.checked, ..d }
        &&& b.file_dialog.checked@ == if d.checked@.contains(src) {
            d.checked@.remove(src)
        } else {
            d.checked@.insert(src)
        }
    } else {
        b == a
    }
}

/// Whether opening what is selected makes `b` of `a` and leaves `r` to do.
pub open spec fn opens(a: App, r: BrowseStep, b: App) -> bool {
    if a.file_dialog.query@.len() == 0 {
        match a.tree@.current() {
            Some(e) => if !e.is_dir {
                b == a && (r matches BrowseStep::Open(v) && texts(v@) == seq![e.path])
            } else if a.tree@.can_open() {
                b == a && (r matches BrowseStep::Expand(p) && p@ == e.path)
            } else {
                &&& b == App { tree: b.tree, ..a }
                &&& b.tree@ == if a.tree@.can_close() {
                    a.tree@.closed(a.tree@.selected)
                } else {
                    a.tree@
                }
                &&& r is Nothing
            },
            None => b == a && r is Nothing,
        }
    } else if a.file_dialog.checked@.len() > 0 {
        &&& b.dialogs@ == dismissed(a.dialogs@, Dialog::Files)
        &&& if a.dialogs@.contains(Dialog::Files) {
            crate::app::dialogs::torn_down(a, b, set![Dialog::Files])
        } else {
            b == a
        }
        &&& r matches BrowseStep::Open(v) && texts(v@) == ticked_paths(
            texts(a.entries.paths@),
            a.file_dialog.checked@,
            a.entries.paths@.len() as int,
        )
    } else {
        &&& b == a
        &&& match a.pick() {
            Some((p, _)) => r matches BrowseStep::Open(v) && texts(v@) == seq![p],
            None => r is Nothing,
        }
    }
}

/// One more step.
proof fn lemma_steps(a: App, mid: App, b: App, up: bool, n: nat)
    requires
        steps(a, mid, up, n),
        steps(mid, b, up, 1),
    ensures
        steps(a, b, up, n + 1),
{
    reveal_with_fuel(row_steps, 2);
}

/// Whether copying the path of the entry that is picked makes `b` of `a`.
pub open spec fn copies_pick(a: App, relative_to_root: bool, b: App) -> bool {
    match a.pick() {
        Some((p, _)) => {
            &&& b == (App {
                clipboard_text: b.clipboard_text,
                clipboard_dirty: true,
                toast: b.toast,
                ..a
            })
            &&& b.clipboard_text@ == a.written_path(p, relative_to_root)
            &&& b.tells(
                if relative_to_root {
                    "Copied relative path"@
                } else {
                    "Copied path"@
                },
                ToastKind::Success,
            )
        },
        None => b == a,
    }
}

/// Whether closing a folder of the tree makes `b` of `a`.
pub open spec fn collapses(a: App, b: App) -> bool {
    &&& b == (App { tree: b.tree, ..a })
    &&& b.tree@ == if a.file_dialog.query@.len() == 0 && a.tree@.can_close() {
        a.tree@.closed(a.tree@.selected)
    } else {
        a.tree@
    }
}

/// Whether Tab in the file dialog makes `b` of `a`, and what is left to do.
pub open spec fn tabs_in(a: App, r: BrowseStep, b: App) -> bool {
    &&& a.file_dialog.query@.len() == 0 ==> match a.tree@.current() {
        Some(e) => if e.is_dir && !a.shows_folder(e.path) {
            &&& b == (App { scope: b.scope, ..a })
            &&& opt_text(b.scope) == Some(e.path)
            &&& r matches BrowseStep::Reroot(p) && p@ == e.path
        } else {
            b == a && r is Nothing
        },
        None => b == a && r is Nothing,
    }
    &&& a.file_dialog.query@.len() > 0 ==> ticks(a, false, b)
        && r is Nothing
}

/// Whether Shift+Tab in the file dialog makes `b` of `a`, and what is left to do.
pub open spec fn tabs_out(a: App, r: BrowseStep, b: App) -> bool {
    &&& a.file_dialog.query@.len() == 0 ==> if a.scope is None {
        b == a && r is Nothing
    } else {
        &&& b == (App { scope: b.scope, ..a })
        &&& opt_text(b.scope) == a.outer_scope()
        &&& match b.browsed() {
            Some(f) => r matches BrowseStep::Reroot(p) && p@ == f,
            None => r is Nothing,
        }
    }
    &&& a.file_dialog.query@.len() > 0 ==> ticks(a, true, b)
        && r is Nothing
}

} // verus!
