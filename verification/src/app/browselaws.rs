//! What the file dialog, the questions about files and the search do.

use crate::app::browsing::{opens, steps, tabs_in, tabs_out, ticked_paths, BrowseStep};
use crate::app::prompting::{asks_delete, asks_rename, TaskState};
use crate::app::searching::{asks, search_goes_down, search_goes_up};
use crate::app::App;
use crate::editline::Field;
use crate::filedialog::{row_above, row_below, texts};
use crate::find::matches_in;
use crate::lines::{col_of, line_of};
use crate::paths::{joined_path, leads_to, parent_path, same_path};
use crate::prompt::{PromptKind, PromptState};
use crate::search::{hit_at, hits_before, hits_of, FileHitsState, SearchState};
use crate::text::trim_text;
use vstd::prelude::*;

verus! {

/// Whether `to` is the row above `from` in a list of `n` rows, or the row below;
/// the list goes round.
pub open spec fn next_row(from: int, to: int, n: int, up: bool) -> bool {
    if up {
        to == from - 1 || (from == 0 && to == n - 1)
    } else {
        to == from + 1 || (from == n - 1 && to == 0)
    }
}

/// Up and Down in the file dialog go one row up and down, in the tree while nothing
/// is typed and in the list of matches else, and open nothing.
pub proof fn law_the_files_are_walked_row_by_row(a: App, b: App, up: bool)
    requires
        a.wf(),
        steps(a, b, up, 1),
    ensures
        b.tabs == a.tabs,
        a.file_dialog.query@.len() == 0 && a.tree@.entries.len() > 0 ==> next_row(
            a.tree@.selected,
            b.tree@.selected,
            a.tree@.entries.len() as int,
            up,
        ) && b.tree@.entries == a.tree@.entries && 0 <= b.tree@.selected < a.tree@.entries.len(),
        a.file_dialog.query@.len() > 0 && a.file_dialog.matches@.len() > 0 ==> next_row(
            a.file_dialog.selected as int,
            b.file_dialog.selected as int,
            a.file_dialog.matches@.len() as int,
            up,
        ) && b.file_dialog.matches == a.file_dialog.matches,
{
    reveal_with_fuel(crate::app::browsing::row_steps, 2);
}

/// The row above and the row below, going round.
pub proof fn law_rows_go_round(row: int, n: int)
    requires
        0 <= row < n,
    ensures
        next_row(row, row_above(row, n), n, true),
        next_row(row, row_below(row, n), n, false),
        0 <= row_above(row, n) < n,
        0 <= row_below(row, n) < n,
{
    if row + 1 < n {
        vstd::arithmetic::div_mod::lemma_small_mod((row + 1) as nat, n as nat);
    } else {
        vstd::arithmetic::div_mod::lemma_mod_self_0(n);
    }
}

/// Enter opens the file that is selected: in the tree a file, where a folder opens
/// or shuts instead; in the list of matches the selected one, or where some are
/// ticked exactly those.
pub proof fn law_enter_opens_what_is_selected(a: App, r: BrowseStep, b: App)
    requires
        a.wf(),
        opens(a, r, b),
    ensures
        a.file_dialog.query@.len() == 0 && a.tree@.current() is Some && !a.tree@.current()->0.is_dir
            ==> (r matches BrowseStep::Open(v) && texts(v@) == seq![a.tree@.current()->0.path]),
        a.file_dialog.query@.len() == 0 && a.tree@.current() is Some && a.tree@.current()->0.is_dir
            ==> !(r is Open),
        a.file_dialog.query@.len() > 0 && a.file_dialog.checked@.len() == 0
            && a.file_dialog.selected < a.file_dialog.matches@.len()
            && a.file_dialog.matches@[a.file_dialog.selected as int] < a.entries.paths@.len() ==> (
        r matches BrowseStep::Open(v) && texts(v@) == seq![
            a.entries.paths@[a.file_dialog.matches@[a.file_dialog.selected as int] as int]@,
        ]),
        a.file_dialog.query@.len() > 0 && a.file_dialog.checked@.len() > 0 ==> (r matches
            BrowseStep::Open(v) && (forall|i: int|
            0 <= i < a.entries.paths@.len() && #[trigger] a.file_dialog.checked@.contains(
                i as usize,
            ) ==> texts(v@).contains(a.entries.paths@[i]@)) && (forall|x: Seq<char>| #[trigger]
            texts(v@).contains(x) ==> exists|i: int|
                0 <= i < a.entries.paths@.len() && a.file_dialog.checked@.contains(i as usize) && #[trigger]
                a.entries.paths@[i]@ == x)),
        b.tabs == a.tabs,
{
    let paths = texts(a.entries.paths@);
    let n = paths.len() as int;
    if a.file_dialog.query@.len() > 0 && a.file_dialog.checked@.len() > 0 {
        let t = ticked_paths(paths, a.file_dialog.checked@, n);
        assert(n == a.entries.paths.len());
        lemma_ticked(paths, a.file_dialog.checked@, n);
        assert forall|i: int|
            0 <= i < a.entries.paths@.len() && #[trigger] a.file_dialog.checked@.contains(
                i as usize,
            ) implies t.contains(a.entries.paths@[i]@) by {
            assert(t.contains(paths[i]));
        }
        assert forall|x: Seq<char>| #[trigger] t.contains(x) implies exists|i: int|
            0 <= i < a.entries.paths@.len() && a.file_dialog.checked@.contains(i as usize) && #[trigger]
            a.entries.paths@[i]@ == x by {
            let i = choose|i: int|
                0 <= i < n && a.file_dialog.checked@.contains(i as usize) && #[trigger] paths[i]
                    == x;
            assert(a.entries.paths@[i]@ == x);
        }
    }
}

proof fn lemma_ticked(paths: Seq<Seq<char>>, ticked: Set<usize>, n: int)
    requires
        0 <= n <= paths.len() <= usize::MAX,
    ensures
        forall|i: int|
            0 <= i < n && #[trigger] ticked.contains(i as usize) ==> ticked_paths(
                paths,
                ticked,
                n,
            ).contains(paths[i]),
        forall|x: Seq<char>| #[trigger]
            ticked_paths(paths, ticked, n).contains(x) ==> exists|i: int|
                0 <= i < n && ticked.contains(i as usize) && #[trigger] paths[i] == x,
    decreases n,
{
    if n > 0 {
        lemma_ticked(paths, ticked, n - 1);
        let f = ticked_paths(paths, ticked, n - 1);
        let t = ticked_paths(paths, ticked, n);
        assert forall|i: int| 0 <= i < n && #[trigger] ticked.contains(i as usize) implies
            t.contains(paths[i]) by {
            if i < n - 1 {
                assert(f.contains(paths[i]));
                let k = choose|k: int| 0 <= k < f.len() && f[k] == paths[i];
                assert(t[k] == paths[i]);
            } else {
                assert(t[f.len() as int] == paths[i]);
            }
        }
        assert forall|x: Seq<char>| #[trigger] t.contains(x) implies exists|i: int|
            0 <= i < n && ticked.contains(i as usize) && #[trigger] paths[i] == x by {
            let k = choose|k: int| 0 <= k < t.len() && t[k] == x;
            if k < f.len() {
                assert(f[k] == x);
                assert(f.contains(x));
                let i = choose|i: int|
                    0 <= i < n - 1 && ticked.contains(i as usize) && #[trigger] paths[i] == x;
                assert(paths[i] == x);
            } else {
                assert(paths[n - 1] == x);
            }
        }
    }
}

/// Tab on a folder of the tree limits the dialog to that folder; Shift with Tab
/// goes to the folder around it, and no further out than the open folder. In the
/// list of matches they tick what is selected and go on.
pub proof fn law_tab_goes_into_a_folder_and_out(a: App, r: BrowseStep, b: App)
    requires
        a.wf(),
    ensures
        tabs_in(a, r, b) && a.file_dialog.query@.len() == 0 && a.tree@.current() is Some
            && a.tree@.current()->0.is_dir && !a.shows_folder(a.tree@.current()->0.path)
            ==> b.scope is Some && b.scope->0@ == a.tree@.current()->0.path && (r matches
            BrowseStep::Reroot(p) && p@ == a.tree@.current()->0.path),
        tabs_in(a, r, b) && a.file_dialog.query@.len() == 0 && a.tree@.current() is Some
            && !a.tree@.current()->0.is_dir ==> b == a,
        tabs_out(a, r, b) && a.file_dialog.query@.len() == 0 && a.scope is None ==> b == a,
        tabs_out(a, r, b) && a.file_dialog.query@.len() == 0 && a.scope is Some && b.scope is Some
            ==> a.root is Some && parent_path(a.scope->0@) == Some(b.scope->0@) && leads_to(
            a.root->0@,
            b.scope->0@,
        ),
        tabs_out(a, r, b) && a.file_dialog.query@.len() == 0 && a.scope is Some && a.root is Some
            && b.scope is None ==> (parent_path(a.scope->0@) matches Some(p) ==> same_path(
            p,
            a.root->0@,
        ) || !leads_to(a.root->0@, p)) && (r matches BrowseStep::Reroot(p) && p@ == a.root->0@),
        (tabs_in(a, r, b) || tabs_out(a, r, b)) && a.file_dialog.query@.len() > 0
            && a.file_dialog.selected < a.file_dialog.matches@.len() ==> ({
            let src = a.file_dialog.matches@[a.file_dialog.selected as int];
            src < a.entries.paths@.len() ==> b.file_dialog.checked@.contains(src)
                == !a.file_dialog.checked@.contains(src)
        }),
{
}

/// Confirming a question about files does what was asked: a file or a folder is
/// made in the folder it was asked for under the name that was typed, without
/// space around it; what is renamed stays in its folder; what is deleted is what
/// was asked about. Without a name nothing is done.
pub proof fn law_confirming_does_what_was_asked(p: PromptState)
    requires
        p.active,
    ensures
        ({
            let name = trim_text(p.input.text);
            &&& p.asks == Some(PromptKind::NewFile) && name.len() > 0 ==> p.task() == Some(
                TaskState::CreateFile { path: joined_path(p.target, name), name },
            )
            &&& p.asks == Some(PromptKind::NewFolder) && name.len() > 0 ==> p.task() == Some(
                TaskState::CreateFolder { path: joined_path(p.target, name), name },
            )
            &&& p.asks == Some(PromptKind::Rename) && name.len() > 0 ==> (p.task() matches Some(
                TaskState::Rename { from, to, name: n },
            ) && from == p.target && n == name && (parent_path(p.target) matches Some(d) ==> to
                == joined_path(d, name)))
            &&& p.asks == Some(PromptKind::Delete) ==> p.task() == Some(
                TaskState::Delete { path: p.target },
            )
            &&& p.asks != Some(PromptKind::Delete) && name.len() == 0 ==> p.task() is None
        }),
        !(PromptState { active: false, ..p }.task() is Some),
{
}

/// The question about deleting or renaming is about what is selected, and never
/// about the open folder itself.
pub proof fn law_the_open_folder_is_not_deleted(a: App, b: App)
    requires
        asks_delete(a, b) || asks_rename(a, b),
        a.pick() is Some,
    ensures
        ({
            let (path, _) = a.pick()->0;
            let whole = a.root is Some && same_path(a.root->0@, path);
            &&& whole ==> b.prompt == a.prompt
            &&& !whole ==> b.prompt@.target == path && b.prompt@.active && (asks_delete(a, b)
                ==> b.prompt@.asks == Some(PromptKind::Delete)) && (b.prompt@.asks == Some(
                PromptKind::Delete,
            ) || b.prompt@.asks == Some(PromptKind::Rename))
        }),
        b.tabs == a.tabs,
{
}

proof fn lemma_hit_at(r: Seq<FileHitsState>, k: int, i: int)
    requires
        0 <= i <= r.len(),
        0 <= k,
    ensures
        match hit_at(r, k, i) {
            Some((f, h)) => i <= f < r.len() && 0 <= h < r[f].hits.len() && hits_before(r, f)
                - hits_before(r, i) + h == k,
            None => k + hits_before(r, i) >= hits_before(r, r.len() as int),
        },
    decreases r.len() - i,
{
    if i < r.len() && k >= r[i].hits.len() {
        lemma_hit_at(r, k - r[i].hits.len(), i + 1);
    }
}

/// The selected place is found by counting the places file by file from the top;
/// there is none only past the last.
pub proof fn law_results_are_counted_from_the_top(s: SearchState)
    requires
        0 <= s.selected,
    ensures
        match s.picked() {
            Some((f, h)) => 0 <= f < s.results.len() && 0 <= h < s.results[f].hits.len()
                && hits_before(s.results, f) + h == s.selected,
            None => s.selected >= s.total(),
        },
{
    lemma_hit_at(s.results, s.selected, 0);
}

/// Up and Down in the results go one place up and down and stop at the ends.
pub proof fn law_results_are_walked_one_by_one(a: App, b: App)
    requires
        0 <= a.search@.selected,
        a.search@.total() < usize::MAX,
    ensures
        search_goes_up(a, b) ==> b.search@.results == a.search@.results && (b.search@.selected
            == a.search@.selected - 1 || (a.search@.selected == 0 && b.search@.selected == 0)),
        search_goes_down(a, b) ==> b.search@.results == a.search@.results && (
        a.search@.selected + 1 < a.search@.total() ==> b.search@.selected == a.search@.selected + 1)
            && (a.search@.selected + 1 >= a.search@.total() ==> b.search@.selected
            == a.search@.selected),
{
}

/// A search starts a quarter of a second after the query was last changed, and not
/// at all while nothing is asked; what was found for another query is gone at once.
pub proof fn law_a_search_waits_for_the_query_to_rest(a: App, q: Field, b: App)
    requires
        asks(a, q, b),
        a.now < u64::MAX - 1000,
    ensures
        b.search@.query.text == q.text,
        b.search@.results.len() == 0,
        !b.search@.searched,
        q.text.len() == 0 ==> b.search@.pending is None,
        q.text.len() > 0 ==> b.search@.pending == Some((a.now + 250) as u64),
{
}

/// Each place found is a match of the query: on the line and from the column where
/// it starts to the column where it ends.
pub proof fn law_results_are_the_matches(text: Seq<char>, query: Seq<char>)
    ensures
        hits_of(text, query).len() == matches_in(text, query).len(),
        forall|i: int|
            0 <= i < hits_of(text, query).len() ==> ({
                let h = #[trigger] hits_of(text, query)[i];
                let m = matches_in(text, query)[i];
                &&& h.0 == line_of(text, m.0)
                &&& h.1 == col_of(text, m.0)
                &&& h.2 - h.1 == m.1 - m.0
            }),
{
}

} // verus!
