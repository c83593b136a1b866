//! The row of embedded terminals and the quick switcher between them.

use crate::buffer::opt_text;
use crate::filedialog::{all_searchable, fuzzy_score, texts};
use crate::fuzzy::{item_match, prepared_of, Match};
use crate::paths::{base_name, file_name};
use crate::ranking::{comes_before, distinct_indices, sort_ranks, Rank};
use crate::steps::{step, stepped};
use crate::strings::same_text;
use crate::text::{decimal, decimal_text, digit_char};
use vstd::prelude::*;
use vstd::string::*;

verus! {

/// The most terminals that can be open at once.
pub const MAX_TERMINALS: usize = 20;

/// A terminal, as far as decisions depend on it.
#[derive(Debug)]
pub struct Terminal {
    /// Which terminal this is.
    pub id: u64,
    /// What its tab is called.
    pub name: String,
    /// A command is running.
    pub running: bool,
    /// Copy mode is on.
    pub copy_mode: bool,
    /// A full-screen program owns the screen.
    pub alternate_screen: bool,
    /// The program wants to hear of the mouse.
    pub wants_mouse: bool,
    /// The program wants to hear of the mouse's movement too.
    pub wants_motion: bool,
}

/// A terminal as a mathematical value.
#[verifier::ext_equal]
pub struct TerminalState {
    pub id: u64,
    pub name: Seq<char>,
    pub running: bool,
    pub copy_mode: bool,
    pub alternate_screen: bool,
    pub wants_mouse: bool,
    pub wants_motion: bool,
}

impl View for Terminal {
    type V = TerminalState;

    open spec fn view(&self) -> TerminalState {
        TerminalState {
            id: self.id,
            name: self.name@,
            running: self.running,
            copy_mode: self.copy_mode,
            alternate_screen: self.alternate_screen,
            wants_mouse: self.wants_mouse,
            wants_motion: self.wants_motion,
        }
    }
}

/// The terminals of a list.
pub open spec fn terminals_view(v: Seq<Terminal>) -> Seq<TerminalState> {
    Seq::new(v.len(), |i: int| v[i]@)
}

/// The row of terminals.
#[derive(Debug)]
pub struct Terminals {
    pub list: Vec<Terminal>,
    pub active: usize,
    /// The dialog of the terminals is showing.
    pub modal: bool,
    /// All terminals show at once.
    pub grid: bool,
}

/// The row of terminals as a mathematical value.
#[verifier::ext_equal]
pub struct TerminalsState {
    pub list: Seq<TerminalState>,
    pub active: int,
    pub modal: bool,
    pub grid: bool,
}

impl View for Terminals {
    type V = TerminalsState;

    open spec fn view(&self) -> TerminalsState {
        TerminalsState {
            list: terminals_view(self.list@),
            active: self.active as int,
            modal: self.modal,
            grid: self.grid,
        }
    }
}

/// `s` with the items at `i` and `j` swapped.
pub open spec fn swapped<T>(s: Seq<T>, i: int, j: int) -> Seq<T> {
    s.update(i, s[j]).update(j, s[i])
}

impl TerminalsState {
    /// A terminal is active, where there is one, and there are not too many.
    pub open spec fn wf(self) -> bool {
        &&& self.list.len() <= MAX_TERMINALS
        &&& 0 <= self.active
        &&& self.list.len() > 0 ==> self.active < self.list.len()
        &&& self.list.len() == 0 ==> self.active == 0
    }

    /// No terminal.
    pub open spec fn none() -> TerminalsState {
        TerminalsState { list: Seq::empty(), active: 0, modal: false, grid: false }
    }

    /// The active terminal.
    pub open spec fn current(self) -> Option<TerminalState> {
        if 0 <= self.active < self.list.len() {
            Some(self.list[self.active])
        } else {
            None
        }
    }

    /// With the active terminal in copy mode, or out of it.
    pub open spec fn with_copy_mode(self, on: bool) -> TerminalsState {
        match self.current() {
            Some(t) => TerminalsState {
                list: self.list.update(self.active, TerminalState { copy_mode: on, ..t }),
                ..self
            },
            None => self,
        }
    }

    /// A new terminal beside the active one, which becomes the active one.
    pub open spec fn spawned(self, t: TerminalState) -> TerminalsState {
        let at = if self.list.len() == 0 {
            0
        } else {
            self.active + 1
        };
        TerminalsState { list: self.list.insert(at, t), active: at, modal: true, ..self }
    }

    /// The active terminal one place further left.
    pub open spec fn moved_left(self) -> TerminalsState {
        if 0 < self.active < self.list.len() {
            TerminalsState {
                list: swapped(self.list, self.active, self.active - 1),
                active: self.active - 1,
                ..self
            }
        } else {
            self
        }
    }

    /// The active terminal one place further right.
    pub open spec fn moved_right(self) -> TerminalsState {
        if self.active + 1 < self.list.len() {
            TerminalsState {
                list: swapped(self.list, self.active, self.active + 1),
                active: self.active + 1,
                ..self
            }
        } else {
            self
        }
    }

    /// The terminal at `from` moved to `to`, and active.
    pub open spec fn reordered(self, from: int, to: int) -> TerminalsState {
        if from == to || !(0 <= from < self.list.len()) || !(0 <= to < self.list.len()) {
            self
        } else {
            TerminalsState {
                list: self.list.remove(from).insert(to, self.list[from]),
                active: to,
                ..self
            }
        }
    }

    /// The active terminal gone.
    pub open spec fn closed(self) -> TerminalsState {
        let list = self.list.remove(self.active);
        if self.list.len() == 0 {
            self
        } else if list.len() == 0 {
            TerminalsState { list, active: 0, modal: false, ..self }
        } else {
            TerminalsState {
                list,
                active: if self.active < list.len() {
                    self.active
                } else {
                    list.len() - 1
                },
                ..self
            }
        }
    }

    /// Another terminal active, `delta` places on and going round.
    pub open spec fn turned(self, delta: int) -> TerminalsState {
        if self.list.len() == 0 {
            self
        } else {
            TerminalsState {
                active: stepped(self.active, delta, self.list.len() as int),
                ..self
            }
        }
    }

    /// The `n`th terminal active, counting from one; nothing past the last.
    pub open spec fn jumped(self, n: int) -> TerminalsState {
        if 1 <= n <= self.list.len() {
            TerminalsState { active: n - 1, ..self }
        } else {
            self
        }
    }

    /// The names of the terminals.
    pub open spec fn names(self) -> Seq<Seq<char>> {
        Seq::new(self.list.len(), |i: int| self.list[i].name)
    }
}

/// How often `x` occurs in the first `n` items.
pub open spec fn times(s: Seq<Seq<char>>, x: Seq<char>, n: int) -> nat
    decreases n,
{
    if n <= 0 {
        0
    } else {
        times(s, x, n - 1) + if s[n - 1] == x {
            1nat
        } else {
            0nat
        }
    }
}

/// The label of a name: the name, with a number from its second occurrence on.
pub open spec fn label_at(names: Seq<Seq<char>>, i: int) -> Seq<char> {
    let c = times(names, names[i], i + 1);
    if c == 1 {
        names[i]
    } else {
        names[i].push(' ') + decimal(c)
    }
}

/// The labels of names.
pub open spec fn labels_of(names: Seq<Seq<char>>) -> Seq<Seq<char>> {
    Seq::new(names.len(), |i: int| label_at(names, i))
}

/// What a terminal in the folder `cwd` is called: the folder's name, or "shell".
pub open spec fn shell_name(cwd: Seq<char>) -> Seq<char> {
    match base_name(cwd) {
        Some(n) => n,
        None => "shell"@,
    }
}

/// What a terminal in the folder `root` is called.
pub fn folder_name(root: &str) -> (r: String)
    ensures
        r@ == shell_name(root@),
{
    match file_name(root) {
        Some(n) => n,
        None => "shell".to_owned(),
    }
}

/// The folder that a new terminal starts in: that of the active one, else that
/// of the last one that was started, else the project, else the home folder.
pub fn terminal_cwd(
    current: Option<String>,
    last: Option<String>,
    root: Option<String>,
    home: Option<String>,
) -> (r: String)
    ensures
        r@ == match (opt_text(current), opt_text(last), opt_text(root), opt_text(home)) {
            (Some(c), _, _, _) => c,
            (None, Some(l), _, _) => l,
            (None, None, Some(p), _) => p,
            (None, None, None, Some(h)) => h,
            _ => "."@,
        },
{
    if let Some(c) = current {
        return c;
    }
    if let Some(l) = last {
        return l;
    }
    if let Some(p) = root {
        return p;
    }
    if let Some(h) = home {
        return h;
    }
    ".".to_owned()
}

impl Default for Terminals {
    fn default() -> (r: Terminals)
        ensures
            r@ == TerminalsState::none(),
            r@.wf(),
    {
        let r = Terminals { list: Vec::new(), active: 0, modal: false, grid: false };
        assert(r@.list =~= Seq::empty());
        r
    }
}

impl Terminals {
    /// Put a new terminal beside the active one and make it the active one,
    /// unless there are too many; says whether there are not.
    pub fn new_terminal(&mut self, t: Terminal) -> (r: bool)
        requires
            old(self)@.wf(),
        ensures
            r == (old(self)@.list.len() < MAX_TERMINALS),
            final(self)@ == if r {
                old(self)@.spawned(t@)
            } else {
                old(self)@
            },
            final(self)@.wf(),
    {
        if self.list.len() >= MAX_TERMINALS {
            return false;
        }
        let at: usize = if self.list.len() == 0 {
            0
        } else {
            self.active + 1
        };
        let ghost s = self@;
        let ghost tv = t@;
        self.list.insert(at, t);
        self.active = at;
        self.modal = true;
        assert(self@.list =~= s.list.insert(at as int, tv));
        true
    }

    /// Swap the terminals at `i` and `i + 1`.
    fn swap_with_next(&mut self, i: usize)
        requires
            i + 1 < old(self)@.list.len() <= MAX_TERMINALS,
        ensures
            final(self)@ == (TerminalsState {
                list: swapped(old(self)@.list, i as int, i + 1),
                ..old(self)@
            }),
    {
        let ghost s = self@;
        let t = self.list.remove(i);
        self.list.insert(i + 1, t);
        assert(self@.list =~= swapped(s.list, i as int, i + 1));
    }

    /// Move the active terminal one place to the left.
    pub fn move_terminal_left(&mut self)
        requires
            old(self)@.wf(),
        ensures
            final(self)@ == old(self)@.moved_left(),
            final(self)@.wf(),
    {
        let i: usize = self.active;
        if i > 0 && i < self.list.len() {
            let ghost s = self@;
            self.swap_with_next(i - 1);
            self.active = i - 1;
            assert(self@.list =~= swapped(s.list, i as int, i - 1));
        }
    }

    /// Move the active terminal one place to the right.
    pub fn move_terminal_right(&mut self)
        requires
            old(self)@.wf(),
        ensures
            final(self)@ == old(self)@.moved_right(),
            final(self)@.wf(),
    {
        let i: usize = self.active;
        if i + 1 < self.list.len() {
            self.swap_with_next(i);
            self.active = i + 1;
        }
    }

    /// Move the terminal at `from` to `to` and make it the active one.
    pub fn reorder_terminal_tab(&mut self, from: usize, to: usize)
        requires
            old(self)@.wf(),
        ensures
            final(self)@ == old(self)@.reordered(from as int, to as int),
            final(self)@.wf(),
    {
        if from == to || from >= self.list.len() || to >= self.list.len() {
            return;
        }
        let ghost s = self@;
        let t = self.list.remove(from);
        self.list.insert(to, t);
        self.active = to;
        assert(self@.list =~= s.list.remove(from as int).insert(to as int, s.list[from as int]));
    }

    /// Close the active terminal; says whether it was the last one.
    pub fn close_terminal(&mut self) -> (r: bool)
        requires
            old(self)@.wf(),
        ensures
            final(self)@ == old(self)@.closed(),
            r == (old(self)@.list.len() == 1),
            final(self)@.wf(),
    {
        if self.list.len() == 0 {
            return false;
        }
        let ghost s = self@;
        let i: usize = self.active;
        self.list.remove(i);
        assert(self@.list =~= s.list.remove(i as int));
        if self.list.len() == 0 {
            self.active = 0;
            self.modal = false;
            return true;
        }
        if i >= self.list.len() {
            self.active = self.list.len() - 1;
        }
        false
    }

    pub fn next_terminal(&mut self)
        requires
            old(self)@.wf(),
        ensures
            final(self)@ == old(self)@.turned(1),
            final(self)@.wf(),
    {
        if self.list.len() > 0 {
            self.active = step(self.active, 1, self.list.len());
        }
    }

    pub fn prev_terminal(&mut self)
        requires
            old(self)@.wf(),
        ensures
            final(self)@ == old(self)@.turned(-1),
            final(self)@.wf(),
    {
        if self.list.len() > 0 {
            self.active = step(self.active, -1, self.list.len());
        }
    }

    /// Go to the `n`th terminal, counting from one.
    pub fn jump_to_terminal(&mut self, n: usize)
        requires
            old(self)@.wf(),
        ensures
            final(self)@ == old(self)@.jumped(n as int),
            final(self)@.wf(),
    {
        if n >= 1 && n <= self.list.len() {
            self.active = n - 1;
        }
    }

    /// Put the active terminal into copy mode, or take it out.
    pub fn set_copy_mode(&mut self, on: bool)
        requires
            old(self)@.wf(),
        ensures
            final(self)@ == old(self)@.with_copy_mode(on),
            final(self)@.wf(),
    {
        let i: usize = self.active;
        if i < self.list.len() {
            let ghost s = self@;
            let t = &mut self.list[i];
            t.copy_mode = on;
            assert(self@.list =~= s.with_copy_mode(on).list);
        }
    }

    /// Show all terminals at once, or one.
    pub fn toggle_terminal_grid(&mut self)
        ensures
            final(self)@ == (TerminalsState { grid: !old(self)@.grid, ..old(self)@ }),
    {
        self.grid = !self.grid;
    }

    /// Whether the active terminal is in copy mode.
    pub fn terminal_copy_mode(&self) -> (r: bool)
        ensures
            r == (self@.current() matches Some(t) && t.copy_mode),
    {
        self.active < self.list.len() && self.list[self.active].copy_mode
    }

    /// Whether the program in the active terminal wants to hear of the mouse.
    pub fn terminal_wants_mouse(&self) -> (r: bool)
        ensures
            r == (self@.current() matches Some(t) && t.wants_mouse),
    {
        self.active < self.list.len() && self.list[self.active].wants_mouse
    }

    /// The labels of the terminals: where a name occurs again, it is numbered.
    pub fn terminal_labels(&self) -> (r: Vec<String>)
        ensures
            texts(r@) == labels_of(self@.names()),
    {
        let ghost names = self@.names();
        let mut r: Vec<String> = Vec::new();
        let mut i: usize = 0;
        while i < self.list.len()
            invariant
                i <= self.list@.len(),
                names == self@.names(),
                names.len() == self.list@.len(),
                r@.len() == i,
                forall|k: int| 0 <= k < i ==> (#[trigger] r@[k])@ == label_at(names, k),
            decreases self.list.len() - i,
        {
            let name = self.list[i].name.as_str();
            let mut c: usize = 1;
            let mut j: usize = 0;
            while j < i
                invariant
                    j <= i < self.list.len(),
                    names == self@.names(),
                    names.len() == self.list@.len(),
                    name@ == names[i as int],
                    c == times(names, name@, j as int) + 1,
                    c <= j + 1,
                decreases i - j,
            {
                if same_text(self.list[j].name.as_str(), name) {
                    c = c + 1;
                }
                j = j + 1;
            }
            let mut label = self.list[i].name.clone();
            if c > 1 {
                let number = decimal_text(c);
                label.push(' ');
                label.append(number.as_str());
            }
            r.push(label);
            i = i + 1;
        }
        assert(texts(r@) =~= labels_of(names));
        r
    }
}

/// The quick switcher between terminals.
#[derive(Debug)]
pub struct TerminalPicker {
    pub query: String,
    /// The terminals that match, the best first.
    pub matches: Vec<usize>,
    pub selected: usize,
}

/// What a label is worth to a query.
pub open spec fn label_match(query: Seq<char>, label: Seq<char>) -> Option<Match> {
    if query.len() == 0 {
        Some(Match { score: 0, covered: Set::empty(), label: true })
    } else {
        item_match(label, prepared_of(label), query, false)
    }
}

/// Whether label `i` matches.
pub open spec fn matching(labels: Seq<Seq<char>>, query: Seq<char>, i: int) -> bool {
    0 <= i < labels.len() && label_match(query, labels[i]) is Some
}

/// Whether label `a` is listed before label `b`: by score, and where that is
/// the same, in the order of the tabs.
pub open spec fn listed_before(
    labels: Seq<Seq<char>>,
    query: Seq<char>,
    a: int,
    b: int,
) -> bool {
    let x = label_match(query, labels[a])->0.score;
    let y = label_match(query, labels[b])->0.score;
    x > y || x == y && a < b
}

/// What the switcher lists: every label that matches, once and in order.
pub open spec fn picker_lists(
    matches: Seq<usize>,
    labels: Seq<Seq<char>>,
    query: Seq<char>,
) -> bool {
    &&& forall|i: int|
        matching(labels, query, i) <==> 0 <= i <= usize::MAX && #[trigger] matches.contains(
            i as usize,
        )
    &&& forall|a: int, b: int|
        0 <= a < b < matches.len() ==> listed_before(
            labels,
            query,
            #[trigger] matches[a] as int,
            #[trigger] matches[b] as int,
        )
}

spec fn rank_at(labels: Seq<Seq<char>>, query: Seq<char>, i: int) -> Rank {
    Rank { score: label_match(query, labels[i])->0.score as i64, len: 0, index: i as usize }
}

impl Default for TerminalPicker {
    fn default() -> (r: TerminalPicker)
        ensures
            r.query@.len() == 0,
            r.matches@.len() == 0,
            r.selected == 0,
    {
        TerminalPicker { query: String::new(), matches: Vec::new(), selected: 0 }
    }
}

impl TerminalPicker {
    /// The selected row is one of those listed.
    pub open spec fn wf(self) -> bool {
        self.matches@.len() > 0 ==> self.selected < self.matches@.len()
    }

    /// List the labels that match the query, the best first. An empty query
    /// lists every terminal in the order of the tabs.
    pub fn terminal_picker_refilter(&mut self, labels: &Vec<String>)
        requires
            all_searchable(texts(labels@), old(self).query@),
        ensures
            picker_lists(final(self).matches@, texts(labels@), old(self).query@),
            final(self).selected == 0,
            final(self).query == old(self).query,
            final(self).wf(),
    {
        let ghost all = texts(labels@);
        let ghost q = self.query@;
        let mut ranks: Vec<Rank> = Vec::new();
        let mut i: usize = 0;
        while i < labels.len()
            invariant
                i <= labels@.len(),
                all == texts(labels@),
                q == self.query@,
                self.query == old(self).query,
                all_searchable(all, q),
                forall|k: int|
                    0 <= k < ranks@.len() ==> {
                        let r = #[trigger] ranks@[k];
                        r.index < i && matching(all, q, r.index as int) && r == rank_at(
                            all,
                            q,
                            r.index as int,
                        ) && 0 <= label_match(q, all[r.index as int])->0.score
                            < 0x4000_0000_0000_0000
                    },
                forall|k: int|
                    0 <= k < i && matching(all, q, k) ==> ranks@.contains(
                        #[trigger] rank_at(all, q, k),
                    ),
                distinct_indices(ranks@),
            decreases labels.len() - i,
        {
            assert(all[i as int] == labels@[i as int]@);
            let ghost before = ranks@;
            if let Some((score, _)) = fuzzy_score(self.query.as_str(), labels[i].as_str()) {
                ranks.push(Rank { score, len: 0, index: i });
                proof {
                    assert(ranks@[before.len() as int] == rank_at(all, q, i as int));
                    assert forall|k: int| 0 <= k < i + 1 && matching(all, q, k) implies ranks@.contains(
                        #[trigger] rank_at(all, q, k),
                    ) by {
                        if k < i {
                            let w = before.index_of(rank_at(all, q, k));
                            assert(ranks@[w] == rank_at(all, q, k));
                        }
                    }
                }
            }
            i = i + 1;
        }
        let n: usize = ranks.len();
        let order = sort_ranks(&ranks, 0, n);
        assert(ranks@.subrange(0, n as int) =~= ranks@);
        let mut out: Vec<usize> = Vec::new();
        let mut j: usize = 0;
        while j < order.len()
            invariant
                j <= order@.len(),
                out@.len() == j,
                forall|k: int| 0 <= k < j ==> #[trigger] out@[k] == order@[k].index,
            decreases order.len() - j,
        {
            out.push(order[j].index);
            j = j + 1;
        }
        proof {
            assert forall|k: int| 0 <= k < order@.len() implies ranks@.contains(
                #[trigger] order@[k],
            ) by {
                assert(order@.contains(order@[k]));
            }
            assert forall|x: int|
                matching(all, q, x) <==> 0 <= x <= usize::MAX && #[trigger] out@.contains(
                    x as usize,
                ) by {
                if matching(all, q, x) {
                    assert(ranks@.contains(rank_at(all, q, x)));
                    assert(order@.contains(rank_at(all, q, x)));
                    let k = order@.index_of(rank_at(all, q, x));
                    assert(out@[k] == x);
                }
                if 0 <= x <= usize::MAX && out@.contains(x as usize) {
                    let k = out@.index_of(x as usize);
                    assert(ranks@.contains(order@[k]));
                    let w = ranks@.index_of(order@[k]);
                    assert(ranks@[w].index == x);
                }
            }
            assert forall|a: int, b: int| 0 <= a < b < out@.len() implies listed_before(
                all,
                q,
                #[trigger] out@[a] as int,
                #[trigger] out@[b] as int,
            ) by {
                assert(comes_before(order@[a], order@[b]));
                let w = ranks@.index_of(order@[a]);
                let v = ranks@.index_of(order@[b]);
                assert(ranks@[w] == order@[a] && ranks@[v] == order@[b]);
            }
        }
        self.matches = out;
        self.selected = 0;
    }

    /// Move the selection, going round.
    pub fn terminal_picker_move(&mut self, delta: i32)
        requires
            old(self).wf(),
        ensures
            final(self).selected == if old(self).matches@.len() == 0 {
                old(self).selected as int
            } else {
                stepped(
                    old(self).selected as int,
                    delta as int,
                    old(self).matches@.len() as int,
                )
            },
            final(self).query == old(self).query,
            final(self).matches == old(self).matches,
            final(self).wf(),
    {
        let n: usize = self.matches.len();
        if n == 0 {
            return;
        }
        self.selected = step(self.selected, delta, n);
    }

    /// The terminal that is selected.
    pub fn picked_terminal(&self) -> (r: Option<usize>)
        ensures
            r == if self.selected < self.matches@.len() {
                Some(self.matches@[self.selected as int])
            } else {
                None
            },
    {
        if self.selected < self.matches.len() {
            Some(self.matches[self.selected])
        } else {
            None
        }
    }
}

proof fn lemma_decimal_injective(a: nat, b: nat)
    requires
        decimal(a) == decimal(b),
    ensures
        a == b,
    decreases a,
{
    reveal_with_fuel(decimal, 2);
    assert(decimal(a).last() == digit_char(a % 10));
    assert(decimal(b).last() == digit_char(b % 10));
    assert(decimal(a / 10).len() >= 1) by {
        reveal_with_fuel(decimal, 2);
    }
    assert(decimal(b / 10).len() >= 1) by {
        reveal_with_fuel(decimal, 2);
    }
    if a >= 10 && b >= 10 {
        assert(decimal(a).drop_last() =~= decimal(a / 10));
        assert(decimal(b).drop_last() =~= decimal(b / 10));
        lemma_decimal_injective(a / 10, b / 10);
    }
}

proof fn lemma_times_grow(s: Seq<Seq<char>>, x: Seq<char>, i: int, j: int)
    requires
        0 <= i < j <= s.len(),
        s[j - 1] == x,
    ensures
        times(s, x, i) < times(s, x, j),
    decreases j,
{
    lemma_times_monotone(s, x, i, j - 1);
}

proof fn lemma_times_monotone(s: Seq<Seq<char>>, x: Seq<char>, i: int, j: int)
    requires
        0 <= i <= j <= s.len(),
    ensures
        times(s, x, i) <= times(s, x, j),
    decreases j,
{
    if i < j {
        lemma_times_monotone(s, x, i, j - 1);
    }
}

/// Terminals with the same name have different labels.
pub proof fn law_same_names_are_told_apart(names: Seq<Seq<char>>, i: int, j: int)
    requires
        0 <= i < j < names.len(),
        names[i] == names[j],
    ensures
        labels_of(names)[i] != labels_of(names)[j],
{
    let x = names[i];
    let ci = times(names, x, i + 1);
    let cj = times(names, x, j + 1);
    lemma_times_grow(names, x, i + 1, j + 1);
    lemma_times_grow(names, x, i, i + 1);
    let li = label_at(names, i);
    let lj = label_at(names, j);
    if li == lj {
        assert(lj.skip(x.len() as int + 1) =~= decimal(cj));
        if ci == 1 {
            assert(lj.len() > x.len());
        } else {
            assert(li.skip(x.len() as int + 1) =~= decimal(ci));
            lemma_decimal_injective(ci, cj);
        }
    }
}

/// Moving a terminal and moving it back leaves the row as it was.
pub proof fn law_moves_revert(s: TerminalsState)
    requires
        s.wf(),
    ensures
        0 < s.active < s.list.len() ==> s.moved_left().moved_right() == s,
        s.active + 1 < s.list.len() ==> s.moved_right().moved_left() == s,
{
    if 0 < s.active < s.list.len() {
        assert(s.moved_left().moved_right().list =~= s.list);
    }
    if s.active + 1 < s.list.len() {
        assert(s.moved_right().moved_left().list =~= s.list);
    }
}

/// Moving, reordering, turning and jumping keep the same terminals, and the
/// terminal that moves stays the active one.
pub proof fn law_moving_keeps_the_terminals(s: TerminalsState, from: int, to: int)
    requires
        s.wf(),
    ensures
        s.moved_left().list.to_multiset() == s.list.to_multiset(),
        s.moved_left().current() == s.current(),
        s.moved_right().list.to_multiset() == s.list.to_multiset(),
        s.moved_right().current() == s.current(),
        s.reordered(from, to).list.to_multiset() == s.list.to_multiset(),
        0 <= from < s.list.len() && 0 <= to < s.list.len() && from != to ==> s.reordered(
            from,
            to,
        ).current() == Some(s.list[from]),
{
    broadcast use vstd::seq_lib::group_to_multiset_ensures;

    if 0 < s.active < s.list.len() {
        lemma_swap_multiset(s.list, s.active, s.active - 1);
    }
    if s.active + 1 < s.list.len() {
        lemma_swap_multiset(s.list, s.active, s.active + 1);
    }
    if from != to && 0 <= from < s.list.len() && 0 <= to < s.list.len() {
        let r = s.list.remove(from);
        assert(r.insert(to, s.list[from]).to_multiset() =~= s.list.to_multiset());
    }
}

/// Swapping two items keeps the items.
pub proof fn lemma_swap_multiset<T>(s: Seq<T>, i: int, j: int)
    requires
        0 <= i < s.len(),
        0 <= j < s.len(),
    ensures
        swapped(s, i, j).to_multiset() == s.to_multiset(),
{
    broadcast use vstd::seq_lib::group_to_multiset_ensures;

    let a = s[i];
    let b = s[j];
    let m = s.update(i, b);
    assert(m.to_multiset() =~= s.to_multiset().remove(a).insert(b));
    assert(m.update(j, a).to_multiset() =~= m.to_multiset().remove(m[j]).insert(a));
}

/// Anything can be searched for nothing.
pub proof fn lemma_empty_query(labels: Seq<Seq<char>>)
    ensures
        all_searchable(labels, Seq::empty()),
{
}

/// The first terminal of a name is labelled with it, and the others with it and
/// their number among those of the name, counting from the left.
pub proof fn law_labels_count_from_the_left(names: Seq<Seq<char>>, i: int)
    requires
        0 <= i < names.len(),
    ensures
        (forall|k: int| 0 <= k < i ==> #[trigger] names[k] != names[i]) ==> labels_of(names)[i]
            == names[i],
        (exists|k: int| 0 <= k < i && #[trigger] names[k] == names[i]) ==> labels_of(names)[i]
            == names[i] + seq![' '] + decimal(times(names, names[i], i + 1)),
        times(names, names[i], i + 1) == times(names, names[i], i) + 1,
{
    lemma_counted(names, names[i], i);
    let c = times(names, names[i], i + 1);
    assert(names[i].push(' ') + decimal(c) =~= names[i] + seq![' '] + decimal(c));
}

proof fn lemma_counted(s: Seq<Seq<char>>, x: Seq<char>, n: int)
    requires
        0 <= n <= s.len(),
    ensures
        (times(s, x, n) == 0) == forall|k: int| 0 <= k < n ==> #[trigger] s[k] != x,
    decreases n,
{
    if n > 0 {
        lemma_counted(s, x, n - 1);
        if times(s, x, n) == 0 {
            assert(s[n - 1] != x);
        }
    }
}

/// In the list of terminals a better match comes first, and of two that match alike
/// the one further left.
pub proof fn law_better_labels_come_first(
    matches: Seq<usize>,
    labels: Seq<Seq<char>>,
    query: Seq<char>,
    a: int,
    b: int,
)
    requires
        picker_lists(matches, labels, query),
        0 <= a < b < matches.len(),
    ensures
        ({
            let x = label_match(query, labels[matches[a] as int])->0.score;
            let y = label_match(query, labels[matches[b] as int])->0.score;
            x >= y && (x == y ==> matches[a] < matches[b])
        }),
{
    assert(listed_before(labels, query, matches[a] as int, matches[b] as int));
}

/// There are never more than twenty terminals.
pub proof fn law_twenty_terminals_at_most(s: TerminalsState)
    requires
        s.wf(),
    ensures
        s.list.len() <= 20,
{
}

} // verus!
