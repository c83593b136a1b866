//! The open files, one tab each, and what is remembered of files that were
//! open before.

use crate::buffer::state::{BufferState, DiskMeta};
use crate::buffer::{opt_int, opt_text, Buffer};
use crate::clock::{elapsed, since, WHEEL_GRACE};
use crate::filedialog::texts;
use crate::steps::{law_steps_revert, step, stepped};
use crate::fstree::collect::chars_view;
use crate::paths::{distinct_paths, holds_path, is_same_path, same_parts, same_path};
use crate::strings::chars_of;
use crate::terminals::{lemma_swap_multiset, swapped};
use vstd::prelude::*;
use vstd::string::*;

verus! {

/// How many recently used files are remembered.
pub const RECENT_CAP: usize = 64;

/// How many closed tabs are remembered.
pub const CLOSED_CAP: usize = 32;

/// The open files.
pub struct Tabs {
    pub editors: Vec<Buffer>,
    /// The tab that is showing.
    pub active: Option<usize>,
    /// The files that were used last, the most recent first.
    pub recent_files: Vec<String>,
    /// The files whose tabs were closed, the most recent last.
    pub closed: Vec<String>,
    /// The open files changed since they were last noted.
    pub session_dirty: bool,
    /// The number that the next opened file gets.
    pub next_buffer_id: u64,
    /// The file that was opened last, and when.
    pub just_opened: Option<(u64, u64)>,
    /// The tab and the caret of the last frame.
    pub last_cursor: Option<(usize, usize)>,
    /// The rows of the view.
    pub height: u16,
    /// All files show at once.
    pub grid: bool,
}

/// The open files as a mathematical value.
#[verifier::ext_equal]
pub struct TabsState {
    pub editors: Seq<BufferState>,
    pub active: Option<int>,
    pub recent_files: Seq<Seq<char>>,
    pub closed: Seq<Seq<char>>,
    pub session_dirty: bool,
    pub next_buffer_id: u64,
    pub just_opened: Option<(u64, u64)>,
    pub last_cursor: Option<(int, int)>,
    pub height: u16,
    pub grid: bool,
}

/// Buffers as plain values.
pub open spec fn buffers_view(v: Seq<Buffer>) -> Seq<BufferState> {
    Seq::new(v.len(), |i: int| v[i]@)
}

/// A tab and a caret, as numbers.
pub open spec fn opt_pair(o: Option<(usize, usize)>) -> Option<(int, int)> {
    match o {
        Some((a, b)) => Some((a as int, b as int)),
        None => None,
    }
}

impl View for Tabs {
    type V = TabsState;

    open spec fn view(&self) -> TabsState {
        TabsState {
            editors: buffers_view(self.editors@),
            active: opt_int(self.active),
            recent_files: texts(self.recent_files@),
            closed: texts(self.closed@),
            session_dirty: self.session_dirty,
            next_buffer_id: self.next_buffer_id,
            just_opened: self.just_opened,
            last_cursor: opt_pair(self.last_cursor),
            height: self.height,
            grid: self.grid,
        }
    }
}

/// The paths that name another place than `x`, in order.
pub open spec fn others(s: Seq<Seq<char>>, x: Seq<char>) -> Seq<Seq<char>>
    decreases s.len(),
{
    if s.len() == 0 {
        Seq::empty()
    } else if same_path(s.last(), x) {
        others(s.drop_last(), x)
    } else {
        others(s.drop_last(), x).push(s.last())
    }
}

/// Taking a path out of a list leaves the others.
pub proof fn lemma_others(s: Seq<Seq<char>>, x: Seq<char>)
    ensures
        others(s, x).len() <= s.len(),
        !holds_path(others(s, x), x),
        forall|y: Seq<char>|
            !same_path(y, x) ==> #[trigger] others(s, x).contains(y) == s.contains(y),
        forall|i: int|
            0 <= i < others(s, x).len() ==> s.contains(#[trigger] others(s, x)[i]),
        distinct_paths(s) ==> distinct_paths(others(s, x)),
    decreases s.len(),
{
    if s.len() > 0 {
        let f = s.drop_last();
        lemma_others(f, x);
        let o = others(f, x);
        assert forall|y: Seq<char>| s.contains(y) == (#[trigger] f.contains(y) || y == s.last()) by {
            if f.contains(y) {
                let i = f.index_of(y);
                assert(s[i] == y);
            }
            if y == s.last() {
                assert(s[s.len() - 1] == y);
            }
            if s.contains(y) {
                let i = s.index_of(y);
                if i < f.len() {
                    assert(f[i] == y);
                }
            }
        }
        assert(distinct_paths(s) ==> distinct_paths(f)) by {
            if distinct_paths(s) {
                assert forall|i: int, j: int| 0 <= i < j < f.len() implies !same_path(
                    #[trigger] f[i],
                    #[trigger] f[j],
                ) by {
                    assert(f[i] == s[i] && f[j] == s[j]);
                }
            }
        }
        assert forall|y: Seq<char>| !same_path(y, x) implies #[trigger] others(s, x).contains(y)
            == s.contains(y) by {
            assert(o.contains(y) == f.contains(y));
            if !same_path(s.last(), x) {
                let r = o.push(s.last());
                assert(r.contains(y) == (o.contains(y) || y == s.last())) by {
                    if o.contains(y) {
                        assert(r[o.index_of(y)] == y);
                    }
                    if r.contains(y) && r.index_of(y) < o.len() {
                        assert(o[r.index_of(y)] == y);
                    }
                    assert(r[r.len() - 1] == s.last());
                }
            }
        }
        if !same_path(s.last(), x) {
            let r = o.push(s.last());
            assert(!holds_path(r, x)) by {
                if holds_path(r, x) {
                    let i = choose|i: int| 0 <= i < r.len() && same_path(#[trigger] r[i], x);
                    if i < o.len() {
                        assert(same_path(o[i], x));
                    }
                }
            }
            assert forall|i: int| 0 <= i < r.len() implies s.contains(#[trigger] r[i]) by {
                if i < o.len() {
                    assert(f.contains(o[i]));
                }
            }
            if distinct_paths(s) {
                assert forall|i: int, j: int| 0 <= i < j < r.len() implies !same_path(
                    #[trigger] r[i],
                    #[trigger] r[j],
                ) by {
                    if j < o.len() {
                        assert(r[i] == o[i] && r[j] == o[j]);
                    } else {
                        assert(f.contains(o[i]));
                        let k = f.index_of(o[i]);
                        assert(s[k] == r[i]);
                        assert(!same_path(s[k], s[s.len() - 1]));
                    }
                }
            }
        }
    }
}

/// The first `n` texts.
pub open spec fn first_of(s: Seq<Seq<char>>, n: int) -> Seq<Seq<char>> {
    if s.len() > n {
        s.take(n)
    } else {
        s
    }
}

/// The list of recently used files with `path` in front.
pub open spec fn used_first(s: Seq<Seq<char>>, path: Seq<char>) -> Seq<Seq<char>> {
    first_of(seq![path] + others(s, path), RECENT_CAP as int)
}

/// The list of closed files with `path` at the end; the oldest goes where the
/// list is full.
pub open spec fn closed_last(s: Seq<Seq<char>>, path: Seq<char>) -> Seq<Seq<char>> {
    let r = others(s, path).push(path);
    if r.len() > CLOSED_CAP {
        r.skip(1)
    } else {
        r
    }
}

/// The list of closed files with each of `paths` closed in turn.
pub open spec fn all_closed_last(s: Seq<Seq<char>>, paths: Seq<Seq<char>>) -> Seq<Seq<char>>
    decreases paths.len(),
{
    if paths.len() == 0 {
        s
    } else {
        closed_last(all_closed_last(s, paths.drop_last()), paths.last())
    }
}

/// The files of the tabs that have one, in order.
pub open spec fn paths_of(editors: Seq<BufferState>) -> Seq<Seq<char>>
    decreases editors.len(),
{
    if editors.len() == 0 {
        Seq::empty()
    } else {
        match editors.last().path {
            Some(p) => paths_of(editors.drop_last()).push(p),
            None => paths_of(editors.drop_last()),
        }
    }
}

/// The first tab from `i` on that shows the file at `path`, or -1.
pub open spec fn tab_of(editors: Seq<BufferState>, path: Seq<char>, i: int) -> int
    decreases editors.len() - i,
{
    if i >= editors.len() {
        -1
    } else if editors[i].path matches Some(p) && same_path(p, path) {
        i
    } else {
        tab_of(editors, path, i + 1)
    }
}

/// The first tab from `i` on with unsaved changes, or -1.
pub open spec fn unsaved_from(editors: Seq<BufferState>, i: int) -> int
    decreases editors.len() - i,
{
    if i >= editors.len() {
        -1
    } else if editors[i].modified {
        i
    } else {
        unsaved_from(editors, i + 1)
    }
}

/// The place of the path `x` from `i` on, or -1.
pub open spec fn place_in(s: Seq<Seq<char>>, x: Seq<char>, i: int) -> int
    decreases s.len() - i,
{
    if i >= s.len() {
        -1
    } else if same_path(s[i], x) {
        i
    } else {
        place_in(s, x, i + 1)
    }
}

impl TabsState {
    /// Some tab shows as soon as there is one, and each holds a sound buffer.
    pub open spec fn wf(self) -> bool {
        &&& self.editors.len() == 0 <==> self.active is None
        &&& self.active matches Some(i) ==> 0 <= i < self.editors.len()
        &&& forall|i: int| 0 <= i < self.editors.len() ==> (#[trigger] self.editors[i]).wf()
        &&& self.recent_files.len() <= RECENT_CAP
        &&& self.closed.len() <= CLOSED_CAP
        &&& self.height > 0
    }

    /// No file is open.
    pub open spec fn none() -> TabsState {
        TabsState {
            editors: Seq::empty(),
            active: None,
            recent_files: Seq::empty(),
            closed: Seq::empty(),
            session_dirty: false,
            next_buffer_id: 1,
            just_opened: None,
            last_cursor: None,
            height: 20,
            grid: false,
        }
    }

    /// The file that is showing.
    pub open spec fn current(self) -> Option<BufferState> {
        match self.active {
            Some(i) => Some(self.editors[i]),
            None => None,
        }
    }

    /// The tab `i` holding `b`.
    pub open spec fn with_editor(self, i: int, b: BufferState) -> TabsState {
        TabsState { editors: self.editors.update(i, b), ..self }
    }

    /// The tab that is showing holding `b`.
    pub open spec fn with_current(self, b: BufferState) -> TabsState {
        match self.active {
            Some(i) => self.with_editor(i, b),
            None => self,
        }
    }

    pub open spec fn focused(self, i: int) -> TabsState {
        TabsState { active: Some(i), ..self }
    }

    /// `path` was used just now.
    pub open spec fn touched(self, path: Seq<char>) -> TabsState {
        TabsState {
            recent_files: used_first(self.recent_files, path),
            session_dirty: true,
            ..self
        }
    }

    /// A tab was closed, which showed `path`.
    pub open spec fn forgotten(self, path: Option<Seq<char>>) -> TabsState {
        TabsState {
            closed: match path {
                Some(p) => closed_last(self.closed, p),
                None => self.closed,
            },
            session_dirty: true,
            ..self
        }
    }

    /// `b` in a tab of its own at the end, showing.
    pub open spec fn opened(self, b: BufferState, now: u64) -> TabsState {
        TabsState {
            editors: self.editors.push(BufferState { id: self.next_buffer_id, ..b }),
            active: Some(self.editors.len() as int),
            next_buffer_id: if self.next_buffer_id == u64::MAX {
                0
            } else {
                (self.next_buffer_id + 1) as u64
            },
            last_cursor: None,
            just_opened: Some((self.next_buffer_id, now)),
            ..self
        }
    }

    /// The tab `i` closed. What shows next is the place `show`, or the last
    /// tab.
    pub open spec fn removed(self, i: int, show: int) -> TabsState {
        let rest = self.editors.remove(i);
        TabsState {
            editors: rest,
            active: if rest.len() == 0 {
                None
            } else if show < rest.len() {
                Some(show)
            } else {
                Some(rest.len() - 1)
            },
            ..self.forgotten(self.editors[i].path)
        }
    }

    /// The tab `i` closed. What shows next is its right neighbour, or the last
    /// tab.
    pub open spec fn dropped(self, i: int) -> TabsState {
        self.removed(i, i)
    }

    /// Every tab closed.
    pub open spec fn all_dropped(self) -> TabsState {
        let paths = paths_of(self.editors);
        TabsState {
            editors: Seq::empty(),
            active: None,
            closed: all_closed_last(self.closed, paths),
            session_dirty: self.session_dirty || paths.len() > 0,
            ..self
        }
    }

    /// The tab `delta` places on, round the row of tabs.
    pub open spec fn turned(self, delta: int) -> TabsState {
        match self.active {
            Some(i) => self.focused(stepped(i, delta, self.editors.len() as int)),
            None => self,
        }
    }

    /// The tab that is showing, one place to the left.
    pub open spec fn moved_left(self) -> TabsState {
        match self.active {
            Some(i) => if i > 0 {
                TabsState {
                    editors: swapped(self.editors, i, i - 1),
                    active: Some(i - 1),
                    ..self
                }
            } else {
                self
            },
            None => self,
        }
    }

    /// The tab that is showing, one place to the right.
    pub open spec fn moved_right(self) -> TabsState {
        match self.active {
            Some(i) => if i + 1 < self.editors.len() {
                TabsState {
                    editors: swapped(self.editors, i, i + 1),
                    active: Some(i + 1),
                    ..self
                }
            } else {
                self
            },
            None => self,
        }
    }

    /// The tab `from` moved to the place `to`, and showing.
    pub open spec fn reordered(self, from: int, to: int) -> TabsState {
        if from == to || !(0 <= from < self.editors.len()) || !(0 <= to < self.editors.len()) {
            self
        } else {
            TabsState {
                editors: self.editors.remove(from).insert(to, self.editors[from]),
                active: Some(to),
                ..self
            }
        }
    }

    /// The tabs after a frame of `h` rows. The view follows the caret only
    /// where it moved since the last frame, so that a scrolled view stays.
    pub open spec fn framed(self, h: u16) -> TabsState {
        let rows = if h == 0 {
            1u16
        } else {
            h
        };
        let s = TabsState { height: rows, ..self };
        match self.active {
            Some(i) => {
                let b = self.editors[i];
                let here = Some((i, b.cursor));
                TabsState {
                    last_cursor: here,
                    ..s.with_editor(i, b.followed(rows as int, self.last_cursor != here))
                }
            },
            None => s,
        }
    }

    /// Whether the wheel is still that of the gesture before the file that is
    /// showing was opened.
    pub open spec fn wheel_is_stale(self, now: u64) -> bool {
        self.current() matches Some(b) && self.just_opened matches Some((id, at)) && id == b.id
            && elapsed(now, at) < WHEEL_GRACE
    }

    /// The view moved by `delta` rows.
    pub open spec fn scrolled(self, delta: int, now: u64) -> TabsState {
        match self.current() {
            Some(b) => if self.wheel_is_stale(now) {
                self
            } else {
                self.with_current(b.scrolled(delta))
            },
            None => self,
        }
    }

    /// The tab `i` after its text was written to disk.
    pub open spec fn saved(self, i: int, disk: Option<DiskMeta>) -> TabsState {
        let b = self.editors[i];
        self.with_editor(i, BufferState { saved: b.text, modified: false, disk, ..b })
    }
}

/// A copy of a text, where there is one.
pub fn copy_text(o: &Option<String>) -> (r: Option<String>)
    ensures
        opt_text(r) == opt_text(*o),
{
    match o {
        Some(s) => Some(s.clone()),
        None => None,
    }
}

/// Take every path that names the same place as `x` out of the list.
pub fn take_out(v: &mut Vec<String>, x: &str)
    ensures
        texts(final(v)@) == others(texts(old(v)@), x@),
        final(v)@.len() <= old(v)@.len(),
{
    let ghost all = texts(v@);
    let mut i: usize = 0;
    let ghost mut k: int = 0;
    assert(all.take(0) =~= Seq::empty());
    assert(texts(v@).take(0) =~= Seq::empty());
    assert(texts(v@).skip(0) =~= all.skip(0));
    while i < v.len()
        invariant
            0 <= k <= all.len(),
            i <= v@.len(),
            v@.len() <= all.len(),
            v@.len() - i == all.len() - k,
            texts(v@).take(i as int) == others(all.take(k), x@),
            texts(v@).skip(i as int) == all.skip(k),
        decreases v.len() - i,
    {
        let ghost before = texts(v@);
        assert(before[i as int] == before.skip(i as int)[0]);
        assert(all[k] == all.skip(k)[0]);
        assert(all.take(k + 1).drop_last() =~= all.take(k));
        if is_same_path(v[i].as_str(), x) {
            v.remove(i);
            assert(texts(v@).take(i as int) =~= before.take(i as int));
            assert(texts(v@).skip(i as int) =~= before.skip(i as int).skip(1));
            assert(all.skip(k).skip(1) =~= all.skip(k + 1));
        } else {
            i = i + 1;
            assert(texts(v@).take(i as int) =~= before.take(i - 1).push(before[i - 1]));
            assert(texts(v@).skip(i as int) =~= before.skip(i - 1).skip(1));
            assert(all.skip(k).skip(1) =~= all.skip(k + 1));
        }
        proof {
            k = k + 1;
        }
    }
    assert(all.take(k) =~= all);
    assert(texts(v@).take(i as int) =~= texts(v@));
}

/// The place of a path among others, which are given by their characters.
pub fn rank_among(used: &Vec<Vec<char>>, path: &str) -> (r: Option<usize>)
    ensures
        match r {
            Some(i) => place_in(chars_view(used@), path@, 0) == i,
            None => place_in(chars_view(used@), path@, 0) < 0,
        },
{
    let v = chars_of(path);
    let mut i: usize = 0;
    while i < used.len()
        invariant
            i <= used@.len(),
            v@ == path@,
            place_in(chars_view(used@), path@, 0) == place_in(chars_view(used@), path@, i as int),
        decreases used.len() - i,
    {
        if same_parts(&used[i], &v) {
            return Some(i);
        }
        i = i + 1;
    }
    None
}

impl Default for Tabs {
    fn default() -> (r: Tabs)
        ensures
            r@ == TabsState::none(),
            r@.wf(),
    {
        let r = Tabs {
            editors: Vec::new(),
            active: None,
            recent_files: Vec::new(),
            closed: Vec::new(),
            session_dirty: false,
            next_buffer_id: 1,
            just_opened: None,
            last_cursor: None,
            height: 20,
            grid: false,
        };
        assert(r@ =~= TabsState::none());
        r
    }
}

impl Tabs {
    /// The tab that shows `path`.
    pub fn tab_with(&self, path: &str) -> (r: Option<usize>)
        ensures
            match r {
                Some(i) => i < self@.editors.len() && tab_of(self@.editors, path@, 0) == i
                    && (self@.editors[i as int].path matches Some(p) && same_path(p, path@)),
                None => tab_of(self@.editors, path@, 0) < 0,
            },
    {
        let mut i: usize = 0;
        while i < self.editors.len()
            invariant
                i <= self.editors@.len(),
                tab_of(self@.editors, path@, 0) == tab_of(self@.editors, path@, i as int),
            decreases self.editors.len() - i,
        {
            let same = match &self.editors[i].path {
                Some(p) => is_same_path(p.as_str(), path),
                None => false,
            };
            if same {
                return Some(i);
            }
            i = i + 1;
        }
        None
    }

    /// The first tab with unsaved changes.
    pub fn first_unsaved(&self) -> (r: Option<usize>)
        ensures
            match r {
                Some(i) => i < self@.editors.len() && unsaved_from(self@.editors, 0) == i
                    && self@.editors[i as int].modified,
                None => unsaved_from(self@.editors, 0) < 0,
            },
    {
        let mut i: usize = 0;
        while i < self.editors.len()
            invariant
                i <= self.editors@.len(),
                unsaved_from(self@.editors, 0) == unsaved_from(self@.editors, i as int),
            decreases self.editors.len() - i,
        {
            if self.editors[i].modified {
                return Some(i);
            }
            i = i + 1;
        }
        None
    }

    /// Note that `path` was used just now.
    pub fn touch_recent(&mut self, path: &str)
        requires
            old(self)@.wf(),
        ensures
            final(self)@ == old(self)@.touched(path@),
            final(self)@.wf(),
    {
        let ghost s = self@;
        take_out(&mut self.recent_files, path);
        let ghost o = texts(self.recent_files@);
        let mut name = String::new();
        name.append(path);
        self.recent_files.insert(0, name);
        assert(texts(self.recent_files@) =~= seq![path@] + o);
        if self.recent_files.len() > RECENT_CAP {
            self.recent_files.truncate(RECENT_CAP);
            assert(texts(self.recent_files@) =~= (seq![path@] + o).take(RECENT_CAP as int));
        }
        self.session_dirty = true;
        assert(self@ =~= s.touched(path@));
    }

    /// The characters of the recently used files.
    pub fn recent_chars(&self) -> (r: Vec<Vec<char>>)
        ensures
            chars_view(r@) == self@.recent_files,
    {
        let mut r: Vec<Vec<char>> = Vec::new();
        let mut i: usize = 0;
        while i < self.recent_files.len()
            invariant
                i <= self.recent_files@.len(),
                r@.len() == i,
                forall|k: int| 0 <= k < i ==> (#[trigger] r@[k])@ == self@.recent_files[k],
            decreases self.recent_files.len() - i,
        {
            r.push(chars_of(self.recent_files[i].as_str()));
            i = i + 1;
        }
        assert(chars_view(r@) =~= self@.recent_files);
        r
    }

    /// The place of `path` among the recently used files.
    pub fn recent_rank(&self, path: &str) -> (r: Option<usize>)
        ensures
            match r {
                Some(i) => place_in(self@.recent_files, path@, 0) == i,
                None => place_in(self@.recent_files, path@, 0) < 0,
            },
    {
        let used = self.recent_chars();
        rank_among(&used, path)
    }

    /// Remember the file of a tab that is closed.
    pub fn remember_closed(&mut self, path: Option<String>)
        requires
            old(self)@.wf(),
        ensures
            final(self)@ == old(self)@.forgotten(opt_text(path)),
            final(self)@.wf(),
    {
        let ghost s = self@;
        if let Some(p) = path {
            let ghost q = p@;
            take_out(&mut self.closed, p.as_str());
            let ghost o = texts(self.closed@);
            self.closed.push(p);
            assert(texts(self.closed@) =~= o.push(q));
            if self.closed.len() > CLOSED_CAP {
                self.closed.remove(0);
                assert(texts(self.closed@) =~= o.push(q).skip(1));
            }
        }
        self.session_dirty = true;
        assert(self@ =~= s.forgotten(opt_text(path)));
    }

    /// Take the file whose tab was closed last.
    pub fn take_closed(&mut self) -> (r: Option<String>)
        requires
            old(self)@.wf(),
        ensures
            opt_text(r) == if old(self)@.closed.len() > 0 {
                Some(old(self)@.closed.last())
            } else {
                None
            },
            final(self)@ == if old(self)@.closed.len() > 0 {
                TabsState { closed: old(self)@.closed.drop_last(), ..old(self)@ }
            } else {
                old(self)@
            },
            final(self)@.wf(),
    {
        let ghost s = self@;
        let r = self.closed.pop();
        assert(r is Some ==> texts(self.closed@) =~= s.closed.drop_last());
        r
    }

    /// Show the tab `i`.
    pub fn focus(&mut self, i: usize)
        requires
            old(self)@.wf(),
            i < old(self)@.editors.len(),
        ensures
            final(self)@ == old(self)@.focused(i as int),
            final(self)@.wf(),
    {
        self.active = Some(i);
    }

    /// Show `b` in a tab of its own.
    pub fn add_tab(&mut self, b: Buffer, now: u64)
        requires
            old(self)@.wf(),
            b@.wf(),
        ensures
            final(self)@ == old(self)@.opened(b@, now),
            final(self)@.wf(),
    {
        let ghost s = self@;
        let mut buf = b;
        let id: u64 = self.next_buffer_id;
        buf.id = id;
        self.next_buffer_id = if id == u64::MAX {
            0
        } else {
            id + 1
        };
        let n: usize = self.editors.len();
        self.editors.push(buf);
        self.active = Some(n);
        self.last_cursor = None;
        self.just_opened = Some((id, now));
        assert(self@.editors =~= s.opened(b@, now).editors);
        assert forall|i: int| 0 <= i < self@.editors.len() implies (
        #[trigger] self@.editors[i]).wf() by {
            if i < s.editors.len() {
                assert(self@.editors[i] == s.editors[i]);
            }
        }
    }

    /// Close the tab `i`, and show its right neighbour or the last tab.
    pub fn drop_tab(&mut self, i: usize)
        requires
            old(self)@.wf(),
            i < old(self)@.editors.len(),
        ensures
            final(self)@ == old(self)@.dropped(i as int),
            final(self)@.wf(),
    {
        self.remove_tab(i, i);
    }

    /// Close the tab `i`, and show the tab at the place `show` or the last one.
    pub fn remove_tab(&mut self, i: usize, show: usize)
        requires
            old(self)@.wf(),
            i < old(self)@.editors.len(),
        ensures
            final(self)@ == old(self)@.removed(i as int, show as int),
            final(self)@.wf(),
    {
        let ghost s = self@;
        let path = copy_text(&self.editors[i].path);
        self.remember_closed(path);
        self.editors.remove(i);
        assert(self@.editors =~= s.editors.remove(i as int));
        let n: usize = self.editors.len();
        self.active = if n == 0 {
            None
        } else if show < n {
            Some(show)
        } else {
            Some(n - 1)
        };
        assert(self@ =~= s.removed(i as int, show as int));
        assert forall|k: int| 0 <= k < self@.editors.len() implies (
        #[trigger] self@.editors[k]).wf() by {
            if k < i {
                assert(self@.editors[k] == s.editors[k]);
            } else {
                assert(self@.editors[k] == s.editors[k + 1]);
            }
        }
    }

    /// The open files, in the order of their tabs.
    pub fn open_paths(&self) -> (r: Vec<String>)
        ensures
            texts(r@) == paths_of(self@.editors),
    {
        let mut r: Vec<String> = Vec::new();
        let mut i: usize = 0;
        let ghost all = self@.editors;
        assert(all.take(0) =~= Seq::empty());
        assert(texts(r@) =~= Seq::empty());
        while i < self.editors.len()
            invariant
                i <= self.editors@.len(),
                all == self@.editors,
                texts(r@) == paths_of(all.take(i as int)),
            decreases self.editors.len() - i,
        {
            let ghost before = texts(r@);
            assert(all.take(i + 1).drop_last() =~= all.take(i as int));
            assert(all.take(i + 1).last() == all[i as int]);
            if let Some(p) = &self.editors[i].path {
                r.push(p.clone());
                assert(texts(r@) =~= before.push(p@));
            }
            i = i + 1;
        }
        assert(all.take(i as int) =~= all);
        r
    }

    /// Close every tab.
    pub fn drop_all(&mut self)
        requires
            old(self)@.wf(),
        ensures
            final(self)@ == old(self)@.all_dropped(),
            final(self)@.wf(),
    {
        let ghost s = self@;
        let paths = self.open_paths();
        let ghost ps = paths_of(s.editors);
        let mut i: usize = 0;
        assert(ps.take(0) =~= Seq::empty());
        while i < paths.len()
            invariant
                i <= paths@.len(),
                texts(paths@) == ps,
                self@.wf(),
                self@ == (TabsState {
                    closed: all_closed_last(s.closed, ps.take(i as int)),
                    session_dirty: s.session_dirty || i > 0,
                    ..s
                }),
            decreases paths.len() - i,
        {
            assert(ps.take(i + 1).drop_last() =~= ps.take(i as int));
            assert(ps.take(i + 1).last() == paths@[i as int]@);
            let p = paths[i].clone();
            self.remember_closed(Some(p));
            i = i + 1;
        }
        assert(ps.take(i as int) =~= ps);
        self.editors = Vec::new();
        self.active = None;
        assert(self@ =~= s.all_dropped());
    }

    /// Show the next tab, round the row of tabs.
    pub fn next_tab(&mut self)
        requires
            old(self)@.wf(),
        ensures
            final(self)@ == old(self)@.turned(1),
            final(self)@.wf(),
    {
        if let Some(i) = self.active {
            self.active = Some(step(i, 1, self.editors.len()));
        }
    }

    /// Show the previous tab, round the row of tabs.
    pub fn prev_tab(&mut self)
        requires
            old(self)@.wf(),
        ensures
            final(self)@ == old(self)@.turned(-1),
            final(self)@.wf(),
    {
        if let Some(i) = self.active {
            self.active = Some(step(i, -1, self.editors.len()));
        }
    }

    /// Swap a tab with its right neighbour.
    fn swap_with_next(&mut self, i: usize)
        requires
            old(self)@.wf(),
            i + 1 < old(self)@.editors.len(),
        ensures
            final(self)@ == (TabsState {
                editors: swapped(old(self)@.editors, i as int, i + 1),
                ..old(self)@
            }),
            final(self)@.wf(),
    {
        let ghost s = self@;
        let n: usize = self.editors.len();
        let t = self.editors.remove(i);
        self.editors.insert(i + 1, t);
        assert(self@.editors =~= swapped(s.editors, i as int, i + 1));
        assert forall|k: int| 0 <= k < self@.editors.len() implies (
        #[trigger] self@.editors[k]).wf() by {
            assert(s.editors[k].wf() && s.editors[i as int].wf() && s.editors[i + 1].wf());
        }
    }

    /// Move the tab that is showing one place to the left; says whether there was
    /// room.
    pub fn move_tab_left(&mut self) -> (r: bool)
        requires
            old(self)@.wf(),
        ensures
            r == (old(self)@.moved_left() != old(self)@),
            final(self)@ == old(self)@.moved_left(),
            final(self)@.wf(),
    {
        if let Some(i) = self.active {
            if i > 0 {
                let ghost s = self@;
                self.swap_with_next(i - 1);
                self.active = Some(i - 1);
                assert(self@.editors =~= swapped(s.editors, i as int, i - 1));
                return true;
            }
        }
        false
    }

    /// Move the tab that is showing one place to the right; says whether there
    /// was room.
    pub fn move_tab_right(&mut self) -> (r: bool)
        requires
            old(self)@.wf(),
        ensures
            r == (old(self)@.moved_right() != old(self)@),
            final(self)@ == old(self)@.moved_right(),
            final(self)@.wf(),
    {
        if let Some(i) = self.active {
            if i < self.editors.len() - 1 {
                self.swap_with_next(i);
                self.active = Some(i + 1);
                return true;
            }
        }
        false
    }

    /// Move the tab `from` to the place `to`, and show it; says whether it moved.
    pub fn reorder_editor_tab(&mut self, from: usize, to: usize) -> (r: bool)
        requires
            old(self)@.wf(),
        ensures
            r == (from != to && from < old(self)@.editors.len() && to < old(self)@.editors.len()),
            final(self)@ == old(self)@.reordered(from as int, to as int),
            final(self)@.wf(),
    {
        if from == to || from >= self.editors.len() || to >= self.editors.len() {
            return false;
        }
        let ghost s = self@;
        let t = self.editors.remove(from);
        self.editors.insert(to, t);
        self.active = Some(to);
        assert(self@.editors =~= s.editors.remove(from as int).insert(
            to as int,
            s.editors[from as int],
        ));
        assert forall|k: int| 0 <= k < self@.editors.len() implies (
        #[trigger] self@.editors[k]).wf() by {
            let rest = s.editors.remove(from as int);
            assert forall|j: int| 0 <= j < rest.len() implies (#[trigger] rest[j]).wf() by {
                if j < from {
                    assert(rest[j] == s.editors[j]);
                } else {
                    assert(rest[j] == s.editors[j + 1]);
                }
            }
            if k < to {
                assert(self@.editors[k] == rest[k]);
            } else if k > to {
                assert(self@.editors[k] == rest[k - 1]);
            } else {
                assert(self@.editors[k] == s.editors[from as int]);
            }
        }
        true
    }

    /// Keep the view in the text, and on the caret where it moved since the
    /// last frame.
    pub fn ensure_cursor_visible(&mut self, height: u16)
        requires
            old(self)@.wf(),
        ensures
            final(self)@ == old(self)@.framed(height),
            final(self)@.wf(),
    {
        let ghost s = self@;
        let rows: u16 = if height == 0 {
            1
        } else {
            height
        };
        self.height = rows;
        if let Some(i) = self.active {
            let cursor: usize = self.editors[i].cursor;
            let moved = match self.last_cursor {
                Some((e, c)) => e != i || c != cursor,
                None => true,
            };
            assert(s.editors[i as int] == self.editors@[i as int]@);
            assert(moved == (s.last_cursor != Some((i as int, cursor as int))));
            self.last_cursor = Some((i, cursor));
            let b = &mut self.editors[i];
            b.follow(rows, moved);
            assert(self@.editors =~= s.framed(height).editors);
            assert forall|k: int| 0 <= k < self@.editors.len() implies (
            #[trigger] self@.editors[k]).wf() by {
                assert(s.editors[k].wf());
            }
        }
    }

    /// Move the view by `delta` rows, the caret staying where it is. What is
    /// left of a gesture from before the file was opened does nothing.
    pub fn editor_scroll(&mut self, delta: i32, now: u64)
        requires
            old(self)@.wf(),
        ensures
            final(self)@ == old(self)@.scrolled(delta as int, now),
            final(self)@.wf(),
    {
        if let Some(i) = self.active {
            let ghost s = self@;
            assert(s.editors[i as int] == self.editors@[i as int]@);
            if let Some((id, at)) = self.just_opened {
                if id == self.editors[i].id && since(now, at) < WHEEL_GRACE {
                    return;
                }
            }
            let b = &mut self.editors[i];
            b.scroll_by(delta);
            assert(self@.editors =~= s.editors.update(
                i as int,
                s.editors[i as int].scrolled(delta as int),
            ));
            assert forall|k: int| 0 <= k < self@.editors.len() implies (
            #[trigger] self@.editors[k]).wf() by {
                assert(s.editors[k].wf());
            }
        }
    }

    /// Note that the text of the tab `i` was written to disk.
    pub fn mark_saved(&mut self, i: usize, disk: Option<DiskMeta>)
        requires
            old(self)@.wf(),
            i < old(self)@.editors.len(),
        ensures
            final(self)@ == old(self)@.saved(i as int, disk),
            final(self)@.wf(),
    {
        let ghost s = self@;
        let b = &mut self.editors[i];
        b.mark_saved(disk);
        assert(self@.editors =~= s.saved(i as int, disk).editors);
        assert forall|k: int| 0 <= k < self@.editors.len() implies (
        #[trigger] self@.editors[k]).wf() by {
            assert(s.editors[k].wf());
        }
    }

    /// Whether the files are tiled.
    pub fn in_grid(&self) -> (r: bool)
        ensures
            r == (self@.grid && self@.editors.len() > 1),
    {
        self.grid && self.editors.len() > 1
    }

    /// Show the tab that was showing when the files were last open, or the last
    /// one, and take the open files as noted.
    pub fn settle(&mut self, active: usize)
        requires
            old(self)@.wf(),
        ensures
            final(self)@ == (TabsState {
                active: if old(self)@.editors.len() == 0 {
                    None
                } else if active < old(self)@.editors.len() {
                    Some(active as int)
                } else {
                    Some(old(self)@.editors.len() - 1)
                },
                session_dirty: false,
                ..old(self)@
            }),
            final(self)@.wf(),
    {
        let n: usize = self.editors.len();
        if n > 0 {
            self.active = Some(
                if active < n {
                    active
                } else {
                    n - 1
                },
            );
        }
        self.session_dirty = false;
    }
}

/// A sound buffer in place of another keeps the tabs sound.
pub proof fn lemma_with_editor(s: TabsState, i: int, b: BufferState)
    requires
        s.wf(),
        0 <= i < s.editors.len(),
        b.wf(),
    ensures
        s.with_editor(i, b).wf(),
{
    let t = s.with_editor(i, b);
    assert forall|k: int| 0 <= k < t.editors.len() implies (#[trigger] t.editors[k]).wf() by {
        assert(s.editors[k].wf());
    }
}

/// The next tab's previous one is the tab itself, and as many steps as there
/// are tabs lead back.
pub proof fn law_next_and_previous_tab_revert(s: TabsState)
    requires
        s.wf(),
    ensures
        s.turned(1).turned(-1) == s,
        s.turned(-1).turned(1) == s,
        s.turned(s.editors.len() as int) == s,
{
    if let Some(i) = s.active {
        law_steps_revert(i, s.editors.len() as int);
    }
}

/// Moving a tab keeps the tabs, and moving it back restores their order.
pub proof fn law_moving_a_tab_keeps_the_tabs(s: TabsState)
    requires
        s.wf(),
    ensures
        s.moved_left().editors.to_multiset() == s.editors.to_multiset(),
        s.moved_right().editors.to_multiset() == s.editors.to_multiset(),
        s.moved_left().current() == s.current(),
        s.moved_right().current() == s.current(),
        s.moved_left() != s ==> s.moved_left().moved_right() == s,
        s.moved_right() != s ==> s.moved_right().moved_left() == s,
{
    if let Some(i) = s.active {
        if i > 0 {
            lemma_swap_multiset(s.editors, i, i - 1);
            assert(s.moved_left().moved_right().editors =~= s.editors);
        }
        if i + 1 < s.editors.len() {
            lemma_swap_multiset(s.editors, i, i + 1);
            assert(s.moved_right().moved_left().editors =~= s.editors);
        }
    }
}

/// The file used last stands first among the recently used ones, once, and the
/// list stays bounded.
pub proof fn law_the_file_used_last_is_first(s: TabsState, path: Seq<char>)
    requires
        s.wf(),
    ensures
        s.touched(path).recent_files[0] == path,
        s.touched(path).recent_files.len() <= RECENT_CAP,
        distinct_paths(s.recent_files) ==> distinct_paths(s.touched(path).recent_files),
        place_in(s.touched(path).recent_files, path, 0) == 0,
{
    lemma_others(s.recent_files, path);
    let o = others(s.recent_files, path);
    let all = seq![path] + o;
    if distinct_paths(s.recent_files) {
        let r = first_of(all, RECENT_CAP as int);
        assert forall|i: int, j: int| 0 <= i < j < r.len() implies !same_path(
            #[trigger] r[i],
            #[trigger] r[j],
        ) by {
            assert(r[i] == all[i] && r[j] == all[j]);
            assert(o[j - 1] == all[j]);
            if i > 0 {
                assert(!same_path(o[i - 1], o[j - 1]));
            } else if same_path(r[i], r[j]) {
                assert(same_path(o[j - 1], path));
            }
        }
    }
}

/// A closed tab is the one that comes back first, and the list of closed tabs
/// stays bounded.
pub proof fn law_the_tab_closed_last_comes_back_first(s: TabsState, i: int)
    requires
        s.wf(),
        0 <= i < s.editors.len(),
    ensures
        s.dropped(i).closed.len() <= CLOSED_CAP,
        s.editors[i].path matches Some(p) ==> s.dropped(i).closed.len() > 0 && s.dropped(
            i,
        ).closed.last() == p,
        s.dropped(i).editors.len() == s.editors.len() - 1,
{
    if let Some(p) = s.editors[i].path {
        lemma_others(s.closed, p);
    }
}

/// No two tabs show the same file.
pub open spec fn one_tab_each(editors: Seq<BufferState>) -> bool {
    forall|i: int, j: int|
        0 <= i < j < editors.len() ==> !(#[trigger] editors[i].path matches Some(p) && (
        #[trigger] editors[j].path matches Some(q) && same_path(p, q)))
}

/// No file is in two tabs where none was, and opening another file keeps it so.
pub proof fn law_a_file_has_one_tab(s: TabsState, b: BufferState, now: u64)
    requires
        s.wf(),
        one_tab_each(s.editors),
        b.path is Some,
        tab_of(s.editors, b.path->0, 0) < 0,
    ensures
        one_tab_each(s.opened(b, now).editors),
{
    let t = s.opened(b, now);
    lemma_no_tab(s.editors, b.path->0, 0);
    assert forall|i: int, j: int| 0 <= i < j < t.editors.len() implies !(
    #[trigger] t.editors[i].path matches Some(p) && (#[trigger] t.editors[j].path matches Some(q)
        && same_path(p, q))) by {
        assert(t.editors[i] == s.editors[i]);
        if j < s.editors.len() {
            assert(t.editors[j] == s.editors[j]);
            assert(s.editors[i].path == t.editors[i].path);
            assert(s.editors[j].path == t.editors[j].path);
        } else {
            assert(s.editors[i].path == t.editors[i].path);
        }
    }
}

/// Where no tab is found for a file, none shows it.
pub proof fn lemma_no_tab(editors: Seq<BufferState>, path: Seq<char>, i: int)
    requires
        0 <= i,
        tab_of(editors, path, i) < 0,
    ensures
        forall|k: int|
            i <= k < editors.len() ==> !((#[trigger] editors[k]).path matches Some(p) && same_path(
                p,
                path,
            )),
    decreases editors.len() - i,
{
    if i < editors.len() {
        lemma_no_tab(editors, path, i + 1);
    }
}

} // verus!
