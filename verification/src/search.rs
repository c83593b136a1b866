//! Search across every file of the project.

use crate::editline::{char_len, field, handle_key, Edit, Field, FieldRef};
use crate::find::{find_matches, matches_in, ranges};
use crate::keyevent::KeyEvent;
use crate::lines::{col_of, lemma_line_around, line_of};
use crate::rope::{rope_char_to_line, rope_from_str, rope_line_to_char, rope_text};
use crate::strings::chars_of;
use vstd::prelude::*;
use vstd::string::*;

verus! {

/// How long the query has to rest before the files are searched, in
/// milliseconds.
pub const SEARCH_DELAY: u64 = 250;

/// One place where the query was found: a line and the columns from and to.
#[derive(Debug, Clone, Copy, PartialEq, Eq, Structural)]
pub struct Hit {
    pub line: usize,
    pub col: usize,
    pub end_col: usize,
}

/// The places in one file.
#[derive(Debug)]
pub struct FileHits {
    pub path: String,
    pub hits: Vec<Hit>,
}

/// The places in one file as a mathematical value.
#[verifier::ext_equal]
pub struct FileHitsState {
    pub path: Seq<char>,
    pub hits: Seq<Hit>,
}

impl View for FileHits {
    type V = FileHitsState;

    open spec fn view(&self) -> FileHitsState {
        FileHitsState { path: self.path@, hits: self.hits@ }
    }
}

/// The places in all files as plain values.
pub open spec fn results_view(v: Seq<FileHits>) -> Seq<FileHitsState> {
    Seq::new(v.len(), |i: int| v[i]@)
}

/// How many places the first `n` files hold.
pub open spec fn hits_before(r: Seq<FileHitsState>, n: int) -> nat
    decreases n,
{
    if n <= 0 {
        0
    } else {
        hits_before(r, n - 1) + r[n - 1].hits.len()
    }
}

/// The file and the place in it that come `k`-th from the file `i` on.
pub open spec fn hit_at(r: Seq<FileHitsState>, k: int, i: int) -> Option<(int, int)>
    decreases r.len() - i,
{
    if i < 0 || i >= r.len() {
        None
    } else if k < r[i].hits.len() {
        Some((i, k))
    } else {
        hit_at(r, k - r[i].hits.len(), i + 1)
    }
}

/// The dialog that searches the project.
pub struct ProjectSearch {
    pub active: bool,
    pub query: String,
    pub cursor: usize,
    pub anchor: Option<usize>,
    pub results: Vec<FileHits>,
    /// The place that is selected, counted through all files.
    pub selected: usize,
    /// The results are those of the query.
    pub searched: bool,
    /// There were more places than are kept.
    pub truncated: bool,
    /// When the files are to be searched.
    pub pending_search_at: Option<u64>,
}

/// The dialog as a mathematical value.
#[verifier::ext_equal]
pub struct SearchState {
    pub active: bool,
    pub query: Field,
    pub results: Seq<FileHitsState>,
    pub selected: int,
    pub searched: bool,
    pub truncated: bool,
    pub pending: Option<u64>,
}

impl View for ProjectSearch {
    type V = SearchState;

    open spec fn view(&self) -> SearchState {
        SearchState {
            active: self.active,
            query: field(self.query@, self.cursor, self.anchor),
            results: results_view(self.results@),
            selected: self.selected as int,
            searched: self.searched,
            truncated: self.truncated,
            pending: self.pending_search_at,
        }
    }
}

impl SearchState {
    /// Nothing asked, nothing found.
    pub open spec fn blank(active: bool) -> SearchState {
        SearchState {
            active,
            query: Field { text: Seq::empty(), cursor: 0, anchor: None },
            results: Seq::empty(),
            selected: 0,
            searched: false,
            truncated: false,
            pending: None,
        }
    }

    /// How many places there are.
    pub open spec fn total(self) -> nat {
        hits_before(self.results, self.results.len() as int)
    }

    /// The results dropped, and a search to come unless nothing is asked.
    pub open spec fn invalidated(self, now: u64) -> SearchState {
        SearchState {
            results: Seq::empty(),
            selected: 0,
            searched: false,
            truncated: false,
            pending: if self.query.text.len() == 0 {
                None
            } else if now > u64::MAX - SEARCH_DELAY {
                Some(u64::MAX)
            } else {
                Some((now + SEARCH_DELAY) as u64)
            },
            ..self
        }
    }

    /// The results of a search.
    pub open spec fn found(self, results: Seq<FileHitsState>, truncated: bool) -> SearchState {
        SearchState {
            results,
            selected: 0,
            searched: true,
            truncated,
            pending: None,
            ..self
        }
    }

    /// The file and the place in it that are selected.
    pub open spec fn picked(self) -> Option<(int, int)> {
        hit_at(self.results, self.selected, 0)
    }
}

/// The places of a query in a text.
pub open spec fn hits_of(text: Seq<char>, query: Seq<char>) -> Seq<(int, int, int)> {
    let m = matches_in(text, query);
    Seq::new(
        m.len(),
        |i: int|
            (
                line_of(text, m[i].0),
                col_of(text, m[i].0),
                col_of(text, m[i].0) + (m[i].1 - m[i].0),
            ),
    )
}

/// Places as numbers.
pub open spec fn hits_view(v: Seq<Hit>) -> Seq<(int, int, int)> {
    Seq::new(v.len(), |i: int| (v[i].line as int, v[i].col as int, v[i].end_col as int))
}

/// The places of a query in a text, whatever the case of the letters.
pub fn hits_in(text: &str, query: &str) -> (r: Vec<Hit>)
    ensures
        hits_view(r@) == hits_of(text@, query@),
{
    let hay = chars_of(text);
    let m = find_matches(&hay, query);
    let rope = rope_from_str(text);
    let mut r: Vec<Hit> = Vec::new();
    let mut i: usize = 0;
    let ghost all = matches_in(text@, query@);
    proof {
        crate::find::law_matches_are_the_occurrences(text@, query@, 0);
    }
    while i < m.len()
        invariant
            i <= m@.len(),
            all == matches_in(text@, query@),
            ranges(m@) == all,
            rope_text(rope) == text@,
            hay@ == text@,
            forall|k: int| 0 <= k < all.len() ==> 0 <= (#[trigger] all[k]).0 <= all[k].1 <= hay.len(),
            r@.len() == i,
            hits_view(r@) =~= hits_of(text@, query@).take(i as int),
        decreases m.len() - i,
    {
        let a: usize = m[i].0;
        let e: usize = m[i].1;
        assert(all[i as int] == (a as int, e as int));
        proof {
            lemma_line_around(text@, a as int);
        }
        let line: usize = rope_char_to_line(&rope, a);
        let start: usize = rope_line_to_char(&rope, line);
        let col: usize = a - start;
        let h = Hit { line, col, end_col: col + (e - a) };
        let ghost before = hits_view(r@);
        r.push(h);
        assert(hits_view(r@) =~= before.push((h.line as int, h.col as int, h.end_col as int)));
        i = i + 1;
        assert(hits_of(text@, query@).take(i as int) =~= hits_of(text@, query@).take(
            i - 1,
        ).push(hits_of(text@, query@)[i - 1]));
    }
    assert(hits_of(text@, query@).take(i as int) =~= hits_of(text@, query@));
    r
}

impl Default for ProjectSearch {
    fn default() -> (r: ProjectSearch)
        ensures
            r@ == SearchState::blank(false),
    {
        let r = ProjectSearch {
            active: false,
            query: String::new(),
            cursor: 0,
            anchor: None,
            results: Vec::new(),
            selected: 0,
            searched: false,
            truncated: false,
            pending_search_at: None,
        };
        assert(r@ =~= SearchState::blank(false));
        r
    }
}

impl ProjectSearch {
    fn reset(&mut self, active: bool)
        ensures
            final(self)@ == SearchState::blank(active),
    {
        self.active = active;
        self.query = String::new();
        self.cursor = 0;
        self.anchor = None;
        self.results = Vec::new();
        self.selected = 0;
        self.searched = false;
        self.truncated = false;
        self.pending_search_at = None;
        assert(self@ =~= SearchState::blank(active));
    }

    /// A key in the query.
    pub fn edit_query(&mut self, key: KeyEvent, ctrl: bool, alt: bool, shift: bool) -> (r: Edit)
        requires
            old(self).cursor < usize::MAX,
        ensures
            final(self)@ == (SearchState {
                query: old(self)@.query.after_key(key.code, ctrl, alt, shift).0,
                ..old(self)@
            }),
            r == old(self)@.query.after_key(key.code, ctrl, alt, shift).1,
    {
        handle_key(
            FieldRef {
                text: &mut self.query,
                cursor: &mut self.cursor,
                anchor: &mut self.anchor,
            },
            key,
            ctrl,
            alt,
            shift,
        )
    }

    /// Start with nothing asked.
    pub fn open(&mut self)
        ensures
            final(self)@ == SearchState::blank(true),
    {
        self.reset(true);
    }

    /// Forget what was asked and found.
    pub fn close(&mut self)
        ensures
            final(self)@ == SearchState::blank(false),
    {
        self.reset(false);
    }

    /// Drop the results of another query, and let the search come when the
    /// query has rested.
    pub fn invalidate(&mut self, now: u64)
        ensures
            final(self)@ == old(self)@.invalidated(now),
    {
        let ghost s = self@;
        self.results = Vec::new();
        self.selected = 0;
        self.searched = false;
        self.truncated = false;
        let empty = char_len(self.query.as_str()) == 0;
        self.pending_search_at = if empty {
            None
        } else if now > u64::MAX - SEARCH_DELAY {
            Some(u64::MAX)
        } else {
            Some(now + SEARCH_DELAY)
        };
        assert(self@ =~= s.invalidated(now));
    }

    /// Keep the results of the search.
    pub fn take_results(&mut self, results: Vec<FileHits>, truncated: bool)
        ensures
            final(self)@ == old(self)@.found(results_view(results@), truncated),
    {
        self.results = results;
        self.selected = 0;
        self.searched = true;
        self.truncated = truncated;
        self.pending_search_at = None;
    }

    /// Whether the files are to be searched now.
    pub fn is_due(&self, now: u64) -> (r: bool)
        ensures
            r == (self@.pending matches Some(at) && now >= at),
    {
        match self.pending_search_at {
            Some(at) => now >= at,
            None => false,
        }
    }

    /// How many places there are; more than a `usize` counts as its largest
    /// value.
    pub fn total_matches(&self) -> (r: usize)
        ensures
            r == if self@.total() <= usize::MAX {
                self@.total()
            } else {
                usize::MAX as nat
            },
    {
        let mut n: usize = 0;
        let mut i: usize = 0;
        let ghost all = self@.results;
        while i < self.results.len()
            invariant
                i <= self.results@.len(),
                all == results_view(self.results@),
                n == if hits_before(all, i as int) <= usize::MAX {
                    hits_before(all, i as int)
                } else {
                    usize::MAX as nat
                },
            decreases self.results.len() - i,
        {
            let k: usize = self.results[i].hits.len();
            assert(all[i as int].hits.len() == k);
            n = if n > usize::MAX - k {
                usize::MAX
            } else {
                n + k
            };
            i = i + 1;
        }
        n
    }

    /// The file and the place in it that are selected.
    pub fn selected_match(&self) -> (r: Option<(usize, usize)>)
        ensures
            match r {
                Some((f, h)) => self@.picked() == Some((f as int, h as int)) && f
                    < self.results@.len() && h < self.results@[f as int].hits@.len(),
                None => self@.picked() is None,
            },
    {
        let mut k: usize = self.selected;
        let mut i: usize = 0;
        while i < self.results.len()
            invariant
                i <= self.results@.len(),
                self@.picked() == hit_at(self@.results, k as int, i as int),
            decreases self.results.len() - i,
        {
            let n: usize = self.results[i].hits.len();
            assert(self@.results[i as int].hits.len() == n);
            if k < n {
                return Some((i, k));
            }
            k = k - n;
            i = i + 1;
        }
        None
    }

    /// Select the place before, staying at the first one.
    pub fn move_up(&mut self)
        ensures
            final(self)@ == (SearchState {
                selected: if old(self)@.selected > 0 {
                    old(self)@.selected - 1
                } else {
                    0
                },
                ..old(self)@
            }),
    {
        if self.selected > 0 {
            self.selected = self.selected - 1;
        }
    }

    /// Select the place behind, staying at the last one.
    pub fn move_down(&mut self)
        ensures
            final(self)@ == (SearchState {
                selected: if old(self)@.selected + 1 < old(self)@.total() && old(self)@.selected + 1
                    < usize::MAX {
                    old(self)@.selected + 1
                } else {
                    old(self)@.selected
                },
                ..old(self)@
            }),
    {
        let n: usize = self.total_matches();
        if self.selected < n && n - self.selected > 1 && self.selected < usize::MAX - 1 {
            self.selected = self.selected + 1;
        }
    }
}

/// Where there are results, the first one is selected after a search.
pub proof fn law_the_first_result_is_selected(
    s: SearchState,
    results: Seq<FileHitsState>,
    truncated: bool,
)
    requires
        results.len() > 0,
        results[0].hits.len() > 0,
    ensures
        s.found(results, truncated).picked() == Some((0int, 0int)),
{
}

/// Editing the query drops the results of the old one.
pub proof fn law_a_new_query_has_no_results(s: SearchState, now: u64)
    ensures
        !s.invalidated(now).searched,
        s.invalidated(now).results.len() == 0,
        s.invalidated(now).picked() is None,
{
}

} // verus!
