//! The file dialog's search: what it lists for a query and which row of that
//! is highlighted. An empty query lists every file, recent ones first; typing
//! ranks the files by how well they match.

use crate::editline::{char_len, field, handle_key, Edit, Field, FieldRef};
use crate::fuzzy::{
    ascending, cased, fits_table, fuzzy, item_match, label_of, lemma_fuzzy_positive, members,
    piece_match, prepared_of, score_item, searchable, Match, Prepared,
};
use crate::keyevent::KeyEvent;
use crate::ranking::{comes_before, distinct_indices, sort_ranks, Rank};
use crate::strings::chars_of;
use std::collections::HashSet;
use std::cmp::Ordering;
use vstd::prelude::*;

verus! {

broadcast use vstd::std_specs::hash::group_hash_axioms;

/// What one step up in the list of recent files adds to a score.
pub const RECENCY_BOOST_STEP: i64 = 96;

/// What being the `r`-th most recent file adds to a score. Small next to the
/// gaps between kinds of match.
pub open spec fn boost_of(rank: Option<usize>) -> int {
    match rank {
        Some(r) => if r < 256 {
            (256 - r) * RECENCY_BOOST_STEP
        } else {
            0
        },
        None => 0,
    }
}

/// How recent entry `i` is, if it is.
pub open spec fn rank_of(recent: Seq<Option<usize>>, i: int) -> Option<usize> {
    if 0 <= i < recent.len() {
        recent[i]
    } else {
        None
    }
}

/// Order by how recent: recent entries before the others, the most recent first.
pub fn cmp_recent(a: Option<usize>, b: Option<usize>) -> (r: Ordering)
    ensures
        r == match (a, b) {
            (Some(x), Some(y)) => if x < y {
                Ordering::Less
            } else if x == y {
                Ordering::Equal
            } else {
                Ordering::Greater
            },
            (Some(_), None) => Ordering::Less,
            (None, Some(_)) => Ordering::Greater,
            (None, None) => Ordering::Equal,
        },
{
    match (a, b) {
        (Some(x), Some(y)) => if x < y {
            Ordering::Less
        } else if x == y {
            Ordering::Equal
        } else {
            Ordering::Greater
        },
        (Some(_), None) => Ordering::Less,
        (None, Some(_)) => Ordering::Greater,
        (None, None) => Ordering::Equal,
    }
}

/// What being recent adds to a score.
fn recency_boost(rank: Option<usize>) -> (r: i64)
    ensures
        r == boost_of(rank),
        0 <= r <= 24576,
{
    match rank {
        Some(r) => if r < 256 {
            (256 - r as i64) * RECENCY_BOOST_STEP
        } else {
            0
        },
        None => 0,
    }
}

/// The file search: the query being typed and what it lists.
pub struct FileDialog {
    pub active: bool,
    pub query: String,
    /// Cursor and selection anchor within `query`.
    pub cursor: usize,
    pub anchor: Option<usize>,
    /// Indices into the caller's entry list, best match first.
    pub matches: Vec<usize>,
    pub selected: usize,
    /// Entries that the user ticked, kept across query changes.
    pub checked: HashSet<usize>,
    /// The entries made ready for scoring, and the revision of the entry list
    /// that they belong to.
    pub prepared: Vec<Prepared>,
    pub prepared_rev: u64,
}

/// The texts of a list of entries.
pub open spec fn texts(entries: Seq<String>) -> Seq<Seq<char>> {
    Seq::new(entries.len(), |i: int| entries[i]@)
}

/// How the query matches entry `i`.
pub open spec fn entry_match(entries: Seq<Seq<char>>, query: Seq<char>, i: int) -> Option<Match> {
    item_match(entries[i], prepared_of(entries[i]), query, query.contains('/'))
}

/// Whether the query matches the name of some entry, not only its folders.
pub open spec fn some_label(entries: Seq<Seq<char>>, query: Seq<char>) -> bool {
    exists|i: int|
        0 <= i < entries.len() && (#[trigger] entry_match(entries, query, i)) is Some
            && entry_match(entries, query, i)->0.label
}

/// Whether entry `i` is listed: it matches, and by its name where any entry
/// does.
pub open spec fn listed(entries: Seq<Seq<char>>, query: Seq<char>, i: int) -> bool {
    &&& 0 <= i < entries.len()
    &&& entry_match(entries, query, i) is Some
    &&& some_label(entries, query) ==> entry_match(entries, query, i)->0.label
}

/// What entry `i` is ranked by: its score and how recent it is, then a shorter
/// path, then its place in the list.
pub open spec fn entry_rank(
    entries: Seq<Seq<char>>,
    query: Seq<char>,
    recent: Seq<Option<usize>>,
    i: int,
) -> Rank {
    Rank {
        score: (entry_match(entries, query, i)->0.score + boost_of(rank_of(recent, i))) as i64,
        len: entries[i].len() as usize,
        index: i as usize,
    }
}

/// Whether entry `a` comes before entry `b` when nothing is typed: recent
/// entries first, and otherwise as in the list.
pub open spec fn recent_before(recent: Seq<Option<usize>>, a: int, b: int) -> bool {
    match (rank_of(recent, a), rank_of(recent, b)) {
        (Some(x), Some(y)) => x < y || (x == y && a < b),
        (Some(_), None) => true,
        (None, Some(_)) => false,
        (None, None) => a < b,
    }
}

/// What a query lists: the listed entries, each once and in order.
pub open spec fn lists(
    matches: Seq<usize>,
    entries: Seq<Seq<char>>,
    query: Seq<char>,
    recent: Seq<Option<usize>>,
) -> bool {
    if query.len() == 0 {
        &&& forall|i: int| 0 <= i < entries.len() <==> #[trigger] matches.contains(i as usize) && 0
            <= i <= usize::MAX
        &&& forall|a: int, b: int|
            0 <= a < b < matches.len() ==> recent_before(
                recent,
                matches[a] as int,
                matches[b] as int,
            )
    } else {
        &&& forall|i: int|
            listed(entries, query, i) <==> #[trigger] matches.contains(i as usize) && 0 <= i
                <= usize::MAX
        &&& forall|a: int, b: int|
            0 <= a < b < matches.len() ==> comes_before(
                entry_rank(entries, query, recent, matches[a] as int),
                entry_rank(entries, query, recent, matches[b] as int),
            )
    }
}

/// The row above a row of a list of `n`, round from the first to the last.
pub open spec fn row_above(row: int, n: int) -> int {
    if n == 0 {
        row
    } else if row == 0 {
        n - 1
    } else {
        row - 1
    }
}

/// The row below a row of a list of `n`, round from the last to the first.
pub open spec fn row_below(row: int, n: int) -> int {
    if n == 0 {
        row
    } else {
        (row + 1) % n
    }
}

/// Going down undoes going up in the list, and the other way round; in an empty
/// list neither goes anywhere.
pub proof fn law_up_and_down_in_the_list_revert(row: int, n: int)
    requires
        0 <= row < n || n == 0,
    ensures
        n == 0 ==> row_above(row, n) == row && row_below(row, n) == row,
        row_below(row_above(row, n), n) == row,
        row_above(row_below(row, n), n) == row,
{
    if n == 0 {
    } else if row == 0 {
        assert((n - 1 + 1) % n == 0) by (nonlinear_arith)
            requires
                n > 0,
        ;
    } else {
        assert((row - 1 + 1) % n == row) by (nonlinear_arith)
            requires
                0 <= row < n,
        ;
    }
    if n == 0 {
    } else if row + 1 == n {
        assert((row + 1) % n == 0) by (nonlinear_arith)
            requires
                row + 1 == n,
                n > 0,
        ;
    } else {
        assert((row + 1) % n == row + 1) by (nonlinear_arith)
            requires
                0 <= row + 1 < n,
        ;
    }
}

/// Where the name of some file matches, a file of which only the folders match
/// is not listed.
pub proof fn law_names_shut_out_folders(
    matches: Seq<usize>,
    entries: Seq<Seq<char>>,
    query: Seq<char>,
    recent: Seq<Option<usize>>,
    a: int,
)
    requires
        query.len() > 0,
        lists(matches, entries, query, recent),
        some_label(entries, query),
        0 <= a < matches.len(),
    ensures
        entry_match(entries, query, matches[a] as int) is Some,
        entry_match(entries, query, matches[a] as int)->0.label,
{
    let i = matches[a] as int;
    assert(matches.contains(i as usize));
    assert(listed(entries, query, i));
}

/// With nothing typed, the file that was used last is on top.
pub proof fn law_the_file_used_last_is_on_top(
    matches: Seq<usize>,
    entries: Seq<Seq<char>>,
    recent: Seq<Option<usize>>,
    i: int,
)
    requires
        lists(matches, entries, Seq::empty(), recent),
        0 <= i < entries.len() <= usize::MAX,
        rank_of(recent, i) == Some(0usize),
        forall|j: int| 0 <= j < entries.len() && j != i ==> #[trigger] rank_of(recent, j) != Some(
            0usize,
        ),
    ensures
        matches.len() > 0,
        matches[0] == i,
{
    assert(matches.contains(i as usize));
    let k = choose|k: int| 0 <= k < matches.len() && matches[k] == i as usize;
    if k > 0 {
        assert(recent_before(recent, matches[0] as int, matches[k] as int));
        let first = matches[0] as int;
        assert(matches.contains(first as usize));
        assert(0 <= first < entries.len());
        assert(rank_of(recent, first) == Some(0usize) || first == i);
    }
}

/// Of two files that match equally well, the one used more recently comes first.
pub proof fn law_recent_files_win_ties(
    entries: Seq<Seq<char>>,
    query: Seq<char>,
    recent: Seq<Option<usize>>,
    a: int,
    b: int,
)
    requires
        entry_match(entries, query, a) is Some,
        entry_match(entries, query, b) is Some,
        entry_match(entries, query, a)->0.score == entry_match(entries, query, b)->0.score,
        0 <= entry_match(entries, query, a)->0.score < 0x4000_0000_0000_0000,
        rank_of(recent, a) matches Some(x) && x < 256 && (rank_of(recent, b) matches Some(y) ==> x
            < y),
    ensures
        comes_before(
            entry_rank(entries, query, recent, a),
            entry_rank(entries, query, recent, b),
        ),
{
}

/// A name that starts with what is typed outranks one that has it elsewhere,
/// however recently the other was used, and that one a path of which only the
/// folders match. What is typed is one piece of no more than 136 characters: a
/// longer one can score more than the kinds of match lie apart.
pub proof fn law_recency_stays_within_a_kind(
    a: Seq<char>,
    b: Seq<char>,
    c: Seq<char>,
    piece: Seq<char>,
    x: Option<usize>,
    y: Option<usize>,
    z: Option<usize>,
)
    requires
        0 < piece.len() <= 136,
        ({
            let q = cased(piece);
            let (la, lb, lc) = (
                label_of(prepared_of(a)),
                label_of(prepared_of(b)),
                label_of(prepared_of(c)),
            );
            &&& fuzzy(q, la) > 0 && q.lower.is_prefix_of(la.lower)
            &&& fuzzy(q, lb) > 0 && !q.lower.is_prefix_of(lb.lower)
            &&& fuzzy(q, lc) == 0 && fuzzy(q, prepared_of(c).whole) > 0
        }),
    ensures
        ({
            let (ma, mb, mc) = (
                piece_match(prepared_of(a), piece, true)->0,
                piece_match(prepared_of(b), piece, true)->0,
                piece_match(prepared_of(c), piece, true)->0,
            );
            &&& ma.score + boost_of(x) > mb.score + boost_of(y)
            &&& mb.score + boost_of(y) > mc.score + boost_of(z)
        }),
{
    let q = cased(piece);
    let k = piece.len() as int;
    lemma_fuzzy_positive(q, label_of(prepared_of(a)));
    lemma_fuzzy_positive(q, label_of(prepared_of(b)));
    lemma_fuzzy_positive(q, prepared_of(c).whole);
    assert(k * k <= 136 * k) by (nonlinear_arith)
        requires
            0 <= k <= 136,
    ;
    let n = label_of(prepared_of(a)).text.len() as int;
    assert((200 * k + n) / (2 * n) >= 0) by (nonlinear_arith)
        requires
            k >= 0,
            n > 0,
    ;
}

/// Every entry can be scored against the query.
pub open spec fn all_searchable(entries: Seq<Seq<char>>, query: Seq<char>) -> bool {
    forall|i: int| 0 <= i < entries.len() ==> searchable(query, (#[trigger] entries[i]).len() as int)
}

/// Every entry can be scored against any query of `n` characters.
pub open spec fn all_fit(entries: Seq<Seq<char>>, n: int) -> bool {
    &&& n <= u32::MAX
    &&& forall|i: int| 0 <= i < entries.len() ==> fits_table(n, (#[trigger] entries[i]).len() as int)
}

/// A query that is no longer can be scored too.
pub proof fn lemma_all_fit(entries: Seq<Seq<char>>, n: int, query: Seq<char>)
    requires
        all_fit(entries, n),
        query.len() <= n,
    ensures
        all_searchable(entries, query),
{
    assert forall|i: int| 0 <= i < entries.len() implies searchable(
        query,
        (#[trigger] entries[i]).len() as int,
    ) by {
        let t = entries[i].len() as int;
        let q = query.len() as int;
        assert(q * t <= n * t) by (nonlinear_arith)
            requires
                q <= n,
                t >= 0,
        ;
    }
}

impl Default for FileDialog {
    fn default() -> (r: FileDialog)
        ensures
            !r.active,
            r.query@.len() == 0,
            r.cursor == 0,
            r.anchor is None,
            r.matches@.len() == 0,
            r.selected == 0,
            r.checked@ == Set::<usize>::empty(),
            r.prepared@.len() == 0,
            r.prepared_rev == 0,
    {
        FileDialog {
            active: false,
            query: String::new(),
            cursor: 0,
            anchor: None,
            matches: Vec::new(),
            selected: 0,
            checked: HashSet::new(),
            prepared: Vec::new(),
            prepared_rev: 0,
        }
    }
}

/// The indices of the ranks.
fn indices(v: &Vec<Rank>) -> (r: Vec<usize>)
    ensures
        r.len() == v.len(),
        forall|k: int| 0 <= k < v.len() ==> #[trigger] r@[k] == v@[k].index,
{
    let mut r: Vec<usize> = Vec::new();
    let mut i: usize = 0;
    while i < v.len()
        invariant
            i <= v.len(),
            r.len() == i,
            forall|k: int| 0 <= k < i ==> #[trigger] r@[k] == v@[k].index,
        decreases v.len() - i,
    {
        r.push(v[i].index);
        i = i + 1;
    }
    r
}

fn recent_rank(recent: &Vec<Option<usize>>, i: usize) -> (r: Option<usize>)
    ensures
        r == rank_of(recent@, i as int),
{
    if i < recent.len() {
        recent[i]
    } else {
        None
    }
}

fn has_slash(s: &str) -> (r: bool)
    ensures
        r == s@.contains('/'),
{
    let v = chars_of(s);
    let mut i: usize = 0;
    while i < v.len()
        invariant
            i <= v.len(),
            v@ == s@,
            forall|k: int| 0 <= k < i ==> #[trigger] v@[k] != '/',
        decreases v.len() - i,
    {
        if v[i] == '/' {
            assert(s@[i as int] == '/');
            return true;
        }
        i = i + 1;
    }
    false
}

impl FileDialog {
    /// Everything but the scoring cache as it is at the start.
    pub open spec fn blank(&self) -> bool {
        &&& self.query@.len() == 0
        &&& self.cursor == 0
        &&& self.anchor is None
        &&& self.matches@.len() == 0
        &&& self.selected == 0
        &&& self.checked@ == Set::<usize>::empty()
    }

    /// Everything but what is kept for the next search is the same.
    pub open spec fn same_face(&self, other: &FileDialog) -> bool {
        &&& self.active == other.active
        &&& self.query == other.query
        &&& self.cursor == other.cursor
        &&& self.anchor == other.anchor
        &&& self.matches == other.matches
        &&& self.selected == other.selected
        &&& self.checked == other.checked
    }

    /// The query as a field.
    pub open spec fn field(&self) -> Field {
        field(self.query@, self.cursor, self.anchor)
    }

    /// Some row is selected as soon as there is one.
    pub open spec fn wf(&self) -> bool {
        self.selected == 0 || self.selected < self.matches@.len()
    }

    /// The scoring cache is that of `other`.
    pub open spec fn same_cache(&self, other: &FileDialog) -> bool {
        self.prepared == other.prepared && self.prepared_rev == other.prepared_rev
    }

    /// Where the cache counts as that of `entries` at revision `rev`, it is.
    pub open spec fn cache_is_for(&self, entries: Seq<Seq<char>>, rev: u64) -> bool {
        self.prepared_rev == rev && self.prepared@.len() == entries.len() ==> self.cached(entries)
    }

    /// The cache holds `entries` made ready.
    pub open spec fn cached(&self, entries: Seq<Seq<char>>) -> bool {
        &&& self.prepared@.len() == entries.len()
        &&& forall|i: int|
            0 <= i < entries.len() ==> (#[trigger] self.prepared@[i])@ == prepared_of(entries[i])
                && self.prepared@[i].wf()
    }

    /// A key in the query.
    pub fn edit_query(&mut self, key: KeyEvent, ctrl: bool, alt: bool, shift: bool) -> (r: Edit)
        requires
            old(self).cursor < usize::MAX,
        ensures
            *final(self) == (FileDialog {
                query: final(self).query,
                cursor: final(self).cursor,
                anchor: final(self).anchor,
                ..*old(self)
            }),
            final(self).field() == old(self).field().after_key(key.code, ctrl, alt, shift).0,
            r == old(self).field().after_key(key.code, ctrl, alt, shift).1,
    {
        handle_key(
            FieldRef {
                text: &mut self.query,
                cursor: &mut self.cursor,
                anchor: &mut self.anchor,
            },
            key,
            ctrl,
            alt,
            shift,
        )
    }

    /// Show the dialog with nothing typed and nothing ticked.
    pub fn open(&mut self)
        ensures
            final(self).active,
            final(self).blank(),
            final(self).same_cache(old(self)),
    {
        self.reset();
        self.active = true;
    }

    /// Hide the dialog and forget what was typed and ticked.
    pub fn close(&mut self)
        ensures
            !final(self).active,
            final(self).blank(),
            final(self).same_cache(old(self)),
    {
        self.reset();
        self.active = false;
    }

    fn reset(&mut self)
        ensures
            final(self).blank(),
            final(self).active == old(self).active,
            final(self).same_cache(old(self)),
    {
        self.query = String::new();
        self.cursor = 0;
        self.anchor = None;
        self.matches = Vec::new();
        self.selected = 0;
        self.checked.clear();
    }

    /// Toggle the tick on entry `src`.
    pub fn toggle_check(&mut self, src: usize)
        ensures
            final(self).checked@ == if old(self).checked@.contains(src) {
                old(self).checked@.remove(src)
            } else {
                old(self).checked@.insert(src)
            },
            final(self).active == old(self).active,
            final(self).query == old(self).query,
            final(self).cursor == old(self).cursor,
            final(self).anchor == old(self).anchor,
            final(self).matches == old(self).matches,
            final(self).selected == old(self).selected,
            final(self).same_cache(old(self)),
    {
        if !self.checked.remove(&src) {
            self.checked.insert(src);
        }
    }

    /// Make the entries ready for scoring, unless they are.
    fn prepare(&mut self, entries: &Vec<String>, entries_rev: u64)
        requires
            old(self).cache_is_for(texts(entries@), entries_rev),
        ensures
            final(self).cached(texts(entries@)),
            final(self).prepared_rev == entries_rev,
            final(self).active == old(self).active,
            final(self).query == old(self).query,
            final(self).cursor == old(self).cursor,
            final(self).anchor == old(self).anchor,
            final(self).matches == old(self).matches,
            final(self).selected == old(self).selected,
            final(self).checked == old(self).checked,
    {
        if self.prepared_rev != entries_rev || self.prepared.len() != entries.len() {
            let mut all: Vec<Prepared> = Vec::new();
            let mut i: usize = 0;
            while i < entries.len()
                invariant
                    i <= entries.len(),
                    all.len() == i,
                    forall|k: int|
                        0 <= k < i ==> (#[trigger] all@[k])@ == prepared_of(texts(entries@)[k])
                            && all@[k].wf(),
                decreases entries.len() - i,
            {
                all.push(Prepared::new(entries[i].as_str()));
                i = i + 1;
            }
            self.prepared = all;
            self.prepared_rev = entries_rev;
        }
    }

    /// Work out again what the query lists. `recent[i]` is how recent entry `i`
    /// is; `entries_rev` stands for what is in `entries`, so that the work of
    /// making them ready is done once per list.
    pub fn refilter(
        &mut self,
        entries: &Vec<String>,
        entries_rev: u64,
        recent: &Vec<Option<usize>>,
    )
        requires
            old(self).cache_is_for(texts(entries@), entries_rev),
            all_searchable(texts(entries@), old(self).query@),
        ensures
            lists(final(self).matches@, texts(entries@), old(self).query@, recent@),
            final(self).selected == if old(self).query@.len() > 0 {
                0
            } else if old(self).selected < final(self).matches@.len() {
                old(self).selected
            } else if final(self).matches@.len() > 0 {
                (final(self).matches@.len() - 1) as usize
            } else {
                0
            },
            if old(self).query@.len() > 0 {
                final(self).cached(texts(entries@)) && final(self).prepared_rev == entries_rev
            } else {
                final(self).same_cache(old(self))
            },
            final(self).active == old(self).active,
            final(self).query == old(self).query,
            final(self).cursor == old(self).cursor,
            final(self).anchor == old(self).anchor,
            final(self).checked == old(self).checked,
    {
        let ghost all = texts(entries@);
        let ghost query = self.query@;
        if self.query.as_str().is_empty() {
            self.list_recent(entries.len(), recent);
            return;
        }
        self.prepare(entries, entries_rev);
        let by_path = has_slash(self.query.as_str());
        let mut scored: Vec<Rank> = Vec::new();
        let mut labelled: Vec<bool> = Vec::new();
        let mut any_label: bool = false;
        let mut i: usize = 0;
        while i < entries.len()
            invariant
                i <= entries.len(),
                all == texts(entries@),
                query == self.query@,
                by_path == query.contains('/'),
                self.cached(all),
                all_searchable(all, query),
                scored.len() == labelled.len(),
                forall|k: int|
                    0 <= k < scored.len() ==> (#[trigger] scored@[k]).index < i && entry_match(
                        all,
                        query,
                        scored@[k].index as int,
                    ) is Some && scored@[k] == entry_rank(
                        all,
                        query,
                        recent@,
                        scored@[k].index as int,
                    ) && labelled@[k] == entry_match(
                        all,
                        query,
                        scored@[k].index as int,
                    )->0.label,
                forall|a: int, b: int|
                    0 <= a < b < scored.len() ==> scored@[a].index < scored@[b].index,
                forall|k: int|
                    0 <= k < i && (#[trigger] entry_match(all, query, k)) is Some ==> has_index(
                        scored@,
                        k,
                    ),
                any_label == exists|k: int|
                    0 <= k < i && (#[trigger] entry_match(all, query, k)) is Some && entry_match(
                        all,
                        query,
                        k,
                    )->0.label,
            decreases entries.len() - i,
        {
            let ghost m = entry_match(all, query, i as int);
            let ghost scored0 = scored@;
            let ghost any0 = any_label;
            assert(all[i as int] == entries@[i as int]@);
            assert(self.prepared@[i as int]@ == prepared_of(all[i as int]));
            let hit = score_item(entries[i].as_str(), &self.prepared[i], self.query.as_str(), by_path);
            match hit {
                Some((s, covered, label)) => {
                    let boost: i64 = recency_boost(recent_rank(recent, i));
                    let rank = Rank { score: s + boost, len: self.prepared[i].chars.len(), index: i };
                    scored.push(rank);
                    labelled.push(label);
                    any_label = any_label || label;
                    assert(scored@[scored0.len() as int].index == i);
                },
                None => {},
            }
            i = i + 1;
            proof {
                assert forall|k: int| 0 <= k < i && (#[trigger] entry_match(all, query, k)) is Some implies
                    has_index(scored@, k) by {
                    if k < i - 1 {
                        assert(has_index(scored0, k));
                        let w = choose|w: int| 0 <= w < scored0.len() && scored0[w].index == k;
                        assert(scored@[w].index == k);
                    }
                }
                if any0 {
                    let k = choose|k: int|
                        0 <= k < i - 1 && (#[trigger] entry_match(all, query, k)) is Some
                            && entry_match(all, query, k)->0.label;
                    assert(entry_match(all, query, k) is Some);
                }
            }
        }
        assert(any_label == some_label(all, query));
        let mut kept: Vec<Rank> = Vec::new();
        let mut k: usize = 0;
        while k < scored.len()
            invariant
                k <= scored.len() == labelled.len(),
                forall|j: int|
                    0 <= j < kept.len() ==> scored@.contains(#[trigger] kept@[j]) && (any_label
                        ==> entry_match(all, query, kept@[j].index as int)->0.label),
                forall|a: int, b: int|
                    0 <= a < b < kept.len() ==> kept@[a].index < kept@[b].index,
                forall|a: int, b: int|
                    0 <= a < b < scored.len() ==> scored@[a].index < scored@[b].index,
                kept.len() > 0 && k < scored.len() ==> kept@.last().index < scored@[k as int].index,
                forall|j: int|
                    0 <= j < scored.len() ==> labelled@[j] == entry_match(
                        all,
                        query,
                        (#[trigger] scored@[j]).index as int,
                    )->0.label,
                forall|j: int|
                    0 <= j < k && (any_label ==> labelled@[j]) ==> has_index(
                        kept@,
                        (#[trigger] scored@[j]).index as int,
                    ),
            decreases scored.len() - k,
        {
            let ghost kept0 = kept@;
            assert(scored@.contains(scored@[k as int]));
            if !any_label || labelled[k] {
                kept.push(scored[k]);
                assert(kept@[kept0.len() as int] == scored@[k as int]);
            }
            k = k + 1;
            proof {
                assert forall|j: int| 0 <= j < k && (any_label ==> labelled@[j]) implies has_index(
                    kept@,
                    (#[trigger] scored@[j]).index as int,
                ) by {
                    if j < k - 1 {
                        assert(has_index(kept0, scored@[j].index as int));
                        let w = choose|w: int|
                            0 <= w < kept0.len() && kept0[w].index == scored@[j].index as int;
                        assert(kept@[w].index == scored@[j].index);
                    }
                }
                if k < scored.len() {
                    assert(scored@[k - 1].index < scored@[k as int].index);
                }
                assert forall|a: int, b: int| 0 <= a < b < kept.len() implies kept@[a].index
                    < kept@[b].index by {
                    if b == kept0.len() && a < kept0.len() - 1 {
                        assert(kept0[a].index < kept0[kept0.len() - 1].index);
                    }
                }
            }
        }
        assert forall|a: int, b: int| 0 <= a < b < kept@.len() implies kept@[a].index
            != kept@[b].index by {
            assert(kept@[a].index < kept@[b].index);
        }
        let order = sort_ranks(&kept, 0, kept.len());
        assert(kept@.subrange(0, kept@.len() as int) =~= kept@);
        self.matches = indices(&order);
        self.selected = 0;
        proof {
            assert forall|j: int| 0 <= j < order@.len() implies (#[trigger] order@[j]) == entry_rank(
                all,
                query,
                recent@,
                order@[j].index as int,
            ) && listed(all, query, order@[j].index as int) by {
                assert(order@.contains(order@[j]));
                assert(kept@.contains(order@[j]));
                let w = choose|w: int| 0 <= w < kept@.len() && kept@[w] == order@[j];
                assert(scored@.contains(kept@[w]));
                let v = choose|v: int| 0 <= v < scored@.len() && scored@[v] == kept@[w];
                assert(scored@[v].index < entries.len());
            }
            assert forall|i: int| listed(all, query, i) <==> #[trigger] self.matches@.contains(
                i as usize,
            ) && 0 <= i <= usize::MAX by {
                if listed(all, query, i) {
                    assert(entry_match(all, query, i) is Some);
                    assert(has_index(scored@, i));
                    let v = choose|v: int| 0 <= v < scored@.len() && scored@[v].index == i;
                    assert(scored@[v].index == i);
                    assert(has_index(kept@, i));
                    let w = choose|w: int| 0 <= w < kept@.len() && kept@[w].index == i;
                    assert(kept@.contains(kept@[w]));
                    assert(order@.contains(kept@[w]));
                    let j = choose|j: int| 0 <= j < order@.len() && order@[j] == kept@[w];
                    assert(self.matches@[j] == i as usize);
                }
                if self.matches@.contains(i as usize) && 0 <= i <= usize::MAX {
                    let j = choose|j: int|
                        0 <= j < self.matches@.len() && self.matches@[j] == i as usize;
                    assert(order@[j].index == i);
                }
            }
            assert forall|a: int, b: int| 0 <= a < b < self.matches@.len() implies comes_before(
                entry_rank(all, query, recent@, self.matches@[a] as int),
                entry_rank(all, query, recent@, self.matches@[b] as int),
            ) by {
                assert(comes_before(order@[a], order@[b]));
            }
        }
    }

    /// List `n` entries, recent ones first.
    fn list_recent(&mut self, n: usize, recent: &Vec<Option<usize>>)
        requires
            old(self).query@.len() == 0,
        ensures
            forall|entries: Seq<Seq<char>>|
                entries.len() == n ==> lists(
                    final(self).matches@,
                    entries,
                    Seq::empty(),
                    recent@,
                ),
            final(self).selected == if old(self).selected < final(self).matches@.len() {
                old(self).selected
            } else if final(self).matches@.len() > 0 {
                (final(self).matches@.len() - 1) as usize
            } else {
                0
            },
            final(self).same_cache(old(self)),
            final(self).active == old(self).active,
            final(self).query == old(self).query,
            final(self).cursor == old(self).cursor,
            final(self).anchor == old(self).anchor,
            final(self).checked == old(self).checked,
    {
        let mut all: Vec<Rank> = Vec::new();
        let mut i: usize = 0;
        while i < n
            invariant
                i <= n,
                all.len() == i,
                forall|k: int|
                    0 <= k < i ==> #[trigger] all@[k] == recent_key(rank_of(recent@, k), k),
            decreases n - i,
        {
            let rank: Rank = match recent_rank(recent, i) {
                Some(r) => Rank { score: 1, len: r, index: i },
                None => Rank { score: 0, len: 0, index: i },
            };
            all.push(rank);
            i = i + 1;
        }
        assert(distinct_indices(all@));
        let order = sort_ranks(&all, 0, n);
        assert(all@.subrange(0, n as int) =~= all@);
        self.matches = indices(&order);
        if self.selected >= self.matches.len() {
            self.selected = if self.matches.len() > 0 {
                self.matches.len() - 1
            } else {
                0
            };
        }
        proof {
            assert forall|j: int| 0 <= j < order@.len() implies (#[trigger] order@[j]) == recent_key(
                rank_of(recent@, order@[j].index as int),
                order@[j].index as int,
            ) && order@[j].index < n by {
                assert(order@.contains(order@[j]));
                let w = choose|w: int| 0 <= w < all@.len() && all@[w] == order@[j];
                assert(all@[w] == recent_key(rank_of(recent@, w), w));
            }
            assert forall|i: int| 0 <= i < n <==> #[trigger] self.matches@.contains(i as usize) && 0
                <= i <= usize::MAX by {
                if 0 <= i < n {
                    assert(all@.contains(all@[i]));
                    assert(order@.contains(all@[i]));
                    let j = choose|j: int| 0 <= j < order@.len() && order@[j] == all@[i];
                    assert(self.matches@[j] == i as usize);
                }
                if self.matches@.contains(i as usize) && 0 <= i <= usize::MAX {
                    let j = choose|j: int|
                        0 <= j < self.matches@.len() && self.matches@[j] == i as usize;
                    assert(order@[j].index == i);
                }
            }
            assert forall|a: int, b: int| 0 <= a < b < self.matches@.len() implies recent_before(
                recent@,
                self.matches@[a] as int,
                self.matches@[b] as int,
            ) by {
                assert(comes_before(order@[a], order@[b]));
            }
        }
    }

    /// Move the selection up, wrapping from the first result to the last.
    pub fn move_up(&mut self)
        ensures
            final(self).selected == row_above(
                old(self).selected as int,
                old(self).matches@.len() as int,
            ),
            final(self).matches == old(self).matches,
            final(self).active == old(self).active,
            final(self).query == old(self).query,
            final(self).cursor == old(self).cursor,
            final(self).anchor == old(self).anchor,
            final(self).checked == old(self).checked,
            final(self).same_cache(old(self)),
    {
        if self.matches.len() == 0 {
            return;
        }
        self.selected = if self.selected == 0 {
            self.matches.len() - 1
        } else {
            self.selected - 1
        };
    }

    /// Move the selection down, wrapping from the last result to the first.
    pub fn move_down(&mut self)
        requires
            old(self).matches@.len() > 0 ==> old(self).selected < usize::MAX,
        ensures
            final(self).selected == row_below(
                old(self).selected as int,
                old(self).matches@.len() as int,
            ),
            final(self).matches == old(self).matches,
            final(self).active == old(self).active,
            final(self).query == old(self).query,
            final(self).cursor == old(self).cursor,
            final(self).anchor == old(self).anchor,
            final(self).checked == old(self).checked,
            final(self).same_cache(old(self)),
    {
        if self.matches.len() == 0 {
            return;
        }
        self.selected = (self.selected + 1) % self.matches.len();
    }

    /// The entry that is highlighted, if any.
    pub fn selected_source(&self) -> (r: Option<usize>)
        ensures
            r == if self.selected < self.matches@.len() {
                Some(self.matches@[self.selected as int])
            } else {
                None
            },
    {
        if self.selected < self.matches.len() {
            Some(self.matches[self.selected])
        } else {
            None
        }
    }
}

/// Some rank of the list has index `i`.
spec fn has_index(s: Seq<Rank>, i: int) -> bool {
    exists|k: int| 0 <= k < s.len() && (#[trigger] s[k]).index == i
}

/// What a list without a query is ordered by.
spec fn recent_key(rank: Option<usize>, i: int) -> Rank {
    match rank {
        Some(r) => Rank { score: 1, len: r, index: i as usize },
        None => Rank { score: 0, len: 0, index: i as usize },
    }
}

/// A match as `fuzzy_score` hands it out.
pub open spec fn scored_as(r: Option<(i64, Vec<usize>)>, m: Option<Match>) -> bool {
    match (r, m) {
        (Some((score, covered)), Some(w)) => {
            &&& score == w.score
            &&& ascending(covered@)
            &&& members(covered@) == w.covered
        },
        (None, None) => true,
        _ => false,
    }
}

/// How `query` scores in `text`, and what it covers.
pub open spec fn score_of(query: Seq<char>, text: Seq<char>) -> Option<Match> {
    if query.len() == 0 {
        Some(Match { score: 0, covered: Set::empty(), label: true })
    } else {
        item_match(text, prepared_of(text), query, false)
    }
}

/// The places in `text` that `query` matches. A query with a slash is held
/// against the whole path.
pub open spec fn positions_of(query: Seq<char>, text: Seq<char>) -> Set<int> {
    if query.len() == 0 {
        Set::empty()
    } else {
        match item_match(text, prepared_of(text), query, query.contains('/')) {
            Some(m) => m.covered,
            None => Set::empty(),
        }
    }
}

/// A query without a slash is marked where it scores, and nowhere when it does
/// not match or is empty.
pub proof fn law_positions_are_those_of_the_score(query: Seq<char>, text: Seq<char>)
    requires
        !query.contains('/'),
    ensures
        positions_of(query, text) == match score_of(query, text) {
            Some(m) => m.covered,
            None => Set::empty(),
        },
        query.len() == 0 ==> positions_of(query, text) == Set::<int>::empty(),
{
}

/// Score `query` in `text` and say what it covers; `None` when it does not
/// match. An empty query scores everything equally.
pub fn fuzzy_score(query: &str, text: &str) -> (r: Option<(i64, Vec<usize>)>)
    requires
        searchable(query@, text@.len() as int),
    ensures
        scored_as(r, score_of(query@, text@)),
        r matches Some((score, _)) ==> 0 <= score < 0x4000_0000_0000_0000,
{
    if query.is_empty() {
        let none: Vec<usize> = Vec::new();
        assert(members(none@) =~= Set::empty());
        return Some((0, none));
    }
    let prepared = Prepared::new(text);
    match score_item(text, &prepared, query, false) {
        Some((s, p, _)) => Some((s, p)),
        None => None,
    }
}

/// The places in `text` (a relative path) that `query` matches.
pub fn fuzzy_positions(query: &str, text: &str) -> (r: Vec<usize>)
    requires
        searchable(query@, text@.len() as int),
    ensures
        ascending(r@),
        members(r@) == positions_of(query@, text@),
{
    let none: Vec<usize> = Vec::new();
    assert(members(none@) =~= Set::empty());
    if query.is_empty() {
        return none;
    }
    let prepared = Prepared::new(text);
    match score_item(text, &prepared, query, has_slash(query)) {
        Some((_, p, _)) => p,
        None => none,
    }
}

/// Whether a query of `q` characters can be scored against a text of `t`.
pub fn table_fits(q: usize, t: usize) -> (r: bool)
    ensures
        r == fits_table(q as int, t as int),
{
    let most: usize = isize::MAX as usize / 8;
    if t == 0 {
        assert(q * t == 0) by (nonlinear_arith)
            requires
                t == 0,
        ;
        return true;
    }
    assert(8 * (q * t) <= isize::MAX <==> q * t <= most);
    assert(q * t <= most <==> q <= most / t) by (nonlinear_arith)
        requires
            t > 0,
    ;
    q <= most / t
}

/// Whether the query can be scored against a text.
pub fn can_score(query: &str, text: &str) -> (r: bool)
    ensures
        r == searchable(query@, text@.len() as int),
{
    let q: usize = char_len(query);
    let t: usize = char_len(text);
    q as u64 <= u32::MAX as u64 && table_fits(q, t)
}

/// Whether a query can be held against every one of these texts.
pub fn can_score_all(query: &str, entries: &Vec<String>) -> (r: bool)
    ensures
        r == all_searchable(texts(entries@), query@),
{
    let mut i: usize = 0;
    let ghost all = texts(entries@);
    while i < entries.len()
        invariant
            i <= entries@.len(),
            all == texts(entries@),
            forall|k: int|
                0 <= k < i ==> searchable(query@, (#[trigger] all[k]).len() as int),
        decreases entries.len() - i,
    {
        if !can_score(query, entries[i].as_str()) {
            assert(!searchable(query@, all[i as int].len() as int));
            return false;
        }
        i = i + 1;
    }
    true
}

/// Better matches come first: no file of the list has a lower score than one below
/// it, and of two with the same score the shorter path comes first. With nothing
/// typed a recently used file comes before all that were not used, and before those
/// that were used longer ago.
pub proof fn law_better_matches_come_first(
    matches: Seq<usize>,
    entries: Seq<Seq<char>>,
    query: Seq<char>,
    recent: Seq<Option<usize>>,
    a: int,
    b: int,
)
    requires
        lists(matches, entries, query, recent),
        0 <= a < b < matches.len(),
    ensures
        query.len() > 0 ==> ({
            let x = entry_rank(entries, query, recent, matches[a] as int);
            let y = entry_rank(entries, query, recent, matches[b] as int);
            x.score >= y.score && (x.score == y.score ==> x.len <= y.len)
        }),
        query.len() == 0 ==> ({
            let x = rank_of(recent, matches[a] as int);
            let y = rank_of(recent, matches[b] as int);
            &&& y is Some ==> x is Some && x->0 <= y->0
            &&& x is None && y is None ==> matches[a] < matches[b]
        }),
{
    if query.len() > 0 {
        assert(comes_before(
            entry_rank(entries, query, recent, matches[a] as int),
            entry_rank(entries, query, recent, matches[b] as int),
        ));
    } else {
        assert(recent_before(recent, matches[a] as int, matches[b] as int));
    }
}

} // verus!
