//! Fuzzy scoring: how well a query matches a name.
//!
//! The characters of the query have to occur in the name in order. Runs,
//! matching case, starts of words and humps of camel case score more.

use crate::buffer::moves::lemma_fwd_while;
use crate::buffer::state::fwd_while;
use crate::chars::{char_is_uppercase, char_is_whitespace};
use crate::paths::part_start;
use crate::strings::{
    chars_of, eq_ignore_case, lowercase, same_but_case, text_lowercase, text_of,
};
use vstd::prelude::*;

verus! {

pub const PATH_IDENTITY_SCORE: i64 = 0x40000;

pub const LABEL_PREFIX_SCORE_THRESHOLD: i64 = 0x20000;

pub const LABEL_SCORE_THRESHOLD: i64 = 0x10000;

/// Whether `c` separates the parts of a path.
pub open spec fn path_sep(c: char) -> bool {
    c == '/' || c == '\\'
}

/// What it is worth to follow `prev`.
pub open spec fn bonus_after(prev: char) -> int {
    if path_sep(prev) {
        5
    } else if prev == '_' || prev == '-' || prev == '.' || prev == ' ' || prev == '\'' || prev
        == '"' || prev == ':' {
        4
    } else {
        0
    }
}

/// A text with its lower-case form, which has no fewer characters.
#[verifier::ext_equal]
pub struct Cased {
    pub text: Seq<char>,
    pub lower: Seq<char>,
}

impl Cased {
    pub open spec fn wf(self) -> bool {
        self.lower.len() >= self.text.len()
    }
}

/// What a query character scores at position `ti` of the name, behind a run of
/// `run` matches: nothing unless they are the same letter.
pub open spec fn char_score(q_char: char, q_lower: char, t: Cased, ti: int, run: int) -> int {
    let same = q_lower == t.lower[ti] || (path_sep(q_lower) && path_sep(t.lower[ti]));
    if !same {
        0
    } else {
        let in_run = if run > 0 {
            (if run < 3 {
                run
            } else {
                3
            }) * 6 + (if run > 3 {
                run - 3
            } else {
                0
            }) * 3
        } else {
            0
        };
        let case = if q_char == t.text[ti] {
            1int
        } else {
            0
        };
        let place = if ti == 0 {
            8
        } else if bonus_after(t.text[ti - 1]) != 0 {
            bonus_after(t.text[ti - 1])
        } else if char_is_uppercase(t.text[ti]) && run == 0 {
            2
        } else {
            0
        };
        1 + in_run + case + place
    }
}

/// The best score of the query up to its character `qi` in the name up to its
/// position `ti`, and how long a run of matches ends just there (0 when the
/// last of those characters is matched earlier).
pub open spec fn best(q: Cased, t: Cased, qi: int, ti: int) -> (int, int)
    decreases ti + 1,
{
    if qi < 0 || ti < 0 {
        (0, 0)
    } else {
        let left = best(q, t, qi, ti - 1).0;
        let (diag, run) = best(q, t, qi - 1, ti - 1);
        let s = if diag == 0 && qi > 0 {
            0
        } else {
            char_score(q.text[qi], q.lower[qi], t, ti, run)
        };
        if s != 0 && diag + s >= left {
            (diag + s, run + 1)
        } else {
            (left, 0)
        }
    }
}

/// Where the characters of the query up to `qi` are matched in the name up to
/// `ti`.
pub open spec fn matched(q: Cased, t: Cased, qi: int, ti: int) -> Seq<int>
    decreases ti + 1,
{
    if qi < 0 || ti < 0 {
        Seq::empty()
    } else if best(q, t, qi, ti).1 == 0 {
        matched(q, t, qi, ti - 1)
    } else {
        matched(q, t, qi - 1, ti - 1).push(ti)
    }
}

/// The score of a query in a name; 0 when it does not match.
pub open spec fn fuzzy(q: Cased, t: Cased) -> int {
    if q.text.len() == 0 || t.text.len() < q.text.len() {
        0
    } else {
        best(q, t, q.text.len() - 1, t.text.len() - 1).0
    }
}

/// Where the query is matched in the name.
pub open spec fn fuzzy_places(q: Cased, t: Cased) -> Seq<int> {
    if q.text.len() == 0 || t.text.len() < q.text.len() {
        Seq::empty()
    } else {
        matched(q, t, q.text.len() - 1, t.text.len() - 1)
    }
}

/// A table of scores, eight bytes each, for a query of `ql` characters and a
/// name of `tl` can be addressed.
pub open spec fn fits_table(ql: int, tl: int) -> bool {
    8 * (ql * tl) <= isize::MAX
}

/// No score of a query's first `k` characters is greater.
pub open spec fn score_bound(k: int) -> int {
    28 * k + 2 * (k * k)
}

/// Scores are never negative and stay below a bound; runs are no longer than
/// what is matched; a score of more than nothing goes with a match of every
/// character.
pub proof fn lemma_best(q: Cased, t: Cased, qi: int, ti: int)
    requires
        -1 <= qi,
        -1 <= ti,
    ensures
        0 <= best(q, t, qi, ti).0 <= score_bound(qi + 1),
        0 <= best(q, t, qi, ti).1 <= qi + 1,
        best(q, t, qi, ti).1 > 0 ==> best(q, t, qi, ti).0 > 0,
    decreases ti + 1,
{
    assert((qi + 1) * (qi + 1) >= 0) by (nonlinear_arith);
    if qi >= 0 && ti >= 0 {
        lemma_best(q, t, qi, ti - 1);
        lemma_best(q, t, qi - 1, ti - 1);
        assert((qi + 1) * (qi + 1) == qi * qi + 2 * qi + 1) by (nonlinear_arith);
    }
}

/// The name has, at `p`, the letter `c` of the query (or another separator).
pub open spec fn same_letter(c: char, d: char) -> bool {
    c == d || (path_sep(c) && path_sep(d))
}

/// The places where a query is matched lie in the name, one behind the other,
/// and where the score is more than nothing every character of the query has
/// one, with the same letter.
pub proof fn lemma_matched(q: Cased, t: Cased, qi: int, ti: int)
    requires
        -1 <= qi < q.text.len(),
        -1 <= ti < t.text.len(),
    ensures
        ({
            let m = matched(q, t, qi, ti);
            &&& m.len() <= qi + 1
            &&& forall|i: int| 0 <= i < m.len() ==> 0 <= #[trigger] m[i] <= ti
            &&& forall|i: int, j: int| 0 <= i < j < m.len() ==> m[i] < m[j]
            &&& (best(q, t, qi, ti).0 > 0 || qi == -1) ==> m.len() == qi + 1
            &&& m.len() == qi + 1 ==> forall|i: int|
                0 <= i < m.len() ==> same_letter(q.lower[i], t.lower[#[trigger] m[i]])
        }),
    decreases ti + 1,
{
    if qi >= 0 && ti >= 0 {
        let m = matched(q, t, qi, ti);
        lemma_best(q, t, qi - 1, ti - 1);
        if best(q, t, qi, ti).1 == 0 {
            lemma_matched(q, t, qi, ti - 1);
        } else {
            lemma_matched(q, t, qi - 1, ti - 1);
            let front = matched(q, t, qi - 1, ti - 1);
            assert forall|i: int, j: int| 0 <= i < j < m.len() implies m[i] < m[j] by {
                if j == front.len() {
                    assert(front[i] <= ti - 1);
                }
            }
            if m.len() == qi + 1 {
                assert forall|i: int| 0 <= i < m.len() implies same_letter(
                    q.lower[i],
                    t.lower[#[trigger] m[i]],
                ) by {
                    if i < front.len() {
                        assert(m[i] == front[i]);
                    }
                }
            }
        }
    }
}

fn is_path_sep(c: char) -> (r: bool)
    ensures
        r == path_sep(c),
{
    c == '/' || c == '\\'
}

/// The bonus for a query character that lands right after a separator.
fn separator_bonus(prev: char) -> (r: i64)
    ensures
        r == bonus_after(prev),
{
    if is_path_sep(prev) {
        5
    } else if prev == '_' || prev == '-' || prev == '.' || prev == ' ' || prev == '\'' || prev
        == '"' || prev == ':' {
        4
    } else {
        0
    }
}

/// What one query character scores at one place.
fn compute_char_score(
    q_char: char,
    q_lower: char,
    target: &Vec<char>,
    target_lower: &Vec<char>,
    ti: usize,
    seq_len: i64,
) -> (r: i64)
    requires
        ti < target.len() <= target_lower.len(),
        0 <= seq_len < 0x1000_0000_0000_0000,
    ensures
        r == char_score(
            q_char,
            q_lower,
            Cased { text: target@, lower: target_lower@ },
            ti as int,
            seq_len as int,
        ),
{
    if q_lower != target_lower[ti] && !(is_path_sep(q_lower) && is_path_sep(target_lower[ti])) {
        return 0;
    }
    let mut score: i64 = 1;
    if seq_len > 0 {
        let few: i64 = if seq_len < 3 {
            seq_len
        } else {
            3
        };
        let more: i64 = if seq_len > 3 {
            seq_len - 3
        } else {
            0
        };
        score = score + (few * 6 + more * 3);
    }
    if q_char == target[ti] {
        score = score + 1;
    }
    if ti == 0 {
        score = score + 8;
    } else {
        let sep: i64 = separator_bonus(target[ti - 1]);
        if sep != 0 {
            score = score + sep;
        } else if target[ti].is_uppercase() && seq_len == 0 {
            score = score + 2;
        }
    }
    score
}

/// Cell `(qi, ti)` of a table with rows of `tl` cells is one of its cells, and
/// the table is as large as `fits_table` says.
proof fn lemma_cell(qi: int, ti: int, ql: int, tl: int)
    requires
        0 <= qi < ql,
        0 <= ti < tl,
        fits_table(ql, tl),
    ensures
        0 <= qi * tl + ti < ql * tl,
        ql * tl <= 0x1000_0000_0000_0000,
        (qi + 1) * tl == qi * tl + tl,
        (qi + 1) * tl <= ql * tl,
        qi > 0 ==> qi * tl - tl + ti - 1 == (qi - 1) * tl + (ti - 1),
{
    assert(0 <= qi * tl + ti < ql * tl && (qi + 1) * tl == qi * tl + tl && (qi + 1) * tl <= ql * tl)
        by (nonlinear_arith)
        requires
            0 <= qi < ql,
            0 <= ti < tl,
    ;
    assert((qi - 1) * tl == qi * tl - tl) by (nonlinear_arith);
}

/// The bound on scores fits in an `i64` where the table does.
proof fn lemma_bound_small(k: int, ql: int, tl: int)
    requires
        0 <= k <= ql <= tl,
        fits_table(ql, tl),
    ensures
        0 <= score_bound(k) < 0x3000_0000_0000_0000,
        k <= 0x4000_0000,
{
    assert(k * k <= ql * tl && 0 <= k * k) by (nonlinear_arith)
        requires
            0 <= k <= ql <= tl,
    ;
    assert(k <= 0x4000_0000) by (nonlinear_arith)
        requires
            k * k <= 0x1000_0000_0000_0000,
            0 <= k,
    ;
}

/// The score of a query in a name, and where its characters are matched.
pub(crate) fn score_fuzzy(
    target: &Vec<char>,
    target_lower: &Vec<char>,
    query: &Vec<char>,
    query_lower: &Vec<char>,
) -> (r: (i64, Vec<usize>))
    requires
        target.len() <= target_lower.len(),
        query.len() <= query_lower.len(),
        fits_table(query@.len() as int, target@.len() as int),
    ensures
        ({
            let t = Cased { text: target@, lower: target_lower@ };
            let q = Cased { text: query@, lower: query_lower@ };
            &&& r.0 == fuzzy(q, t)
            &&& places(r.1@) == fuzzy_places(q, t)
        }),
{
    let ghost t = Cased { text: target@, lower: target_lower@ };
    let ghost q = Cased { text: query@, lower: query_lower@ };
    let tl: usize = target.len();
    let ql: usize = query.len();
    if tl == 0 || ql == 0 || tl < ql {
        assert(places(Seq::<usize>::empty()) =~= Seq::empty());
        return (0, Vec::new());
    }
    proof {
        lemma_cell(ql - 1, tl - 1, ql as int, tl as int);
        assert((ql - 1) * tl + tl == ql * tl) by (nonlinear_arith);
    }
    let size: usize = ql * tl;
    let mut scores: Vec<i64> = Vec::new();
    let mut runs: Vec<i64> = Vec::new();
    let mut qi: usize = 0;
    while qi < ql
        invariant
            qi <= ql <= tl,
            tl > 0,
            tl == target.len() <= target_lower.len(),
            ql == query.len() <= query_lower.len(),
            t == (Cased { text: target@, lower: target_lower@ }),
            q == (Cased { text: query@, lower: query_lower@ }),
            fits_table(ql as int, tl as int),
            scores.len() == qi * tl,
            runs.len() == qi * tl,
            forall|a: int, b: int|
                0 <= a < qi && 0 <= b < tl ==> filled(
                    scores@,
                    runs@,
                    tl as int,
                    a,
                    b,
                    #[trigger] best(q, t, a, b),
                ),
        decreases ql - qi,
    {
        let mut ti: usize = 0;
        proof {
            lemma_cell(qi as int, 0, ql as int, tl as int);
        }
        let q_off: usize = qi * tl;
        while ti < tl
            invariant
                ti <= tl,
                qi < ql <= tl,
                tl == target.len() <= target_lower.len(),
                ql == query.len() <= query_lower.len(),
                t == (Cased { text: target@, lower: target_lower@ }),
                q == (Cased { text: query@, lower: query_lower@ }),
                fits_table(ql as int, tl as int),
                q_off == qi * tl,
                scores.len() == qi * tl + ti,
                runs.len() == qi * tl + ti,
                forall|a: int, b: int|
                    0 <= b < tl && (0 <= a < qi || (a == qi && b < ti)) ==> filled(
                        scores@,
                        runs@,
                        tl as int,
                        a,
                        b,
                        #[trigger] best(q, t, a, b),
                    ),
            decreases tl - ti,
        {
            proof {
                lemma_cell(qi as int, ti as int, ql as int, tl as int);
                lemma_best(q, t, qi as int, ti as int);
                lemma_best(q, t, qi as int, ti - 1);
                lemma_best(q, t, qi - 1, ti - 1);
                lemma_bound_small(qi as int, ql as int, tl as int);
                lemma_bound_small(qi + 1, ql as int, tl as int);
            }
            let cur: usize = q_off + ti;
            let left: i64 = if ti > 0 {
                assert(filled(scores@, runs@, tl as int, qi as int, ti - 1, best(q, t, qi as int, ti - 1)));
                scores[cur - 1]
            } else {
                0
            };
            let mut diag: i64 = 0;
            let mut run: i64 = 0;
            if qi > 0 && ti > 0 {
                assert(filled(scores@, runs@, tl as int, qi - 1, ti - 1, best(q, t, qi - 1, ti - 1)));
                proof {
                    lemma_cell(qi - 1, ti - 1, ql as int, tl as int);
                }
                let d: usize = q_off - tl + (ti - 1);
                diag = scores[d];
                run = runs[d];
            }
            assert(diag == best(q, t, qi - 1, ti - 1).0 && run == best(q, t, qi - 1, ti - 1).1);
            let s: i64 = if diag == 0 && qi > 0 {
                0
            } else {
                compute_char_score(query[qi], query_lower[qi], target, target_lower, ti, run)
            };
            let ghost scores0 = scores@;
            let ghost runs0 = runs@;
            let ghost cell = best(q, t, qi as int, ti as int);
            if s != 0 && diag + s >= left {
                runs.push(run + 1);
                scores.push(diag + s);
            } else {
                runs.push(0);
                scores.push(left);
            }
            proof {
                assert(scores@ == scores0.push(cell.0 as i64));
                assert forall|a: int, b: int|
                    0 <= b < tl && (0 <= a < qi || (a == qi && b < ti + 1)) implies filled(
                    scores@,
                    runs@,
                    tl as int,
                    a,
                    b,
                    #[trigger] best(q, t, a, b),
                ) by {
                    if !(a == qi && b == ti) {
                        assert(filled(scores0, runs0, tl as int, a, b, best(q, t, a, b)));
                    }
                }
            }
            ti = ti + 1;
        }
        qi = qi + 1;
    }
    // Walk back to recover the positions.
    let mut back: Vec<usize> = Vec::new();
    let mut qn: usize = ql;
    let mut tn: usize = tl;
    let ghost all = matched(q, t, ql - 1, tl - 1);
    assert(rev_places(back@) =~= Seq::empty());
    assert(matched(q, t, ql - 1, tl - 1) + Seq::<int>::empty() =~= all);
    while qn > 0 && tn > 0
        invariant
            qn <= ql <= tl,
            tn <= tl,
            fits_table(ql as int, tl as int),
            scores.len() == ql * tl,
            runs.len() == ql * tl,
            all == matched(q, t, qn - 1, tn - 1) + rev_places(back@),
            forall|a: int, b: int|
                0 <= a < ql && 0 <= b < tl ==> filled(
                    scores@,
                    runs@,
                    tl as int,
                    a,
                    b,
                    #[trigger] best(q, t, a, b),
                ),
        decreases tn,
    {
        proof {
            lemma_cell(qn - 1, tn - 1, ql as int, tl as int);
            assert(filled(scores@, runs@, tl as int, qn - 1, tn - 1, best(q, t, qn - 1, tn - 1)));
        }
        let cur: usize = (qn - 1) * tl + (tn - 1);
        if runs[cur] == 0 {
            tn = tn - 1;
        } else {
            let ghost before = back@;
            back.push(tn - 1);
            proof {
                assert(rev_places(back@) =~= seq![tn - 1] + rev_places(before));
                let front = matched(q, t, qn - 2, tn - 2);
                assert(front.push(tn - 1) + rev_places(before) =~= front + (seq![tn - 1]
                    + rev_places(before)));
            }
            qn = qn - 1;
            tn = tn - 1;
        }
    }
    let mut positions: Vec<usize> = Vec::new();
    let mut i: usize = back.len();
    while i > 0
        invariant
            i <= back.len(),
            positions.len() == back.len() - i,
            forall|k: int|
                0 <= k < positions.len() ==> #[trigger] positions[k] == back[back.len() - 1 - k],
        decreases i,
    {
        i = i - 1;
        positions.push(back[i]);
    }
    proof {
        assert(places(positions@) =~= rev_places(back@));
        assert(matched(q, t, qn - 1, tn - 1) + rev_places(back@) =~= rev_places(back@));
        assert(filled(scores@, runs@, tl as int, ql - 1, tl - 1, best(q, t, ql - 1, tl - 1)));
    }
    (scores[size - 1], positions)
}

/// Positions as numbers.
pub open spec fn places(v: Seq<usize>) -> Seq<int> {
    Seq::new(v.len(), |i: int| v[i] as int)
}

/// Positions as numbers, the last one first.
spec fn rev_places(v: Seq<usize>) -> Seq<int> {
    Seq::new(v.len(), |i: int| v[v.len() - 1 - i] as int)
}

/// The tables hold `cell` at row `a`, column `b`.
spec fn filled(
    scores: Seq<i64>,
    runs: Seq<i64>,
    tl: int,
    a: int,
    b: int,
    cell: (int, int),
) -> bool {
    let k = a * tl + b;
    0 <= k < scores.len() && k < runs.len() && scores[k] == cell.0 && runs[k] == cell.1
}

/// White space.
pub open spec fn blanks() -> spec_fn(char) -> bool {
    |c: char| char_is_whitespace(c)
}

/// Everything but white space.
pub open spec fn solids() -> spec_fn(char) -> bool {
    |c: char| !char_is_whitespace(c)
}

/// The pieces of `s` from `i` on that white space separates.
pub open spec fn pieces_from(s: Seq<char>, i: int) -> Seq<Seq<char>>
    decreases s.len() - i,
{
    let a = fwd_while(s, i, blanks());
    let e = fwd_while(s, a, solids());
    if !(0 <= i <= s.len()) || a >= s.len() {
        Seq::empty()
    } else {
        proof {
            lemma_fwd_while(s, i, blanks());
            lemma_fwd_while(s, a + 1, solids());
        }
        seq![s.subrange(a, e)] + pieces_from(s, e)
    }
}

/// A path made ready for scoring: its characters, those in lower case, and
/// where its last part (the label) starts.
#[verifier::ext_equal]
pub struct PreparedState {
    pub whole: Cased,
    pub label_start: int,
}

/// The path `full` made ready.
pub open spec fn prepared_of(full: Seq<char>) -> PreparedState {
    PreparedState {
        whole: Cased { text: full, lower: text_lowercase(full) },
        label_start: part_start(full, full.len() as int),
    }
}

/// A query with its lower-case form.
pub open spec fn cased(query: Seq<char>) -> Cased {
    Cased { text: query, lower: text_lowercase(query) }
}

/// The label of a path.
pub open spec fn label_of(p: PreparedState) -> Cased {
    Cased { text: p.whole.text.skip(p.label_start), lower: p.whole.lower.skip(p.label_start) }
}

/// A match: its score, the places in the path that it covers, and whether the
/// label alone was enough for it.
#[verifier::ext_equal]
pub struct Match {
    pub score: int,
    pub covered: Set<int>,
    pub label: bool,
}

/// The share of a label of `lab` characters that `q` of them make, in percent
/// and rounded. Four ratios whose exact half falls below it in double
/// precision round down.
pub open spec fn percent(q: int, lab: int) -> int {
    (200 * q + lab) / (2 * lab) - if 40 * q == 23 * lab || 200 * q == 29 * lab || 200 * q == 57
        * lab || 200 * q == 113 * lab {
        1int
    } else {
        0
    }
}

/// What a match of the label is worth beyond its own score: more where the
/// label starts with the query, and then more for a shorter label.
pub open spec fn label_base(q: Cased, lab: Cased) -> int {
    if q.lower.is_prefix_of(lab.lower) {
        LABEL_PREFIX_SCORE_THRESHOLD + percent(q.text.len() as int, lab.text.len() as int)
    } else {
        LABEL_SCORE_THRESHOLD as int
    }
}

/// The places of `v`, each `by` further on.
pub open spec fn shifted(v: Seq<int>, by: int) -> Set<int> {
    Set::new(|x: int| v.contains(x - by))
}

/// How one piece of a query matches a path: its label first, where that is
/// preferred, and the whole path where the label does not match.
pub open spec fn piece_match(p: PreparedState, piece: Seq<char>, prefer_label: bool) -> Option<
    Match,
> {
    let q = cased(piece);
    let lab = label_of(p);
    if prefer_label && fuzzy(q, lab) > 0 {
        Some(
            Match {
                score: label_base(q, lab) + fuzzy(q, lab),
                covered: shifted(fuzzy_places(q, lab), p.label_start),
                label: true,
            },
        )
    } else if fuzzy(q, p.whole) > 0 {
        Some(
            Match {
                score: fuzzy(q, p.whole),
                covered: shifted(fuzzy_places(q, p.whole), 0),
                label: false,
            },
        )
    } else {
        None
    }
}

/// How all of the pieces match: every one has to.
pub open spec fn pieces_match(
    p: PreparedState,
    pieces: Seq<Seq<char>>,
    prefer_label: bool,
) -> Option<Match>
    decreases pieces.len(),
{
    if pieces.len() == 0 {
        Some(Match { score: 0, covered: Set::empty(), label: true })
    } else {
        match (
            pieces_match(p, pieces.drop_last(), prefer_label),
            piece_match(p, pieces.last(), prefer_label),
        ) {
            (Some(a), Some(b)) => Some(
                Match {
                    score: a.score + b.score,
                    covered: a.covered.union(b.covered),
                    label: a.label && b.label,
                },
            ),
            _ => None,
        }
    }
}

/// How a query matches a path: the same text but for case beats everything;
/// otherwise each of its pieces has to match.
pub open spec fn item_match(
    full: Seq<char>,
    p: PreparedState,
    query: Seq<char>,
    by_path: bool,
) -> Option<Match> {
    let pieces = pieces_from(query, 0);
    if same_but_case(query, full) {
        Some(
            Match {
                score: PATH_IDENTITY_SCORE as int,
                covered: Set::new(|x: int| 0 <= x < p.whole.text.len()),
                label: true,
            },
        )
    } else if pieces.len() == 0 {
        None
    } else {
        pieces_match(p, pieces, !by_path)
    }
}

/// Numbers one behind the other.
pub open spec fn ascending(v: Seq<usize>) -> bool {
    forall|i: int, j: int| 0 <= i < j < v.len() ==> v[i] < v[j]
}

/// The numbers of `v`.
pub open spec fn members(v: Seq<usize>) -> Set<int> {
    Set::new(|x: int| places(v).contains(x))
}

/// A match as a function hands it out: the covered places in ascending order.
pub open spec fn shows(r: Option<(i64, Vec<usize>, bool)>, m: Option<Match>) -> bool {
    match (r, m) {
        (Some((score, covered, label)), Some(w)) => {
            &&& score == w.score
            &&& ascending(covered@)
            &&& members(covered@) == w.covered
            &&& label == w.label
        },
        (None, None) => true,
        _ => false,
    }
}

/// A query that can be scored against a name of `len` characters: the table
/// fits, and the scores of its pieces add up.
pub open spec fn searchable(query: Seq<char>, len: int) -> bool {
    fits_table(query.len() as int, len) && query.len() <= u32::MAX
}

/// A candidate's characters, also in lower case, worked out once.
pub struct Prepared {
    pub chars: Vec<char>,
    pub lower: Vec<char>,
    /// Where the file name (as opposed to its folders) begins.
    pub label_start: usize,
}

impl View for Prepared {
    type V = PreparedState;

    open spec fn view(&self) -> PreparedState {
        PreparedState {
            whole: Cased { text: self.chars@, lower: self.lower@ },
            label_start: self.label_start as int,
        }
    }
}

impl Prepared {
    pub open spec fn wf(&self) -> bool {
        self.label_start <= self.chars@.len() <= self.lower@.len()
    }

    /// `full` made ready.
    pub fn new(full: &str) -> (r: Prepared)
        ensures
            r@ == prepared_of(full@),
            r.wf(),
    {
        let chars = chars_of(full);
        let low = lowercase(full);
        let lower = chars_of(low.as_str());
        let mut s: usize = chars.len();
        while s > 0 && chars[s - 1] != '/'
            invariant
                s <= chars.len(),
                chars@ == full@,
                part_start(full@, full@.len() as int) == part_start(full@, s as int),
            decreases s,
        {
            s = s - 1;
        }
        Prepared { chars, lower, label_start: s }
    }
}

fn tail(v: &Vec<char>, from: usize) -> (r: Vec<char>)
    requires
        from <= v.len(),
    ensures
        r@ == v@.skip(from as int),
{
    let mut r: Vec<char> = Vec::new();
    let mut i: usize = from;
    while i < v.len()
        invariant
            from <= i <= v.len(),
            r@ == v@.subrange(from as int, i as int),
        decreases v.len() - i,
    {
        r.push(v[i]);
        i = i + 1;
        assert(v@.subrange(from as int, i as int) =~= v@.subrange(from as int, i - 1).push(
            v@[i - 1],
        ));
    }
    assert(v@.subrange(from as int, i as int) =~= v@.skip(from as int));
    r
}

/// Whether the label starts with the query, both in lower case.
fn starts_with_ci(target_lower: &Vec<char>, query_lower: &Vec<char>) -> (r: bool)
    ensures
        r == query_lower@.is_prefix_of(target_lower@),
{
    if query_lower.len() > target_lower.len() {
        return false;
    }
    let mut i: usize = 0;
    while i < query_lower.len()
        invariant
            i <= query_lower.len() <= target_lower.len(),
            forall|k: int| 0 <= k < i ==> #[trigger] query_lower@[k] == target_lower@[k],
        decreases query_lower.len() - i,
    {
        if query_lower[i] != target_lower[i] {
            assert(target_lower@.subrange(0, query_lower@.len() as int)[i as int]
                != query_lower@[i as int]);
            return false;
        }
        i = i + 1;
    }
    assert(target_lower@.subrange(0, query_lower@.len() as int) =~= query_lower@);
    true
}

/// The share that `q` characters make of a label of `lab`, in percent.
fn prefix_boost(q: usize, lab: usize) -> (r: i64)
    requires
        1 <= q <= lab,
    ensures
        r == percent(q as int, lab as int),
        0 <= r <= 100,
{
    let q: u128 = q as u128;
    let lab: u128 = lab as u128;
    let half_up: u128 = (200 * q + lab) / (2 * lab);
    proof {
        assert((200 * q + lab) / (2 * lab) <= 100) by (nonlinear_arith)
            requires
                1 <= q <= lab,
        ;
        if 40 * q == 23 * lab {
            assert((200 * q + lab) / (2 * lab) >= 1) by (nonlinear_arith)
                requires
                    40 * q == 23 * lab,
                    1 <= q <= lab,
            ;
        }
        if 200 * q == 29 * lab || 200 * q == 57 * lab || 200 * q == 113 * lab {
            assert((200 * q + lab) / (2 * lab) >= 1) by (nonlinear_arith)
                requires
                    200 * q >= 29 * lab,
                    1 <= q <= lab,
            ;
        }
    }
    let low: bool = 40 * q == 23 * lab || 200 * q == 29 * lab || 200 * q == 57 * lab || 200 * q
        == 113 * lab;
    if low {
        half_up as i64 - 1
    } else {
        half_up as i64
    }
}

/// Where a query matches, it is no longer than the name and not empty.
pub proof fn lemma_fuzzy_positive(q: Cased, t: Cased)
    ensures
        fuzzy(q, t) > 0 ==> 1 <= q.text.len() <= t.text.len(),
        0 <= fuzzy(q, t) <= score_bound(q.text.len() as int),
{
    if !(q.text.len() == 0 || t.text.len() < q.text.len()) {
        lemma_best(q, t, q.text.len() - 1, t.text.len() - 1);
    } else {
        assert(q.text.len() * q.text.len() >= 0) by (nonlinear_arith);
    }
}

/// The places of a match are in ascending order and inside the name.
proof fn lemma_fuzzy_places(q: Cased, t: Cased)
    ensures
        forall|i: int, j: int|
            0 <= i < j < fuzzy_places(q, t).len() ==> fuzzy_places(q, t)[i] < fuzzy_places(
                q,
                t,
            )[j],
        forall|i: int|
            0 <= i < fuzzy_places(q, t).len() ==> 0 <= #[trigger] fuzzy_places(q, t)[i]
                < t.text.len(),
{
    if !(q.text.len() == 0 || t.text.len() < q.text.len()) {
        lemma_matched(q, t, q.text.len() - 1, t.text.len() - 1);
    }
}

/// How much one piece of `k` characters can score in a name of `len`.
pub open spec fn piece_bound(k: int, len: int) -> int {
    0x20064 + 28 * k + 2 * (k * len)
}

/// Score one piece of a query against a path.
fn score_piece(prepared: &Prepared, query: &Vec<char>, prefer_label: bool) -> (r: Option<
    (i64, Vec<usize>, bool),
>)
    requires
        prepared.wf(),
        fits_table(query@.len() as int, prepared.chars@.len() as int),
    ensures
        shows(r, piece_match(prepared@, query@, prefer_label)),
        r matches Some((score, _, _)) ==> 0 <= score <= piece_bound(
            query@.len() as int,
            prepared.chars@.len() as int,
        ) && score < 0x4000_0000_0000_0000,
{
    let text = text_of(query, 0, query.len());
    assert(text@ =~= query@);
    let low = lowercase(text.as_str());
    let q_lower = chars_of(low.as_str());
    let ghost q = cased(query@);
    let ghost k = query@.len() as int;
    let ghost n = prepared.chars@.len() as int;
    assert(q =~= Cased { text: query@, lower: q_lower@ });
    if prefer_label {
        let lab = tail(&prepared.chars, prepared.label_start);
        let lab_lower = tail(&prepared.lower, prepared.label_start);
        let ghost l = label_of(prepared@);
        proof {
            assert(k * (lab@.len() as int) <= k * n) by (nonlinear_arith)
                requires
                    0 <= lab@.len() <= n,
                    0 <= k,
            ;
        }
        let (ls, lpos) = score_fuzzy(&lab, &lab_lower, query, &q_lower);
        if ls > 0 {
            proof {
                lemma_fuzzy_positive(q, l);
                lemma_fuzzy_places(q, l);
                lemma_bound_small(k, k, lab@.len() as int);
                assert(k * k <= k * n) by (nonlinear_arith)
                    requires
                        0 <= k <= n,
                ;
            }
            let offset: usize = prepared.label_start;
            let base: i64 = if starts_with_ci(&lab_lower, &q_lower) {
                LABEL_PREFIX_SCORE_THRESHOLD + prefix_boost(query.len(), lab.len())
            } else {
                LABEL_SCORE_THRESHOLD
            };
            let positions = shift_places(&lpos, offset, prepared.chars.len());
            return Some((base + ls, positions, true));
        }
    }
    let (ps, ppos) = score_fuzzy(&prepared.chars, &prepared.lower, query, &q_lower);
    if ps > 0 {
        proof {
            lemma_fuzzy_positive(q, prepared@.whole);
            lemma_fuzzy_places(q, prepared@.whole);
            lemma_bound_small(k, k, n);
            assert(k * k <= k * n) by (nonlinear_arith)
                requires
                    0 <= k <= n,
            ;
        }
        let positions = shift_places(&ppos, 0, prepared.chars.len());
        return Some((ps, positions, false));
    }
    None
}

/// Every place `by` further on.
fn shift_places(v: &Vec<usize>, by: usize, len: usize) -> (r: Vec<usize>)
    requires
        by <= len,
        ascending_ints(places(v@)),
        forall|i: int| 0 <= i < v.len() ==> (#[trigger] places(v@)[i]) + by < len,
    ensures
        ascending(r@),
        members(r@) == shifted(places(v@), by as int),
{
    let mut r: Vec<usize> = Vec::new();
    let mut i: usize = 0;
    while i < v.len()
        invariant
            i <= v.len(),
            by <= len,
            forall|k: int| 0 <= k < v.len() ==> (#[trigger] places(v@)[k]) + by < len,
            r.len() == i,
            forall|k: int| 0 <= k < i ==> #[trigger] r@[k] == places(v@)[k] + by,
        decreases v.len() - i,
    {
        assert(places(v@)[i as int] == v@[i as int]);
        r.push(v[i] + by);
        i = i + 1;
    }
    proof {
        assert forall|x: int, y: int| 0 <= x < y < r@.len() implies r@[x] < r@[y] by {
            assert(places(v@)[x] < places(v@)[y]);
        }
        assert forall|x: int| members(r@).contains(x) <==> shifted(places(v@), by as int).contains(
            x,
        ) by {
            if places(r@).contains(x) {
                let k = choose|k: int| 0 <= k < places(r@).len() && places(r@)[k] == x;
                assert(places(v@)[k] == x - by);
            }
            if places(v@).contains(x - by) {
                let k = choose|k: int| 0 <= k < places(v@).len() && places(v@)[k] == x - by;
                assert(r@[k] == places(v@)[k] + by);
                assert(places(r@)[k] == x);
            }
        }
        assert(members(r@) =~= shifted(places(v@), by as int));
    }
    r
}

/// Numbers one behind the other.
pub open spec fn ascending_ints(v: Seq<int>) -> bool {
    forall|i: int, j: int| 0 <= i < j < v.len() ==> v[i] < v[j]
}

/// The numbers of both lists, in ascending order and each once.
fn join_places(a: &Vec<usize>, b: &Vec<usize>) -> (out: Vec<usize>)
    requires
        ascending(a@),
        ascending(b@),
    ensures
        ascending(out@),
        members(out@) == members(a@).union(members(b@)),
{
    let mut out: Vec<usize> = Vec::new();
    let mut i: usize = 0;
    let mut j: usize = 0;
    while i < a.len() || j < b.len()
        invariant
            i <= a.len(),
            j <= b.len(),
            ascending(a@),
            ascending(b@),
            ascending(out@),
            out.len() > 0 && i < a.len() ==> out@.last() < a@[i as int],
            out.len() > 0 && j < b.len() ==> out@.last() < b@[j as int],
            forall|k: int| 0 <= k < i ==> out@.contains(#[trigger] a@[k]),
            forall|k: int| 0 <= k < j ==> out@.contains(#[trigger] b@[k]),
            forall|k: int|
                0 <= k < out.len() ==> a@.contains(#[trigger] out@[k]) || b@.contains(out@[k]),
        decreases (a.len() - i) + (b.len() - j),
    {
        let ghost before = out@;
        let ghost i0 = i as int;
        let ghost j0 = j as int;
        let take_a: bool = i < a.len() && (j >= b.len() || a[i] <= b[j]);
        let take_b: bool = j < b.len() && (i >= a.len() || b[j] <= a[i]);
        let x: usize = if take_a {
            a[i]
        } else {
            b[j]
        };
        out.push(x);
        if take_a {
            i = i + 1;
        }
        if take_b {
            j = j + 1;
        }
        proof {
            assert(out@[before.len() as int] == x);
            assert forall|p: int, q: int| 0 <= p < q < out@.len() implies out@[p] < out@[q] by {
                if q == before.len() && p < before.len() - 1 {
                    assert(before[p] < before[before.len() - 1]);
                }
            }
            assert forall|k: int| 0 <= k < i implies out@.contains(#[trigger] a@[k]) by {
                if k < i0 {
                    assert(before.contains(a@[k]));
                    let w = choose|w: int| 0 <= w < before.len() && before[w] == a@[k];
                    assert(out@[w] == a@[k]);
                }
            }
            assert forall|k: int| 0 <= k < j implies out@.contains(#[trigger] b@[k]) by {
                if k < j0 {
                    assert(before.contains(b@[k]));
                    let w = choose|w: int| 0 <= w < before.len() && before[w] == b@[k];
                    assert(out@[w] == b@[k]);
                }
            }
            if take_a && i < a.len() {
                assert(a@[i - 1] < a@[i as int]);
            }
            if take_b && j < b.len() {
                assert(b@[j - 1] < b@[j as int]);
            }
        }
    }
    proof {
        assert forall|x: int| members(out@).contains(x) <==> members(a@).union(
            members(b@),
        ).contains(x) by {
            lemma_member(out@, x);
            lemma_member(a@, x);
            lemma_member(b@, x);
            if exists|k: int| 0 <= k < out@.len() && out@[k] == x {
                let k = choose|k: int| 0 <= k < out@.len() && out@[k] == x;
                assert(a@.contains(out@[k]) || b@.contains(out@[k]));
            }
            if exists|k: int| 0 <= k < a@.len() && a@[k] == x {
                let k = choose|k: int| 0 <= k < a@.len() && a@[k] == x;
                assert(out@.contains(a@[k]));
            }
            if exists|k: int| 0 <= k < b@.len() && b@[k] == x {
                let k = choose|k: int| 0 <= k < b@.len() && b@[k] == x;
                assert(out@.contains(b@[k]));
            }
        }
        assert(members(out@) =~= members(a@).union(members(b@)));
    }
    out
}

proof fn lemma_member(v: Seq<usize>, x: int)
    ensures
        members(v).contains(x) <==> exists|k: int| 0 <= k < v.len() && v[k] == x,
{
    if places(v).contains(x) {
        let k = choose|k: int| 0 <= k < places(v).len() && places(v)[k] == x;
        assert(v[k] == x);
    }
    if exists|k: int| 0 <= k < v.len() && v[k] == x {
        let k = choose|k: int| 0 <= k < v.len() && v[k] == x;
        assert(places(v)[k] == x);
    }
}

/// Score a whole path: the same text first, then each piece of the query, all
/// of which have to match. `by_path` matches the path rather than the label.
pub fn score_item(full: &str, prepared: &Prepared, query: &str, by_path: bool) -> (r: Option<
    (i64, Vec<usize>, bool),
>)
    requires
        prepared.wf(),
        searchable(query@, prepared.chars@.len() as int),
    ensures
        shows(r, item_match(full@, prepared@, query@, by_path)),
        r matches Some((score, _, _)) ==> 0 <= score < 0x4000_0000_0000_0000,
{
    let q = chars_of(query);
    let f = chars_of(full);
    let n: usize = prepared.chars.len();
    if eq_ignore_case(&q, &f) {
        let mut all: Vec<usize> = Vec::new();
        let mut i: usize = 0;
        while i < n
            invariant
                i <= n,
                all.len() == i,
                forall|k: int| 0 <= k < i ==> #[trigger] all@[k] == k,
            decreases n - i,
        {
            all.push(i);
            i = i + 1;
        }
        proof {
            assert forall|x: int| members(all@).contains(x) <==> 0 <= x < n by {
                lemma_member(all@, x);
                if 0 <= x < n {
                    assert(all@[x] == x);
                }
            }
            assert(members(all@) =~= Set::new(|x: int| 0 <= x < n as int));
        }
        return Some((PATH_IDENTITY_SCORE, all, true));
    }
    let prefer_label = !by_path;
    let ghost pieces = pieces_from(query@, 0);
    let ghost len = n as int;
    let mut total: i64 = 0;
    let mut covered: Vec<usize> = Vec::new();
    let mut label_match: bool = true;
    let mut any: bool = false;
    let mut i: usize = 0;
    let ghost mut seen: Seq<Seq<char>> = Seq::empty();
    proof {
        assert(members(covered@) =~= Set::empty());
        assert(seen + pieces_from(query@, 0) =~= pieces);
    }
    while i < q.len()
        invariant
            i <= q.len(),
            q@ == query@,
            prepared.wf(),
            n == prepared.chars@.len(),
            len == n,
            searchable(query@, len),
            pieces == seen + pieces_from(query@, i as int),
            any == (seen.len() > 0),
            shows(
                Some((total, covered, label_match)),
                pieces_match(prepared@, seen, prefer_label),
            ),
            0 <= total <= i * 0x20080 + 2 * (i * len),
            pieces == pieces_from(query@, 0),
            prefer_label == !by_path,
            !same_but_case(query@, full@),
        decreases q.len() - i,
    {
        let ghost i0 = i as int;
        let mut a: usize = i;
        while a < q.len() && q[a].is_whitespace()
            invariant
                i0 <= a <= q.len(),
                q@ == query@,
                fwd_while(query@, i0, blanks()) == fwd_while(query@, a as int, blanks()),
            decreases q.len() - a,
        {
            a = a + 1;
        }
        let mut e: usize = a;
        while e < q.len() && !q[e].is_whitespace()
            invariant
                a <= e <= q.len(),
                q@ == query@,
                fwd_while(query@, a as int, solids()) == fwd_while(query@, e as int, solids()),
            decreases q.len() - e,
        {
            e = e + 1;
        }
        if a >= q.len() {
            proof {
                assert(pieces =~= seen);
            }
            i = q.len();
            proof {
                assert(i0 * 0x20080 <= i * 0x20080 && i0 * len <= i * len) by (nonlinear_arith)
                    requires
                        0 <= i0 <= i,
                        0 <= len,
                ;
                assert(fwd_while(query@, i as int, blanks()) == i);
                assert(pieces_from(query@, i as int) =~= Seq::empty());
                assert(seen + pieces_from(query@, i as int) =~= seen);
            }
        } else {
            assert(e > a) by {
                assert(solids()(query@[a as int]));
                lemma_fwd_while(query@, a + 1, solids());
            }
            let piece = sub_vec(&q, a, e);
            proof {
                assert(piece@ =~= query@.subrange(a as int, e as int));
                assert((e - a) * len <= query@.len() * len) by (nonlinear_arith)
                    requires
                        0 <= e - a <= query@.len(),
                        0 <= len,
                ;
                lemma_totals(i0, a as int, e as int, query@.len() as int, len);
            }
            let ghost seen1 = seen.push(piece@);
            proof {
                assert(seen1.drop_last() =~= seen);
                assert(pieces =~= seen1 + pieces_from(query@, e as int));
            }
            match score_piece(prepared, &piece, prefer_label) {
                None => {
                    proof {
                        lemma_pieces_none(
                            prepared@,
                            seen1,
                            pieces_from(query@, e as int),
                            prefer_label,
                        );
                    }
                    return None;
                },
                Some((s, p, lm)) => {
                    total = total + s;
                    covered = join_places(&covered, &p);
                    label_match = label_match && lm;
                    any = true;
                    proof {
                        seen = seen1;
                    }
                },
            }
            i = e;
        }
    }
    proof {
        assert(fwd_while(query@, i as int, blanks()) == i);
        assert(pieces_from(query@, i as int) =~= Seq::empty());
        assert(pieces =~= seen);
        lemma_totals(i as int, i as int, i as int, query@.len() as int, len);
    }
    if !any {
        return None;
    }
    Some((total, covered, label_match))
}

fn sub_vec(v: &Vec<char>, from: usize, to: usize) -> (r: Vec<char>)
    requires
        from <= to <= v.len(),
    ensures
        r@ == v@.subrange(from as int, to as int),
{
    let mut r: Vec<char> = Vec::new();
    let mut i: usize = from;
    while i < to
        invariant
            from <= i <= to <= v.len(),
            r@ == v@.subrange(from as int, i as int),
        decreases to - i,
    {
        r.push(v[i]);
        i = i + 1;
        assert(v@.subrange(from as int, i as int) =~= v@.subrange(from as int, i - 1).push(
            v@[i - 1],
        ));
    }
    r
}

/// The scores of the pieces add up.
proof fn lemma_totals(i: int, a: int, e: int, q: int, len: int)
    requires
        0 <= i <= a <= e <= q <= u32::MAX,
        0 <= len,
        fits_table(q, len),
    ensures
        e > a ==> i * 0x20080 + 2 * (i * len) + piece_bound(e - a, len) <= e * 0x20080 + 2 * (e
            * len),
        0 <= e * 0x20080 + 2 * (e * len) < 0x4000_0000_0000_0000,
        0 <= i * 0x20080 + 2 * (i * len) < 0x4000_0000_0000_0000,
{
    assert(e * len <= q * len && i * len <= q * len && 0 <= e * len && 0 <= i * len)
        by (nonlinear_arith)
        requires
            0 <= i <= e <= q,
            0 <= len,
    ;
    if e > a {
        assert(i * len + (e - a) * len <= e * len) by (nonlinear_arith)
            requires
                0 <= i <= a <= e,
                0 <= len,
        ;
    }
}

/// A query matches nothing once one of its pieces does not.
proof fn lemma_pieces_none(
    p: PreparedState,
    front: Seq<Seq<char>>,
    rest: Seq<Seq<char>>,
    prefer_label: bool,
)
    requires
        pieces_match(p, front, prefer_label) is None,
    ensures
        pieces_match(p, front + rest, prefer_label) is None,
    decreases rest.len(),
{
    if rest.len() > 0 {
        lemma_pieces_none(p, front, rest.drop_last(), prefer_label);
        assert((front + rest).drop_last() =~= front + rest.drop_last());
    } else {
        assert(front + rest =~= front);
    }
}

/// Whether the letters of the query up to `qi` occur in the name at `at`, one
/// behind the other and no further than `ti`.
pub open spec fn spells(q: Cased, t: Cased, qi: int, ti: int, at: Seq<int>) -> bool {
    &&& at.len() == qi + 1
    &&& forall|i: int| 0 <= i < at.len() ==> 0 <= #[trigger] at[i] <= ti
    &&& forall|i: int, j: int| 0 <= i < j < at.len() ==> at[i] < at[j]
    &&& forall|i: int| 0 <= i < at.len() ==> same_letter(q.lower[i], t.lower[#[trigger] at[i]])
}

/// A query matches with a score where its letters occur in order.
proof fn lemma_spelled_scores(q: Cased, t: Cased, qi: int, ti: int, at: Seq<int>)
    requires
        0 <= qi < q.text.len(),
        -1 <= ti < t.text.len(),
        spells(q, t, qi, ti, at),
    ensures
        best(q, t, qi, ti).0 > 0,
    decreases ti + 1,
{
    assert(0 <= at[qi] <= ti);
    lemma_best(q, t, qi - 1, ti - 1);
    lemma_best(q, t, qi, ti - 1);
    if at[qi] < ti {
        assert forall|i: int| 0 <= i < at.len() implies 0 <= #[trigger] at[i] <= ti - 1 by {
            if i < qi {
                assert(at[i] < at[qi]);
            }
        }
        lemma_spelled_scores(q, t, qi, ti - 1, at);
    } else {
        let front = at.drop_last();
        assert forall|i: int| 0 <= i < front.len() implies 0 <= #[trigger] front[i] <= ti - 1 by {
            assert(front[i] == at[i]);
            assert(at[i] < at[qi]);
        }
        assert(forall|i: int|
            0 <= i < front.len() ==> same_letter(q.lower[i], t.lower[#[trigger] front[i]])) by {
            assert(forall|i: int| 0 <= i < front.len() ==> #[trigger] front[i] == at[i]);
        }
        if qi > 0 {
            lemma_spelled_scores(q, t, qi - 1, ti - 1, front);
        }
        assert(same_letter(q.lower[qi], t.lower[at[qi]]));
    }
}

/// What is covered spells the query: a place for each of its letters, one behind
/// the other.
pub proof fn law_a_match_spells_the_query(q: Cased, t: Cased)
    requires
        fuzzy(q, t) > 0,
    ensures
        spells(q, t, q.text.len() - 1, t.text.len() - 1, fuzzy_places(q, t)),
{
    lemma_fuzzy_positive(q, t);
    lemma_matched(q, t, q.text.len() - 1, t.text.len() - 1);
}

/// No name that has the letters of the query in order is missed.
pub proof fn law_letters_in_order_match(q: Cased, t: Cased, at: Seq<int>)
    requires
        q.text.len() > 0,
        spells(q, t, q.text.len() - 1, t.text.len() - 1, at),
    ensures
        fuzzy(q, t) > 0,
{
    lemma_room_for_all(at, t.text.len() as int);
    lemma_spelled_scores(q, t, q.text.len() - 1, t.text.len() - 1, at);
}

/// Places one behind the other are no more than there are.
proof fn lemma_room_for_all(at: Seq<int>, n: int)
    requires
        n >= 0,
        forall|i: int| 0 <= i < at.len() ==> 0 <= #[trigger] at[i] < n,
        forall|i: int, j: int| 0 <= i < j < at.len() ==> at[i] < at[j],
    ensures
        at.len() <= n,
    decreases at.len(),
{
    if at.len() > 0 {
        let last = at[at.len() - 1];
        let front = at.drop_last();
        assert forall|i: int| 0 <= i < front.len() implies 0 <= #[trigger] front[i] < last by {
            assert(front[i] == at[i]);
            assert(at[i] < at[at.len() - 1]);
        }
        lemma_room_for_all(front, last);
    }
}

/// A letter is worth more at the start of a name than behind a separator of a path,
/// more there than behind another mark between words, and more there than inside a
/// word; a capital that begins a run lies between. The right case is worth a little,
/// and a letter that goes on with a run is worth more than one that begins one.
pub proof fn law_better_places_are_worth_more(q: char, l: char, t: Cased, ti: int, run: int)
    requires
        0 <= ti < t.text.len(),
        t.wf(),
        0 <= run,
    ensures
        l != t.lower[ti] && !(path_sep(l) && path_sep(t.lower[ti])) ==> char_score(q, l, t, ti, run)
            == 0,
        l == t.lower[ti] ==> {
            let s = char_score(q, l, t, ti, 0);
            let case = if q == t.text[ti] {
                1int
            } else {
                0
            };
            &&& ti == 0 ==> s == 9 + case
            &&& ti > 0 && (t.text[ti - 1] == '/' || t.text[ti - 1] == '\\') ==> s == 6 + case
            &&& ti > 0 && (t.text[ti - 1] == '_' || t.text[ti - 1] == '-' || t.text[ti - 1] == '.'
                || t.text[ti - 1] == ' ') ==> s == 5 + case
            &&& ti > 0 && bonus_after(t.text[ti - 1]) == 0 && char_is_uppercase(t.text[ti]) ==> s
                == 3 + case
            &&& ti > 0 && bonus_after(t.text[ti - 1]) == 0 && !char_is_uppercase(t.text[ti]) ==> s
                == 1 + case
            &&& run > 0 ==> char_score(q, l, t, ti, run) > s
            &&& run > 0 ==> char_score(q, l, t, ti, run + 1) > char_score(q, l, t, ti, run)
        },
{
}

/// Every piece of a query has to match: a path matches exactly when each does, and
/// what is covered is what any of them covers.
pub proof fn law_every_piece_has_to_match(
    p: PreparedState,
    pieces: Seq<Seq<char>>,
    prefer_label: bool,
)
    ensures
        pieces_match(p, pieces, prefer_label) is Some == forall|i: int|
            0 <= i < pieces.len() ==> (#[trigger] piece_match(p, pieces[i], prefer_label)) is Some,
        pieces_match(p, pieces, prefer_label) matches Some(m) ==> forall|x: int| #[trigger]
            m.covered.contains(x) == exists|i: int|
                0 <= i < pieces.len() && (#[trigger] piece_match(
                    p,
                    pieces[i],
                    prefer_label,
                ))->0.covered.contains(x),
    decreases pieces.len(),
{
    if pieces.len() > 0 {
        let f = pieces.drop_last();
        let n = pieces.len() - 1;
        law_every_piece_has_to_match(p, f, prefer_label);
        assert(pieces[n] == pieces.last());
        assert forall|i: int| 0 <= i < n implies f[i] == #[trigger] pieces[i] by {}
        let all = forall|i: int|
            0 <= i < pieces.len() ==> (#[trigger] piece_match(p, pieces[i], prefer_label)) is Some;
        if all {
            assert forall|i: int| 0 <= i < f.len() implies (#[trigger] piece_match(
                p,
                f[i],
                prefer_label,
            )) is Some by {
                assert(piece_match(p, pieces[i], prefer_label) is Some);
            }
            assert(piece_match(p, pieces[n], prefer_label) is Some);
        }
        if pieces_match(p, pieces, prefer_label) is Some {
            let m = pieces_match(p, pieces, prefer_label)->0;
            let a = pieces_match(p, f, prefer_label)->0;
            let b = piece_match(p, pieces.last(), prefer_label)->0;
            assert forall|i: int| 0 <= i < pieces.len() implies (#[trigger] piece_match(
                p,
                pieces[i],
                prefer_label,
            )) is Some by {
                if i < n {
                    assert(piece_match(p, f[i], prefer_label) is Some);
                }
            }
            assert forall|x: int| #[trigger] m.covered.contains(x) == exists|i: int|
                0 <= i < pieces.len() && (#[trigger] piece_match(
                    p,
                    pieces[i],
                    prefer_label,
                ))->0.covered.contains(x) by {
                if a.covered.contains(x) {
                    let i = choose|i: int|
                        0 <= i < f.len() && (#[trigger] piece_match(
                            p,
                            f[i],
                            prefer_label,
                        ))->0.covered.contains(x);
                    assert(piece_match(p, pieces[i], prefer_label)->0.covered.contains(x));
                }
                if b.covered.contains(x) {
                    assert(piece_match(p, pieces[n], prefer_label)->0.covered.contains(x));
                }
                if exists|i: int|
                    0 <= i < pieces.len() && (#[trigger] piece_match(
                        p,
                        pieces[i],
                        prefer_label,
                    ))->0.covered.contains(x) {
                    let i = choose|i: int|
                        0 <= i < pieces.len() && (#[trigger] piece_match(
                            p,
                            pieces[i],
                            prefer_label,
                        ))->0.covered.contains(x);
                    if i < n {
                        assert(piece_match(p, f[i], prefer_label)->0.covered.contains(x));
                    }
                }
            }
        }
    }
}

/// A query that is the path itself but for case beats every other match of it, and
/// covers it all.
pub proof fn law_the_path_itself_matches_best(
    full: Seq<char>,
    p: PreparedState,
    query: Seq<char>,
    by_path: bool,
)
    requires
        same_but_case(query, full),
    ensures
        item_match(full, p, query, by_path) matches Some(m) && m.score == 0x40000 && m.label && (
        forall|x: int| #[trigger] m.covered.contains(x) == (0 <= x < p.whole.text.len())),
{
}

} // verus!
