//! Changing the text: at the one caret, or at every caret in one step.

use crate::buffer::carets::{all_carets, flags_view, lemma_sorted_by, sort_carets};
use crate::buffer::moves::{lemma_installed_wf, lemma_prev_word};
use crate::buffer::state::{
    bare_caret, greatest, plan_at, prev_word, set_down, splice_all, spliced, start_key, with_goals,
    BufferState, CaretAt, EditKind, Flagged, Plan, Splice,
};
use crate::buffer::{Buffer, Caret};
use crate::lines::{col_of, lemma_line_around, lemma_line_of_monotone, line_of, line_start};
use crate::rope::{
    fits_rope, rope_char_to_line, rope_insert, rope_insert_char, rope_len_chars,
    rope_line_to_char, rope_remove, rope_text,
};
use vstd::prelude::*;
use vstd::string::*;

verus! {

/// An edit that every caret makes at its own place.
pub enum EditPlan {
    /// Take the selection, and nothing where there is none.
    Cut,
    /// Put this text in.
    Type(String),
    /// Take the character before the caret.
    Backspace,
    /// Take the character behind the caret.
    Delete,
    /// Take everything back to the start of the word.
    WordLeft,
    /// Take everything back to the start of the line.
    LineStart,
}

impl View for EditPlan {
    type V = Plan;

    open spec fn view(&self) -> Plan {
        match self {
            EditPlan::Cut => Plan::Cut,
            EditPlan::Type(t) => Plan::Type(t@),
            EditPlan::Backspace => Plan::Backspace,
            EditPlan::Delete => Plan::Delete,
            EditPlan::WordLeft => Plan::WordLeft,
            EditPlan::LineStart => Plan::LineStart,
        }
    }
}

/// A replacement as plain values.
pub open spec fn splice_view(r: Option<(usize, usize, String)>) -> Option<Splice> {
    match r {
        Some((a, b, t)) => Some(Splice { from: a as int, to: b as int, ins: t@ }),
        None => None,
    }
}

/// The furthest caret among those that have nothing to edit.
pub open spec fn idle_reach(list: Seq<Flagged>, plans: Seq<Option<Splice>>) -> int
    decreases list.len(),
{
    if list.len() == 0 {
        0
    } else {
        let before = idle_reach(list.drop_last(), plans.drop_last());
        if plans.last() is None {
            greatest(before, list.last().caret.cursor)
        } else {
            before
        }
    }
}

/// Splices that go with the carets of `list` in a text of `len` characters:
/// each in the text, none adding more than `ins` characters, and none reaching
/// back over an earlier caret that edits nothing.
pub open spec fn splices_fit(
    list: Seq<Flagged>,
    plans: Seq<Option<Splice>>,
    len: int,
    ins: int,
) -> bool {
    &&& list.len() == plans.len()
    &&& forall|i: int| 0 <= i < list.len() ==> 0 <= (#[trigger] list[i]).caret.cursor <= len
    &&& forall|i: int|
        0 <= i < plans.len() ==> ((#[trigger] plans[i]) matches Some(p) ==> 0 <= p.from <= p.to
            <= len && p.ins.len() <= ins)
    &&& forall|i: int, j: int|
        0 <= i < j < plans.len() && (#[trigger] plans[i]) is None ==> ((#[trigger] plans[j])
            matches Some(p) ==> p.from >= list[i].caret.cursor)
}

proof fn lemma_idle_reach(list: Seq<Flagged>, plans: Seq<Option<Splice>>, len: int, bound: int)
    requires
        list.len() == plans.len(),
        0 <= bound,
        forall|i: int|
            0 <= i < list.len() && (#[trigger] plans[i]) is None ==> list[i].caret.cursor <= bound,
    ensures
        0 <= idle_reach(list, plans) <= bound,
    decreases list.len(),
{
    if list.len() > 0 {
        let l = list.drop_last();
        let q = plans.drop_last();
        assert forall|i: int| 0 <= i < l.len() && (#[trigger] q[i]) is None implies l[i].caret.cursor
            <= bound by {
            assert(plans[i] is None);
        }
        lemma_idle_reach(l, q, len, bound);
        assert(plans[list.len() - 1] == plans.last());
    }
}

/// The splices stay inside the text, the text grows by no more than they add,
/// and every caret ends up inside the new text.
pub proof fn lemma_splice_all(
    s: Seq<char>,
    list: Seq<Flagged>,
    plans: Seq<Option<Splice>>,
    ins: int,
)
    requires
        splices_fit(list, plans, s.len() as int, ins),
        0 <= ins,
    ensures
        ({
            let r = splice_all(s, list, plans);
            &&& 0 <= r.done <= s.len()
            &&& r.out.len() <= r.done + list.len() * ins
            &&& r.carets.len() == list.len()
            &&& forall|k: int|
                0 <= k < r.carets.len() ==> 0 <= (#[trigger] r.carets[k]).caret.cursor
                    <= r.out.len() + greatest(idle_reach(list, plans) - r.done, 0)
            &&& idle_reach(list, plans) <= s.len()
        }),
    decreases list.len(),
{
    if list.len() > 0 {
        let l = list.drop_last();
        let q = plans.drop_last();
        let n = list.len() as int;
        assert(splices_fit(l, q, s.len() as int, ins)) by {
            assert forall|i: int| 0 <= i < l.len() implies 0 <= (#[trigger] l[i]).caret.cursor
                <= s.len() by {
                assert(l[i] == list[i]);
            }
            assert forall|i: int| 0 <= i < q.len() implies ((#[trigger] q[i]) matches Some(p) ==> 0
                <= p.from <= p.to <= s.len() && p.ins.len() <= ins) by {
                assert(q[i] == plans[i]);
            }
            assert forall|i: int, j: int|
                0 <= i < j < q.len() && (#[trigger] q[i]) is None implies ((#[trigger] q[j])
                matches Some(p) ==> p.from >= l[i].caret.cursor) by {
                assert(q[i] == plans[i] && q[j] == plans[j]);
            }
        }
        lemma_splice_all(s, l, q, ins);
        let b = splice_all(s, l, q);
        let r = splice_all(s, list, plans);
        let h = idle_reach(l, q);
        assert(n * ins == (n - 1) * ins + ins) by (nonlinear_arith);
        assert(plans[n - 1] == plans.last());
        assert(list[n - 1] == list.last());
        match plans.last() {
            Some(p) => {
                let from = greatest(p.from, b.done);
                assert forall|i: int| 0 <= i < l.len() && (#[trigger] q[i]) is None implies
                    l[i].caret.cursor <= p.from by {
                    assert(plans[i] is None);
                    assert(plans[n - 1] is Some);
                }
                lemma_idle_reach(l, q, s.len() as int, p.from);
                assert(r.out.len() == b.out.len() + (from - b.done) + p.ins.len());
                assert(r.out.len() >= b.out.len() + greatest(h - b.done, 0));
                assert forall|k: int| 0 <= k < r.carets.len() implies 0 <= (#[trigger]
                r.carets[k]).caret.cursor <= r.out.len() + greatest(
                    idle_reach(list, plans) - r.done,
                    0,
                ) by {
                    if k < b.carets.len() {
                        assert(r.carets[k] == b.carets[k]);
                    }
                }
            },
            None => {
                assert forall|k: int| 0 <= k < r.carets.len() implies 0 <= (#[trigger]
                r.carets[k]).caret.cursor <= r.out.len() + greatest(
                    idle_reach(list, plans) - r.done,
                    0,
                ) by {
                    if k < b.carets.len() {
                        assert(r.carets[k] == b.carets[k]);
                    }
                }
                assert((n - 1) * ins <= n * ins) by (nonlinear_arith)
                    requires
                        0 <= ins,
                ;
            },
        }
    } else {
        assert(0 * ins == 0) by (nonlinear_arith);
    }
}

/// The edits that the carets of a buffer make fit together.
pub proof fn lemma_plans_fit(st: BufferState, p: Plan)
    requires
        st.wf(),
        st.selections_ok(),
    ensures
        splices_fit(st.by_start(), st.plans(p), st.text.len() as int, p.ins().len() as int),
        st.by_start().len() == st.carets.len() + 1,
        st.plans(p).len() == st.by_start().len(),
        forall|i: int|
            0 <= i < st.by_start().len() ==> selects_here(
                #[trigger] st.by_start()[i],
                st.text.len() as int,
            ),
{
    let s = st.text;
    let len = s.len() as int;
    let ok = |c: CaretAt| 0 <= c.cursor <= len && (c.selecting() ==> 0 <= c.anchor->0 <= len);
    let all = st.flagged();
    assert forall|i: int| 0 <= i < all.len() implies ok((#[trigger] all[i]).caret) by {
        if i > 0 {
            assert(all[i].caret == st.carets[i - 1]);
            assert(crate::buffer::state::selects_within(st.carets[i - 1], len));
        }
    }
    lemma_sorted_by(all, start_key(), ok);
    let list = st.by_start();
    let plans = st.plans(p);
    assert forall|i: int| 0 <= i < list.len() implies ok((#[trigger] list[i]).caret) by {}
    assert forall|i: int| 0 <= i < plans.len() implies ((#[trigger] plans[i]) matches Some(q) ==> 0
        <= q.from <= q.to <= len && q.ins.len() <= p.ins().len()) by {
        let c = list[i].caret;
        assert(ok(c));
        lemma_prev_word(s, c.cursor);
        lemma_line_around(s, c.cursor);
    }
    assert forall|i: int, j: int|
        0 <= i < j < plans.len() && (#[trigger] plans[i]) is None implies ((#[trigger] plans[j])
        matches Some(q) ==> q.from >= list[i].caret.cursor) by {
        let a = list[i].caret;
        let b = list[j].caret;
        assert(ok(a) && ok(b));
        assert(start_key()(list[i]) <= start_key()(list[j]));
        assert(!a.selecting());
        assert(a.cursor <= b.start());
        lemma_prev_word(s, a.cursor);
        lemma_prev_word(s, b.cursor);
        lemma_line_around(s, a.cursor);
        lemma_line_around(s, b.cursor);
        if plans[j] is Some && !b.selecting() && p is LineStart {
            lemma_line_of_monotone(s, a.cursor, b.cursor);
            lemma_starts_in_order(s, line_of(s, a.cursor), line_of(s, b.cursor));
        }
    }
}

/// A caret in the text, its selection too.
pub open spec fn selects_here(x: Flagged, len: int) -> bool {
    0 <= x.caret.cursor <= len && crate::buffer::state::selects_within(x.caret, len)
}

/// Later lines start later.
pub proof fn lemma_starts_in_order(s: Seq<char>, a: int, b: int)
    requires
        0 <= a <= b < crate::lines::line_total(s),
    ensures
        line_start(s, a) <= line_start(s, b),
    decreases b - a,
{
    if a < b {
        lemma_starts_in_order(s, a, b - 1);
        crate::lines::lemma_line_starts_increase(s, b - 1);
    }
}

/// An edit at every caret keeps a buffer well formed.
pub proof fn lemma_multi_edited_wf(st: BufferState, p: Plan)
    requires
        st.wf(),
        st.selections_ok(),
    ensures
        st.multi_edited(p).wf(),
{
    if st.edits(p) {
        lemma_plans_fit(st, p);
        lemma_splice_all(st.text, st.by_start(), st.plans(p), p.ins().len() as int);
        let r = splice_all(st.text, st.by_start(), st.plans(p));
        let text = r.out + st.text.skip(r.done);
        let mid = BufferState { text, ..st.checkpointed(p.kind()) };
        let list = with_goals(text, r.carets);
        assert(all_carets(list, |c: CaretAt| 0 <= c.cursor <= text.len()));
        lemma_installed_wf(mid, list);
        crate::buffer::laws::lemma_checkpointed_wf(st, p.kind());
        let done = st.multi_edited(p);
        assert(done.undo == st.checkpointed(p.kind()).undo);
        assert(done.redo == st.checkpointed(p.kind()).redo);
    }
}

impl BufferState {
    /// `s` put in at every caret, in place of what is selected there.
    pub open spec fn pasted(self, s: Seq<char>) -> BufferState {
        if self.carets.len() > 0 {
            self.multi_edited(Plan::Type(s))
        } else {
            self.typed(s)
        }
    }

    /// Without what is selected, or else without the character before the caret.
    pub open spec fn backspaced(self) -> BufferState {
        if self.carets.len() > 0 {
            self.multi_edited(Plan::Backspace)
        } else if self.primary().selecting() {
            self.selection_cut()
        } else if self.cursor > 0 {
            self.deleted_back_to(self.cursor - 1)
        } else {
            self
        }
    }

    /// Without what is selected, or else without the character behind the caret.
    pub open spec fn deleted_ahead(self) -> BufferState {
        if self.carets.len() > 0 {
            self.multi_edited(Plan::Delete)
        } else if self.primary().selecting() {
            self.selection_cut()
        } else if self.cursor < self.text.len() {
            self.deleted_forward()
        } else {
            self
        }
    }

    /// Without what is selected, or else without the rest of the word before the
    /// caret.
    pub open spec fn word_deleted(self) -> BufferState {
        if self.carets.len() > 0 {
            self.multi_edited(Plan::WordLeft)
        } else if self.primary().selecting() {
            self.selection_cut()
        } else if self.cursor > 0 {
            self.deleted_back_to(prev_word(self.text, self.cursor))
        } else {
            self
        }
    }

    /// Without what is selected, or else without the rest of the line before the
    /// caret.
    pub open spec fn line_start_deleted(self) -> BufferState {
        let start = line_start(self.text, line_of(self.text, self.cursor));
        if self.carets.len() > 0 {
            self.multi_edited(Plan::LineStart)
        } else if self.primary().selecting() {
            self.selection_cut()
        } else if start < self.cursor {
            BufferState { goal_col: 0, ..self.deleted_back_to(start) }
        } else {
            self
        }
    }
}

impl Buffer {
    /// What the edit replaces at the caret `c`.
    fn plan_for(&self, p: &EditPlan, c: &Caret) -> (r: Option<(usize, usize, String)>)
        requires
            c.cursor <= self@.text.len(),
        ensures
            splice_view(r) == plan_at(self@.text, p@, c@),
    {
        let (a, e) = c.bounds();
        if e > a {
            let ins: String = match p {
                EditPlan::Type(t) => t.clone(),
                _ => String::new(),
            };
            return Some((a, e, ins));
        }
        proof {
            lemma_prev_word(self@.text, c.cursor as int);
            lemma_line_around(self@.text, c.cursor as int);
        }
        let start: usize = match p {
            EditPlan::Cut => {
                return None;
            },
            EditPlan::Type(t) => {
                return Some((c.cursor, c.cursor, t.clone()));
            },
            EditPlan::Delete => {
                if c.cursor < rope_len_chars(&self.rope) {
                    return Some((c.cursor, c.cursor + 1, String::new()));
                }
                return None;
            },
            EditPlan::Backspace => if c.cursor > 0 {
                c.cursor - 1
            } else {
                0
            },
            EditPlan::WordLeft => self.prev_word_start(c.cursor),
            EditPlan::LineStart => {
                let row: usize = rope_char_to_line(&self.rope, c.cursor);
                rope_line_to_char(&self.rope, row)
            },
        };
        if start < c.cursor {
            Some((start, c.cursor, String::new()))
        } else {
            None
        }
    }

    /// Replace the characters `from..to` of `s`, where the text is `out` and
    /// then the rest of `s` from `done` on. Returns where the new text ends.
    fn splice_in(
        &mut self,
        at: usize,
        done: usize,
        from: usize,
        to: usize,
        ins: &str,
        Ghost(out): Ghost<Seq<char>>,
        Ghost(s): Ghost<Seq<char>>,
    ) -> (r: usize)
        requires
            old(self)@.text == out + s.skip(done as int),
            at == out.len(),
            done <= from <= to <= s.len(),
            out.len() + (s.len() - done) <= usize::MAX,
            ins@.len() > 0 ==> fits_rope((out.len() + (s.len() - done) + ins@.len()) as nat),
        ensures
            final(self)@ == (BufferState {
                text: out + s.subrange(done as int, from as int) + ins@ + s.skip(to as int),
                ..old(self)@
            }),
            r == out.len() + (from - done) + ins@.len(),
    {
        let ghost st = self@;
        let ghost whole = st.text;
        let ghost head = out + s.subrange(done as int, from as int);
        let ghost tail = s.skip(to as int);
        let a: usize = at + (from - done);
        let b: usize = at + (to - done);
        assert(whole.take(a as int) =~= head);
        assert(whole.skip(b as int) =~= tail);
        if b > a {
            rope_remove(&mut self.rope, a, b);
        }
        assert(rope_text(self.rope) =~= head + tail);
        let added: usize = ins.unicode_len();
        assert((head + tail).take(a as int) =~= head);
        assert((head + tail).skip(a as int) =~= tail);
        if added > 0 {
            rope_insert(&mut self.rope, a, ins);
        }
        assert(rope_text(self.rope) =~= head + ins@ + tail);
        a + added
    }

    /// Apply an edit at every caret in one undoable step. Every replacement is
    /// worked out on the text as it was; they are applied from left to right
    /// and never overlap. Returns whether any edit happened.
    pub(crate) fn apply_multi_edit(&mut self, p: &EditPlan) -> (r: bool)
        requires
            old(self)@.wf(),
            old(self)@.selections_ok(),
            p@.ins().len() > 0 ==> fits_rope(
                old(self)@.text.len() + (old(self)@.carets.len() + 1) * p@.ins().len(),
            ),
        ensures
            final(self)@ == old(self)@.multi_edited(p@),
            r == old(self)@.edits(p@),
            final(self)@.wf(),
    {
        let ghost st = self@;
        let ghost s = st.text;
        let ghost list = st.by_start();
        let ghost splices = st.plans(p@);
        let ghost ins_len = p@.ins().len() as int;
        let n: usize = rope_len_chars(&self.rope);
        proof {
            lemma_plans_fit(st, p@);
        }
        let flagged = self.carets_flagged();
        let all = sort_carets(&flagged, true);
        let mut plans: Vec<Option<(usize, usize, String)>> = Vec::new();
        let mut any: bool = false;
        let mut i: usize = 0;
        while i < all.len()
            invariant
                i <= all.len(),
                self@ == st,
                s == st.text,
                flags_view(all@) == list,
                list == st.by_start(),
                splices == st.plans(p@),
                splices.len() == list.len(),
                plans.len() == i,
                forall|k: int| 0 <= k < list.len() ==> selects_here(#[trigger] list[k], s.len() as int),
                forall|k: int| 0 <= k < i ==> splice_view(#[trigger] plans[k]) == splices[k],
                any == exists|k: int| 0 <= k < i && (#[trigger] splices[k]) is Some,
            decreases all.len() - i,
        {
            assert(list[i as int].caret == all[i as int].0@);
            let plan = self.plan_for(p, &all[i].0);
            let ghost had = any;
            let is: bool = plan.is_some();
            assert(splices[i as int] == splice_view(plan));
            any = any || is;
            plans.push(plan);
            i = i + 1;
            proof {
                if any {
                    if had {
                        let k = choose|k: int| 0 <= k < i - 1 && (#[trigger] splices[k]) is Some;
                        assert(splices[k] is Some);
                    } else {
                        assert(splices[i - 1] is Some);
                    }
                } else {
                    assert forall|k: int| 0 <= k < i implies !((#[trigger] splices[k]) is Some) by {}
                }
            }
        }
        assert(any == st.edits(p@));
        if !any {
            return false;
        }
        let kind: EditKind = match p {
            EditPlan::Type(_) => EditKind::Insert,
            _ => EditKind::Delete,
        };
        self.checkpoint(kind);
        let ghost cp = self@;
        let mut at: usize = 0;
        let mut done: usize = 0;
        let mut out: Vec<(Caret, bool)> = Vec::new();
        let mut i: usize = 0;
        proof {
            assert(list.take(0) =~= Seq::empty());
            assert(s.skip(0) =~= s);
        }
        while i < all.len()
            invariant
                i <= all.len(),
                n == s.len(),
                flags_view(all@) == list,
                plans.len() == all.len(),
                list.len() == all.len(),
                splices.len() == list.len(),
                all.len() == st.carets.len() + 1,
                splices_fit(list, splices, s.len() as int, ins_len),
                ins_len == p@.ins().len(),
                ins_len > 0 ==> fits_rope((s.len() + (st.carets.len() + 1) * ins_len) as nat),
                forall|k: int| 0 <= k < plans.len() ==> splice_view(#[trigger] plans[k]) == splices[k],
                out.len() == i,
                ({
                    let sp = splice_all(s, list.take(i as int), splices.take(i as int));
                    &&& at == sp.out.len()
                    &&& done == sp.done
                    &&& done <= s.len()
                    &&& flags_view(out@) == sp.carets
                    &&& self@ == (BufferState { text: sp.out + s.skip(sp.done), ..cp })
                    &&& sp.out.len() <= sp.done + i * ins_len
                }),
            decreases all.len() - i,
        {
            let ghost l = list.take(i as int);
            let ghost q = splices.take(i as int);
            let ghost sp = splice_all(s, l, q);
            let ghost l1 = list.take(i + 1);
            let ghost q1 = splices.take(i + 1);
            let ghost sp1 = splice_all(s, l1, q1);
            proof {
                assert(l1.drop_last() =~= l);
                assert(q1.drop_last() =~= q);
                assert(l1.last() == list[i as int]);
                assert(q1.last() == splices[i as int]);
                lemma_fit_prefix(list, splices, s.len() as int, ins_len, i + 1);
                lemma_splice_all(s, l1, q1, ins_len);
                assert(i * ins_len <= (st.carets.len() + 1) * ins_len && (i + 1) * ins_len == i
                    * ins_len + ins_len && (i + 1) * ins_len <= (st.carets.len() + 1) * ins_len)
                    by (nonlinear_arith)
                    requires
                        0 <= i < st.carets.len() + 1,
                        0 <= ins_len,
                ;
            }
            let (caret, primary) = all[i];
            assert(list[i as int] == Flagged { caret: caret@, primary });
            match &plans[i] {
                Some((rs, re, ins)) => {
                    assert(splices[i as int] == Some(
                        Splice { from: *rs as int, to: *re as int, ins: ins@ },
                    ));
                    let from: usize = if *rs >= done {
                        *rs
                    } else {
                        done
                    };
                    let to: usize = if *re >= from {
                        *re
                    } else {
                        from
                    };
                    proof {
                        if ins_len == 0 {
                            assert(i * ins_len == 0) by (nonlinear_arith)
                                requires
                                    ins_len == 0,
                            ;
                        }
                    }
                    at = self.splice_in(at, done, from, to, ins.as_str(), Ghost(sp.out), Ghost(s));
                    done = to;
                    out.push((Caret { cursor: at, anchor: None, goal_col: 0 }, primary));
                    assert(flags_view(out@) =~= sp.carets.push(
                        Flagged { caret: bare_caret(at as int), primary },
                    ));
                },
                None => {
                    let far: usize = if caret.cursor >= done {
                        caret.cursor
                    } else {
                        done
                    };
                    proof {
                        if ins_len == 0 {
                            assert(i * ins_len == 0) by (nonlinear_arith)
                                requires
                                    ins_len == 0,
                            ;
                        }
                    }
                    let pos: usize = at + (far - done);
                    out.push((Caret { cursor: pos, anchor: None, goal_col: 0 }, primary));
                    assert(flags_view(out@) =~= sp.carets.push(
                        Flagged { caret: bare_caret(pos as int), primary },
                    ));
                },
            }
            i = i + 1;
        }
        let ghost sp = splice_all(s, list, splices);
        let ghost text = sp.out + s.skip(sp.done);
        proof {
            assert(list.take(i as int) =~= list);
            assert(splices.take(i as int) =~= splices);
            lemma_splice_all(s, list, splices, ins_len);
        }
        let mut i: usize = 0;
        while i < out.len()
            invariant
                i <= out.len(),
                out.len() == sp.carets.len(),
                self@ == (BufferState { text, ..cp }),
                forall|k: int|
                    0 <= k < sp.carets.len() ==> 0 <= (#[trigger] sp.carets[k]).caret.cursor
                        <= text.len(),
                forall|k: int|
                    i <= k < out.len() ==> (#[trigger] out[k]).0@ == sp.carets[k].caret && out[k].1
                        == sp.carets[k].primary,
                forall|k: int|
                    0 <= k < i ==> (#[trigger] out[k]).0@ == set_down(
                        text,
                        sp.carets[k].caret,
                        sp.carets[k].caret.cursor,
                    ) && out[k].1 == sp.carets[k].primary,
            decreases out.len() - i,
        {
            let (c, primary) = out[i];
            assert(sp.carets[i as int].caret == c@);
            let goal: usize = self.col_of(c.cursor);
            out.set(i, (Caret { goal_col: goal, ..c }, primary));
            i = i + 1;
        }
        assert(flags_view(out@) =~= with_goals(text, sp.carets));
        self.install_carets(out);
        self.note_edit(kind);
        self.bump();
        proof {
            lemma_multi_edited_wf(st, p@);
        }
        true
    }

    /// The selected character range as `(start, end)`, or `None` when empty.
    pub fn selection(&self) -> (r: Option<(usize, usize)>)
        ensures
            match r {
                Some((a, e)) => self@.primary().selecting() && a == self@.primary().start() && e
                    == self@.primary().end(),
                None => !self@.primary().selecting(),
            },
    {
        let (a, e) = self.this_caret().bounds();
        if a == e {
            None
        } else {
            Some((a, e))
        }
    }

    /// Remove the selection without recording a checkpoint, for callers that
    /// already took one.
    fn delete_selection_inner(&mut self) -> (r: bool)
        requires
            old(self)@.wf(),
            old(self)@.selection_ok(),
        ensures
            final(self)@ == old(self)@.selection_deleted(),
            r == old(self)@.primary().selecting(),
            old(self)@.carets.len() == 0 ==> final(self)@.wf(),
    {
        match self.selection() {
            Some((s, e)) => {
                let ghost st = self@;
                rope_remove(&mut self.rope, s, e);
                assert(rope_text(self.rope) =~= spliced(
                    st.text,
                    s as int,
                    e as int,
                    Seq::empty(),
                ));
                self.cursor = s;
                self.anchor = None;
                self.goal_col = self.cursor_col();
                self.bump();
                true
            },
            None => false,
        }
    }

    /// Delete the current selection if any, as an undo step of its own. Returns
    /// whether something was removed.
    pub fn delete_selection(&mut self) -> (r: bool)
        requires
            old(self)@.wf(),
            old(self)@.selections_ok(),
        ensures
            final(self)@ == if old(self)@.carets.len() > 0 {
                old(self)@.multi_edited(Plan::Cut)
            } else if old(self)@.primary().selecting() {
                old(self)@.selection_cut()
            } else {
                old(self)@
            },
            r == if old(self)@.carets.len() > 0 {
                old(self)@.edits(Plan::Cut)
            } else {
                old(self)@.primary().selecting()
            },
            final(self)@.wf(),
    {
        if self.carets.len() > 0 {
            return self.apply_multi_edit(&EditPlan::Cut);
        }
        if self.selection().is_none() {
            return false;
        }
        self.checkpoint(EditKind::Delete);
        let removed = self.delete_selection_inner();
        self.note_edit(EditKind::Delete);
        removed
    }

    /// Type one character at every caret, over the selections.
    pub fn insert_char(&mut self, c: char)
        requires
            old(self)@.wf(),
            old(self)@.selections_ok(),
            fits_rope(old(self)@.text.len() + (old(self)@.carets.len() + 1)),
        ensures
            final(self)@ == old(self)@.pasted(seq![c]),
            final(self)@.wf(),
    {
        if self.carets.len() > 0 {
            let mut t = String::new();
            t.push(c);
            assert(t@ =~= seq![c]);
            assert((self@.carets.len() + 1) * 1 == self@.carets.len() + 1) by (nonlinear_arith);
            self.apply_multi_edit(&EditPlan::Type(t));
            return;
        }
        let ghost st = self@;
        self.checkpoint(EditKind::Insert);
        let _ = self.delete_selection_inner();
        let ghost mid = self@;
        rope_insert_char(&mut self.rope, self.cursor, c);
        self.cursor = self.cursor + 1;
        assert(rope_text(self.rope) =~= spliced(mid.text, mid.cursor, mid.cursor, seq![c]));
        self.goal_col = self.cursor_col();
        self.note_edit(EditKind::Insert);
        self.bump();
        assert(self@ =~= st.typed(seq![c]));
        proof {
            crate::buffer::laws::lemma_typed_wf(st, seq![c]);
        }
    }

    /// Type `s` at every caret, over the selections.
    pub fn insert_str(&mut self, s: &str)
        requires
            old(self)@.wf(),
            old(self)@.selections_ok(),
            fits_rope(old(self)@.text.len() + (old(self)@.carets.len() + 1) * s@.len()),
        ensures
            final(self)@ == old(self)@.pasted(s@),
            final(self)@.wf(),
    {
        if self.carets.len() > 0 {
            self.apply_multi_edit(&EditPlan::Type(s.to_owned()));
            return;
        }
        let ghost st = self@;
        assert((st.carets.len() + 1) * s@.len() == s@.len()) by (nonlinear_arith)
            requires
                st.carets.len() == 0,
        ;
        self.checkpoint(EditKind::Insert);
        let _ = self.delete_selection_inner();
        let ghost mid = self@;
        rope_insert(&mut self.rope, self.cursor, s);
        let added: usize = s.unicode_len();
        self.cursor = self.cursor + added;
        assert(rope_text(self.rope) =~= spliced(mid.text, mid.cursor, mid.cursor, s@));
        self.goal_col = self.cursor_col();
        self.note_edit(EditKind::Insert);
        self.bump();
        assert(self@ =~= st.typed(s@));
        proof {
            crate::buffer::laws::lemma_typed_wf(st, s@);
        }
    }

    /// Type a line feed.
    pub fn newline(&mut self)
        requires
            old(self)@.wf(),
            old(self)@.selections_ok(),
            fits_rope(old(self)@.text.len() + (old(self)@.carets.len() + 1)),
        ensures
            final(self)@ == old(self)@.pasted(seq!['\n']),
            final(self)@.wf(),
    {
        self.insert_char('\n');
    }

    /// Delete everything from `start` to the one caret as an undo step.
    fn delete_back_to(&mut self, start: usize)
        requires
            old(self)@.wf(),
            old(self)@.carets.len() == 0,
            start < old(self)@.cursor,
        ensures
            final(self)@ == old(self)@.deleted_back_to(start as int),
            final(self)@.wf(),
    {
        let ghost st = self@;
        self.checkpoint(EditKind::Delete);
        rope_remove(&mut self.rope, start, self.cursor);
        assert(rope_text(self.rope) =~= spliced(st.text, start as int, st.cursor, Seq::empty()));
        self.cursor = start;
        self.goal_col = self.cursor_col();
        self.note_edit(EditKind::Delete);
        self.bump();
    }

    /// Delete the selections, or the character before each caret without one.
    pub fn backspace(&mut self)
        requires
            old(self)@.wf(),
            old(self)@.selections_ok(),
        ensures
            final(self)@ == old(self)@.backspaced(),
            final(self)@.wf(),
    {
        if self.carets.len() > 0 {
            self.apply_multi_edit(&EditPlan::Backspace);
            return;
        }
        if self.selection().is_some() {
            self.delete_selection();
            return;
        }
        if self.cursor == 0 {
            return;
        }
        let start: usize = self.cursor - 1;
        self.delete_back_to(start);
    }

    /// Delete the selections, or the character behind each caret without one.
    pub fn delete(&mut self)
        requires
            old(self)@.wf(),
            old(self)@.selections_ok(),
        ensures
            final(self)@ == old(self)@.deleted_ahead(),
            final(self)@.wf(),
    {
        if self.carets.len() > 0 {
            self.apply_multi_edit(&EditPlan::Delete);
            return;
        }
        if self.selection().is_some() {
            self.delete_selection();
            return;
        }
        if self.cursor >= rope_len_chars(&self.rope) {
            return;
        }
        let ghost st = self@;
        self.checkpoint(EditKind::Delete);
        rope_remove(&mut self.rope, self.cursor, self.cursor + 1);
        assert(rope_text(self.rope) =~= spliced(
            st.text,
            st.cursor,
            st.cursor + 1,
            Seq::empty(),
        ));
        self.note_edit(EditKind::Delete);
        self.bump();
    }

    /// Delete the selections, or the word before each caret without one.
    pub fn delete_word_left(&mut self)
        requires
            old(self)@.wf(),
            old(self)@.selections_ok(),
        ensures
            final(self)@ == old(self)@.word_deleted(),
            final(self)@.wf(),
    {
        if self.carets.len() > 0 {
            self.apply_multi_edit(&EditPlan::WordLeft);
            return;
        }
        if self.selection().is_some() {
            self.delete_selection();
            return;
        }
        if self.cursor == 0 {
            return;
        }
        proof {
            lemma_prev_word(self@.text, self@.cursor);
        }
        let start: usize = self.prev_word_start(self.cursor);
        self.delete_back_to(start);
    }

    /// Delete the selections, or what stands before each caret without one on
    /// its line.
    pub fn delete_to_line_start(&mut self)
        requires
            old(self)@.wf(),
            old(self)@.selections_ok(),
        ensures
            final(self)@ == old(self)@.line_start_deleted(),
            final(self)@.wf(),
    {
        if self.carets.len() > 0 {
            self.apply_multi_edit(&EditPlan::LineStart);
            return;
        }
        if self.selection().is_some() {
            self.delete_selection();
            return;
        }
        proof {
            lemma_line_around(self@.text, self@.cursor);
        }
        let row: usize = self.cursor_row();
        let start: usize = rope_line_to_char(&self.rope, row);
        if start == self.cursor {
            return;
        }
        self.delete_back_to(start);
        self.goal_col = 0;
    }
}

/// What fits a list of carets fits the first of them.
proof fn lemma_fit_prefix(
    list: Seq<Flagged>,
    plans: Seq<Option<Splice>>,
    len: int,
    ins: int,
    k: int,
)
    requires
        splices_fit(list, plans, len, ins),
        0 <= k <= list.len(),
    ensures
        splices_fit(list.take(k), plans.take(k), len, ins),
{
    let l = list.take(k);
    let q = plans.take(k);
    assert forall|i: int| 0 <= i < l.len() implies 0 <= (#[trigger] l[i]).caret.cursor <= len by {
        assert(l[i] == list[i]);
    }
    assert forall|i: int| 0 <= i < q.len() implies ((#[trigger] q[i]) matches Some(p) ==> 0
        <= p.from <= p.to <= len && p.ins.len() <= ins) by {
        assert(q[i] == plans[i]);
    }
    assert forall|i: int, j: int| 0 <= i < j < q.len() && (#[trigger] q[i]) is None implies ((
    #[trigger] q[j]) matches Some(p) ==> p.from >= l[i].caret.cursor) by {
        assert(q[i] == plans[i] && q[j] == plans[j]);
    }
}

} // verus!
