//! Coloured text that is worked out in the background: which colours to show
//! until they are ready.

use vstd::prelude::*;
use vstd::string::*;

verus! {

/// A piece of a line with the number of its style.
#[derive(Debug)]
pub struct Span {
    pub text: String,
    pub style: u32,
}

/// A piece of a line as a mathematical value.
#[verifier::ext_equal]
pub struct SpanState {
    pub text: Seq<char>,
    pub style: u32,
}

impl View for Span {
    type V = SpanState;

    open spec fn view(&self) -> SpanState {
        SpanState { text: self.text@, style: self.style }
    }
}

/// A line as pieces.
pub open spec fn line_view(v: Seq<Span>) -> Seq<SpanState> {
    Seq::new(v.len(), |i: int| v[i]@)
}

/// Lines as pieces.
pub open spec fn lines_view(v: Seq<Vec<Span>>) -> Seq<Seq<SpanState>> {
    Seq::new(v.len(), |i: int| line_view(v[i]@))
}

/// The text of a line.
pub open spec fn line_text(line: Seq<SpanState>) -> Seq<char>
    decreases line.len(),
{
    if line.len() == 0 {
        Seq::empty()
    } else {
        line_text(line.drop_last()) + line.last().text
    }
}

/// The texts of lines.
pub open spec fn line_texts(lines: Seq<Seq<SpanState>>) -> Seq<Seq<char>> {
    Seq::new(lines.len(), |i: int| line_text(lines[i]))
}

/// The colours of a buffer that were worked out last.
pub struct Highlight {
    pub id: u64,
    pub revision: u64,
    pub lines: Vec<Vec<Span>>,
}

/// The colours as a mathematical value.
#[verifier::ext_equal]
pub struct HighlightState {
    pub id: u64,
    pub revision: u64,
    pub lines: Seq<Seq<SpanState>>,
}

impl View for Highlight {
    type V = HighlightState;

    open spec fn view(&self) -> HighlightState {
        HighlightState { id: self.id, revision: self.revision, lines: lines_view(self.lines@) }
    }
}

/// What to show for a buffer.
#[derive(Debug, Clone, Copy, PartialEq, Eq, Structural)]
pub enum Showing {
    /// What was worked out fits the text.
    Ready,
    /// Nothing was worked out yet: do it now.
    WorkOutNow,
    /// The text has changed since: show what still fits, and work the rest out
    /// in the background, where that was not begun yet.
    Patch { begin: bool },
}

/// The colours of the open buffers and what is being worked out.
pub struct Highlights {
    /// For each buffer the colours that were worked out last.
    pub done: Vec<Highlight>,
    /// Buffers and revisions that are being worked out.
    pub pending: Vec<(u64, u64)>,
}

/// The colours of the buffers.
pub open spec fn done_view(v: Seq<Highlight>) -> Seq<HighlightState> {
    Seq::new(v.len(), |i: int| v[i]@)
}

/// The place of a buffer's colours from `i` on, or -1.
pub open spec fn place_of(v: Seq<HighlightState>, id: u64, i: int) -> int
    decreases v.len() - i,
{
    if i >= v.len() {
        -1
    } else if v[i].id == id {
        i
    } else {
        place_of(v, id, i + 1)
    }
}

/// The colours of a buffer.
pub open spec fn colours_of(v: Seq<HighlightState>, id: u64) -> Option<HighlightState> {
    let i = place_of(v, id, 0);
    if i < 0 {
        None
    } else {
        Some(v[i])
    }
}

/// Copies of pieces.
fn copy_line(v: &Vec<Span>) -> (r: Vec<Span>)
    ensures
        line_view(r@) == line_view(v@),
{
    let mut r: Vec<Span> = Vec::new();
    let mut i: usize = 0;
    while i < v.len()
        invariant
            i <= v@.len(),
            r@.len() == i,
            forall|k: int| 0 <= k < i ==> (#[trigger] r@[k])@ == v@[k]@,
        decreases v.len() - i,
    {
        r.push(Span { text: v[i].text.clone(), style: v[i].style });
        i = i + 1;
    }
    assert(line_view(r@) =~= line_view(v@));
    r
}

/// The text of a line.
fn text_of_line(v: &Vec<Span>) -> (r: String)
    ensures
        r@ == line_text(line_view(v@)),
{
    let ghost all = line_view(v@);
    let mut r = String::new();
    let mut i: usize = 0;
    assert(r@ =~= line_text(all.take(0)));
    while i < v.len()
        invariant
            i <= v@.len(),
            all == line_view(v@),
            r@ == line_text(all.take(i as int)),
        decreases v.len() - i,
    {
        assert(all.take(i + 1).drop_last() =~= all.take(i as int));
        r.append(v[i].text.as_str());
        i = i + 1;
    }
    assert(all.take(i as int) =~= all);
    r
}

/// What to show for a line: its colours of before, where its text is the same,
/// and the plain line otherwise.
pub open spec fn patched_line(
    plain: Seq<SpanState>,
    before: Seq<Seq<SpanState>>,
    i: int,
) -> Seq<SpanState> {
    if i < before.len() && line_text(before[i]) == plain[0].text {
        before[i]
    } else {
        plain
    }
}

/// What to show for every line.
pub open spec fn patched(
    plain: Seq<Seq<SpanState>>,
    before: Seq<Seq<SpanState>>,
) -> Seq<Seq<SpanState>> {
    Seq::new(plain.len(), |i: int| patched_line(plain[i], before, i))
}

/// The lines of a buffer as they were coloured last.
pub open spec fn kept_lines(v: Seq<HighlightState>, id: u64) -> Seq<Seq<SpanState>> {
    match colours_of(v, id) {
        Some(h) => h.lines,
        None => Seq::empty(),
    }
}

/// What to show for the buffer `id` at `revision`.
pub open spec fn showing_of(
    v: Seq<HighlightState>,
    pending: Seq<(u64, u64)>,
    id: u64,
    revision: u64,
) -> Showing {
    match colours_of(v, id) {
        Some(h) => if h.revision == revision {
            Showing::Ready
        } else {
            Showing::Patch { begin: !pending.contains((id, revision)) }
        },
        None => Showing::WorkOutNow,
    }
}

/// The lines to show until the colours are ready: those of before where the text
/// of the line is the same, plain ones elsewhere.
pub fn fallback_lines(plain: &Vec<Vec<Span>>, before: &Vec<Vec<Span>>) -> (r: Vec<Vec<Span>>)
    requires
        forall|i: int| 0 <= i < plain@.len() ==> (#[trigger] plain@[i])@.len() > 0,
    ensures
        lines_view(r@) == patched(lines_view(plain@), lines_view(before@)),
{
    let ghost p = lines_view(plain@);
    let ghost b = lines_view(before@);
    let mut r: Vec<Vec<Span>> = Vec::new();
    let mut i: usize = 0;
    while i < plain.len()
        invariant
            i <= plain@.len(),
            p == lines_view(plain@),
            b == lines_view(before@),
            forall|k: int| 0 <= k < plain@.len() ==> (#[trigger] plain@[k])@.len() > 0,
            r@.len() == i,
            forall|k: int|
                0 <= k < i ==> line_view((#[trigger] r@[k])@) == patched_line(p[k], b, k),
        decreases plain.len() - i,
    {
        assert(plain@[i as int]@.len() > 0);
        assert(p[i as int] == line_view(plain@[i as int]@));
        let same = if i < before.len() {
            let t = text_of_line(&before[i]);
            crate::strings::same_text(t.as_str(), plain[i][0].text.as_str())
        } else {
            false
        };
        if same {
            assert(b[i as int] == line_view(before@[i as int]@));
            r.push(copy_line(&before[i]));
        } else {
            r.push(copy_line(&plain[i]));
        }
        i = i + 1;
    }
    assert(lines_view(r@) =~= Seq::new(p.len(), |i: int| patched_line(p[i], b, i)));
    r
}

impl Highlights {
    /// Where the colours of a buffer are.
    fn position(&self, id: u64) -> (r: Option<usize>)
        ensures
            match r {
                Some(i) => i < self.done@.len() && place_of(done_view(self.done@), id, 0) == i,
                None => place_of(done_view(self.done@), id, 0) == -1,
            },
    {
        let mut i: usize = 0;
        while i < self.done.len()
            invariant
                i <= self.done@.len(),
                place_of(done_view(self.done@), id, 0) == place_of(
                    done_view(self.done@),
                    id,
                    i as int,
                ),
            decreases self.done.len() - i,
        {
            if self.done[i].id == id {
                return Some(i);
            }
            i = i + 1;
        }
        None
    }

    /// The colours of a buffer that were worked out last.
    pub fn of(&self, id: u64) -> (r: Option<&Vec<Vec<Span>>>)
        ensures
            match r {
                Some(v) => colours_of(done_view(self.done@), id) matches Some(h) && h.lines
                    == lines_view(v@),
                None => colours_of(done_view(self.done@), id) is None,
            },
    {
        match self.position(id) {
            Some(i) => Some(&self.done[i].lines),
            None => None,
        }
    }

    /// What to show for the buffer `id` at `revision`. Where the background has
    /// to begin, it counts as begun.
    pub fn showing(&mut self, id: u64, revision: u64) -> (r: Showing)
        ensures
            final(self).done == old(self).done,
            r == showing_of(done_view(old(self).done@), old(self).pending@, id, revision),
            final(self).pending@ == if r == (Showing::Patch { begin: true }) {
                old(self).pending@.push((id, revision))
            } else {
                old(self).pending@
            },
    {
        match self.position(id) {
            Some(i) => {
                if self.done[i].revision == revision {
                    return Showing::Ready;
                }
                let mut k: usize = 0;
                while k < self.pending.len()
                    invariant
                        k <= self.pending@.len(),
                        *self == *old(self),
                        colours_of(done_view(old(self).done@), id) matches Some(h) && h.revision
                            != revision,
                        forall|j: int| 0 <= j < k ==> self.pending@[j] != (id, revision),
                    decreases self.pending.len() - k,
                {
                    if self.pending[k].0 == id && self.pending[k].1 == revision {
                        assert(self.pending@[k as int] == (id, revision));
                        return Showing::Patch { begin: false };
                    }
                    k = k + 1;
                }
                self.pending.push((id, revision));
                Showing::Patch { begin: true }
            },
            None => Showing::WorkOutNow,
        }
    }

    /// Keep the colours of the buffer `id` at `revision`.
    pub fn keep(&mut self, id: u64, revision: u64, lines: Vec<Vec<Span>>)
        ensures
            final(self).pending == old(self).pending,
            done_view(final(self).done@) == {
                let before = done_view(old(self).done@);
                let h = HighlightState { id, revision, lines: lines_view(lines@) };
                let i = place_of(before, id, 0);
                if i < 0 {
                    before.push(h)
                } else {
                    before.update(i, h)
                }
            },
    {
        let ghost before = done_view(self.done@);
        let h = Highlight { id, revision, lines };
        let ghost hv = h@;
        match self.position(id) {
            Some(i) => {
                self.done.set(i, h);
                assert(done_view(self.done@) =~= before.update(i as int, hv));
            },
            None => {
                self.done.push(h);
                assert(done_view(self.done@) =~= before.push(hv));
            },
        }
    }

    /// Take over what the background worked out for `id` at `revision`, unless
    /// the buffer is at another revision by now or gone. Either way it is no
    /// longer being worked out.
    pub fn adopt(
        &mut self,
        id: u64,
        revision: u64,
        lines: Vec<Vec<Span>>,
        current: Option<u64>,
    )
        ensures
            done_view(final(self).done@) == {
                let before = done_view(old(self).done@);
                let h = HighlightState { id, revision, lines: lines_view(lines@) };
                let i = place_of(before, id, 0);
                if current != Some(revision) {
                    before
                } else if i < 0 {
                    before.push(h)
                } else {
                    before.update(i, h)
                }
            },
            !final(self).pending@.contains((id, revision)),
            forall|p: (u64, u64)|
                p != (id, revision) ==> #[trigger] final(self).pending@.contains(p) == old(
                    self,
                ).pending@.contains(p),
    {
        let mut rest: Vec<(u64, u64)> = Vec::new();
        let mut i: usize = 0;
        while i < self.pending.len()
            invariant
                i <= self.pending@.len(),
                *self == *old(self),
                forall|k: int|
                    0 <= k < rest@.len() ==> #[trigger] rest@[k] != (id, revision)
                        && self.pending@.contains(rest@[k]),
                forall|k: int|
                    0 <= k < i && self.pending@[k] != (id, revision) ==> rest@.contains(
                        #[trigger] self.pending@[k],
                    ),
            decreases self.pending.len() - i,
        {
            let p = self.pending[i];
            let ghost before = rest@;
            if !(p.0 == id && p.1 == revision) {
                assert(self.pending@[i as int] == p);
                rest.push(p);
                proof {
                    assert(rest@[before.len() as int] == p);
                    assert forall|k: int|
                        0 <= k < i && self.pending@[k] != (id, revision) implies rest@.contains(
                        #[trigger] self.pending@[k],
                    ) by {
                        let w = before.index_of(self.pending@[k]);
                        assert(rest@[w] == self.pending@[k]);
                    }
                }
            }
            i = i + 1;
        }
        proof {
            assert forall|p: (u64, u64)| p != (id, revision) implies #[trigger] rest@.contains(p)
                == self.pending@.contains(p) by {
                if self.pending@.contains(p) {
                    let k = self.pending@.index_of(p);
                    assert(self.pending@[k] == p);
                }
                if rest@.contains(p) {
                    let k = rest@.index_of(p);
                    assert(rest@[k] == p);
                }
            }
        }
        self.pending = rest;
        let fits = match current {
            Some(r) => r == revision,
            None => false,
        };
        if fits {
            self.keep(id, revision, lines);
        }
    }
}

/// While the colours of a changed text are being worked out, what is shown
/// spells the text as it is now, line by line: a line whose text is that of the line kept at
/// its place looks as it did, and every other line is plain.
pub proof fn law_the_text_shown_is_the_text(
    done: Seq<HighlightState>,
    pending: Seq<(u64, u64)>,
    id: u64,
    revision: u64,
    plain: Seq<Seq<SpanState>>,
    i: int,
)
    requires
        showing_of(done, pending, id, revision) is Patch,
        0 <= i < plain.len(),
        forall|k: int| 0 <= k < plain.len() ==> (#[trigger] plain[k]).len() == 1,
    ensures
        ({
            let kept = kept_lines(done, id);
            let shown = patched(plain, kept);
            &&& colours_of(done, id) matches Some(h) && h.revision != revision && kept == h.lines
            &&& line_texts(shown) == line_texts(plain)
            &&& shown[i] == if i < kept.len() && line_text(kept[i]) == line_text(plain[i]) {
                kept[i]
            } else {
                plain[i]
            }
        }),
{
    reveal_with_fuel(line_text, 2);
    let kept = kept_lines(done, id);
    let shown = patched(plain, kept);
    assert forall|k: int| 0 <= k < plain.len() implies line_text(#[trigger] plain[k])
        == plain[k][0].text by {
        assert(plain[k].drop_last().len() == 0);
        assert(line_text(plain[k]) =~= plain[k][0].text);
    }
    assert forall|k: int| 0 <= k < plain.len() implies line_text(shown[k]) == line_text(
        #[trigger] plain[k],
    ) by {}
    assert(line_texts(shown) =~= line_texts(plain));
}

/// Colours that were worked out for the text as it is are shown; those of an earlier
/// text are patched and worked out anew, once; and where there are none they are
/// worked out at once.
pub proof fn law_stale_colours_are_worked_out_anew(
    v: Seq<HighlightState>,
    pending: Seq<(u64, u64)>,
    id: u64,
    revision: u64,
    i: int,
)
    ensures
        (forall|k: int| 0 <= k < v.len() ==> (#[trigger] v[k]).id != id) ==> showing_of(
            v,
            pending,
            id,
            revision,
        ) is WorkOutNow,
        0 <= i < v.len() && v[i].id == id && (forall|k: int|
            0 <= k < i ==> (#[trigger] v[k]).id != id) ==> {
            &&& v[i].revision == revision ==> showing_of(v, pending, id, revision) is Ready
            &&& v[i].revision != revision ==> showing_of(v, pending, id, revision) == (
            Showing::Patch { begin: !pending.contains((id, revision)) })
        },
{
    lemma_place_of(v, id, 0);
}

proof fn lemma_place_of(v: Seq<HighlightState>, id: u64, i: int)
    requires
        0 <= i <= v.len(),
        forall|k: int| 0 <= k < i ==> (#[trigger] v[k]).id != id,
    ensures
        ({
            let p = place_of(v, id, i);
            &&& p >= 0 ==> p < v.len() && v[p].id == id && forall|k: int|
                0 <= k < p ==> (#[trigger] v[k]).id != id
            &&& p < 0 ==> forall|k: int| 0 <= k < v.len() ==> (#[trigger] v[k]).id != id
        }),
    decreases v.len() - i,
{
    if i < v.len() && v[i].id != id {
        lemma_place_of(v, id, i + 1);
    }
}

} // verus!
