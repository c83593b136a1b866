//! Commands that scripts in a terminal ask to be run in a terminal of their
//! own, and one-line texts.

use crate::buffer::moves::lemma_fwd_while;
use crate::buffer::state::fwd_while;
use crate::filedialog::texts;
use crate::fuzzy::{blanks, pieces_from, solids};
use crate::strings::{chars_of, text_of};
use crate::text::{
    after_last, find, first_place, split_lines, tail_of, tail_start, text_lines, trim, trim_text,
};
use vstd::prelude::*;
use vstd::string::*;
use vstd::utf8::encode_utf8;

verus! {

/// Quotation marks.
pub open spec fn quotes() -> spec_fn(char) -> bool {
    |c: char| c == '\'' || c == '"'
}

/// Everything but quotation marks.
pub open spec fn unquoted() -> spec_fn(char) -> bool {
    |c: char| c != '\'' && c != '"'
}

/// The name of the folder that a command changes into, where it is quoted.
pub open spec fn cd_name(cmd: Seq<char>) -> Seq<char> {
    let p = first_place(cmd, "cd "@, 0);
    let a = fwd_while(cmd, p + 3, quotes());
    let e = fwd_while(cmd, a, unquoted());
    if p < 0 || e >= cmd.len() {
        Seq::empty()
    } else {
        tail_of(cmd.subrange(a, e), '/')
    }
}

/// What the tab of a command is called: the folder that it changes into, else
/// its first word.
pub open spec fn title_of(cmd: Seq<char>) -> Seq<char> {
    if cd_name(cmd).len() > 0 {
        cd_name(cmd)
    } else if pieces_from(cmd, 0).len() > 0 {
        pieces_from(cmd, 0)[0]
    } else {
        "term"@
    }
}

/// What the tab of a command is called.
pub fn short_term_title(cmd: &str) -> (r: String)
    ensures
        r@ == title_of(cmd@),
{
    let v = chars_of(cmd);
    let cd = chars_of("cd ");
    proof {
        reveal_strlit("cd ");
    }
    if let Some(p) = find(&v, &cd, 0) {
        assert(p + 3 <= v.len());
        let mut a: usize = p + 3;
        while a < v.len() && (v[a] == '\'' || v[a] == '"')
            invariant
                a <= v@.len(),
                p + 3 <= v@.len(),
                v@ == cmd@,
                fwd_while(cmd@, p + 3, quotes()) == fwd_while(cmd@, a as int, quotes()),
            decreases v.len() - a,
        {
            a = a + 1;
        }
        let mut e: usize = a;
        while e < v.len() && v[e] != '\'' && v[e] != '"'
            invariant
                a <= e <= v@.len(),
                v@ == cmd@,
                fwd_while(cmd@, a as int, unquoted()) == fwd_while(cmd@, e as int, unquoted()),
            decreases v.len() - e,
        {
            e = e + 1;
        }
        if e < v.len() {
            let dir = text_of(&v, a, e);
            let name = after_last(dir.as_str(), '/');
            if !name.as_str().is_empty() {
                return name;
            }
        }
    }
    let mut a: usize = 0;
    while a < v.len() && v[a].is_whitespace()
        invariant
            a <= v@.len(),
            v@ == cmd@,
            fwd_while(cmd@, 0, blanks()) == fwd_while(cmd@, a as int, blanks()),
        decreases v.len() - a,
    {
        a = a + 1;
    }
    if a == v.len() {
        return "term".to_owned();
    }
    let mut e: usize = a;
    while e < v.len() && !v[e].is_whitespace()
        invariant
            a <= e <= v@.len(),
            v@ == cmd@,
            fwd_while(cmd@, a as int, solids()) == fwd_while(cmd@, e as int, solids()),
        decreases v.len() - e,
    {
        e = e + 1;
    }
    assert(pieces_from(cmd@, 0)[0] == cmd@.subrange(a as int, e as int));
    text_of(&v, a, e)
}

/// Where to read the file of requests from: behind what was read already, or
/// from its start where it has become shorter. None where there is nothing new.
pub fn read_requests_from(len: u64, offset: u64) -> (r: (u64, bool))
    ensures
        r.0 == if len < offset {
            0
        } else {
            offset
        },
        r.1 == (len > r.0),
{
    let from: u64 = if len < offset {
        0
    } else {
        offset
    };
    (from, len > from)
}

/// The lines of `lines` that are not blank, without blanks around them.
pub open spec fn commands_in(lines: Seq<Seq<char>>) -> Seq<Seq<char>>
    decreases lines.len(),
{
    if lines.len() == 0 {
        Seq::empty()
    } else if trim_text(lines.last()).len() == 0 {
        commands_in(lines.drop_last())
    } else {
        commands_in(lines.drop_last()).push(trim_text(lines.last()))
    }
}

/// The part of a text that ends in its last line feed.
pub open spec fn whole_lines(s: Seq<char>) -> Seq<char> {
    s.take(tail_start(s, '\n', s.len() as int))
}

/// The commands in the whole lines of what was read, and how many bytes these
/// lines take. A line that is not finished waits.
pub fn take_requests(read: &str) -> (r: (Vec<String>, usize))
    ensures
        texts(r.0@) == commands_in(text_lines(whole_lines(read@))),
        r.1 == encode_utf8(whole_lines(read@)).len(),
{
    let v = chars_of(read);
    let mut end: usize = v.len();
    while end > 0 && v[end - 1] != '\n'
        invariant
            end <= v@.len(),
            v@ == read@,
            tail_start(read@, '\n', read@.len() as int) == tail_start(read@, '\n', end as int),
        decreases end,
    {
        end = end - 1;
    }
    let whole = text_of(&v, 0, end);
    assert(whole@ =~= whole_lines(read@));
    let lines = split_lines(whole.as_str());
    let mut out: Vec<String> = Vec::new();
    let mut i: usize = 0;
    let ghost all = texts(lines@);
    assert(texts(out@) =~= commands_in(all.take(0)));
    while i < lines.len()
        invariant
            i <= lines@.len(),
            all == texts(lines@),
            texts(out@) == commands_in(all.take(i as int)),
        decreases lines.len() - i,
    {
        assert(all.take(i + 1).drop_last() =~= all.take(i as int));
        let ghost before = texts(out@);
        let t = trim(lines[i].as_str());
        let ghost tv = t@;
        if !t.as_str().is_empty() {
            out.push(t);
            assert(texts(out@) =~= before.push(tv));
        }
        i = i + 1;
    }
    assert(all.take(i as int) =~= all);
    let bytes: usize = whole.as_str().as_bytes_vec().len();
    (out, bytes)
}

/// The ends of lines.
pub open spec fn is_break(c: char) -> bool {
    c == '\n' || c == '\r'
}

/// The ends of lines.
pub open spec fn breaks() -> spec_fn(char) -> bool {
    |c: char| is_break(c)
}

/// Everything but the ends of lines.
pub open spec fn unbroken() -> spec_fn(char) -> bool {
    |c: char| !is_break(c)
}

/// The pieces of `s` from `i` on between the ends of lines, the empty ones left
/// out.
pub open spec fn line_pieces(s: Seq<char>, i: int) -> Seq<Seq<char>>
    decreases s.len() - i,
{
    let a = fwd_while(s, i, breaks());
    let e = fwd_while(s, a, unbroken());
    if !(0 <= i <= s.len()) || a >= s.len() {
        Seq::empty()
    } else {
        proof {
            lemma_fwd_while(s, i, breaks());
            lemma_fwd_while(s, a + 1, unbroken());
        }
        seq![s.subrange(a, e)] + line_pieces(s, e)
    }
}

/// Pieces with a space between each two.
pub open spec fn spaced(p: Seq<Seq<char>>) -> Seq<char>
    decreases p.len(),
{
    if p.len() == 0 {
        Seq::empty()
    } else if p.len() == 1 {
        p[0]
    } else {
        spaced(p.drop_last()).push(' ') + p.last()
    }
}

/// A text on one line.
#[verifier::opaque]
pub open spec fn flattened(s: Seq<char>) -> Seq<char> {
    if exists|i: int| 0 <= i < s.len() && is_break(#[trigger] s[i]) {
        spaced(line_pieces(s, 0))
    } else {
        s
    }
}

fn has_break(v: &Vec<char>) -> (r: bool)
    ensures
        r == exists|i: int| 0 <= i < v@.len() && is_break(#[trigger] v@[i]),
{
    let mut i: usize = 0;
    while i < v.len()
        invariant
            i <= v@.len(),
            forall|k: int| 0 <= k < i ==> !is_break(#[trigger] v@[k]),
        decreases v.len() - i,
    {
        if v[i] == '\n' || v[i] == '\r' {
            assert(is_break(v@[i as int]));
            return true;
        }
        i = i + 1;
    }
    false
}

/// Pasted text on one line: the ends of lines become spaces.
pub fn one_line(s: String) -> (r: String)
    ensures
        r@ == flattened(s@),
{
    proof {
        reveal(flattened);
    }
    let v = chars_of(s.as_str());
    if !has_break(&v) {
        return s;
    }
    let ghost all = line_pieces(s@, 0);
    let ghost mut done: Seq<Seq<char>> = Seq::empty();
    let mut out = String::new();
    let mut i: usize = 0;
    let mut first: bool = true;
    assert(done + line_pieces(s@, 0) =~= all);
    assert(out@ =~= spaced(done));
    while i < v.len()
        invariant
            i <= v@.len(),
            v@ == s@,
            all == line_pieces(s@, 0),
            done + line_pieces(s@, i as int) == all,
            out@ == spaced(done),
            first == (done.len() == 0),
        decreases v.len() - i,
    {
        let ghost i0 = i as int;
        let mut a: usize = i;
        while a < v.len() && (v[a] == '\n' || v[a] == '\r')
            invariant
                i0 <= a <= v@.len(),
                v@ == s@,
                fwd_while(s@, i0, breaks()) == fwd_while(s@, a as int, breaks()),
            decreases v.len() - a,
        {
            a = a + 1;
        }
        let mut e: usize = a;
        while e < v.len() && v[e] != '\n' && v[e] != '\r'
            invariant
                a <= e <= v@.len(),
                v@ == s@,
                fwd_while(s@, a as int, unbroken()) == fwd_while(s@, e as int, unbroken()),
            decreases v.len() - e,
        {
            e = e + 1;
        }
        if a < v.len() {
            let piece = text_of(&v, a, e);
            if !first {
                out.push(' ');
            }
            out.append(piece.as_str());
            first = false;
            proof {
                let next = done.push(piece@);
                assert(next.drop_last() =~= done);
                assert(next + line_pieces(s@, e as int) =~= done + (seq![piece@] + line_pieces(
                    s@,
                    e as int,
                )));
                assert(out@ =~= spaced(next));
                done = next;
            }
        } else {
            assert(line_pieces(s@, i0).len() == 0);
            assert(line_pieces(s@, e as int).len() == 0);
            assert(done + line_pieces(s@, e as int) =~= done + line_pieces(s@, i0));
        }
        i = e;
    }
    assert(done + line_pieces(s@, i as int) =~= done);
    out
}

/// A text put on one line has no line break; one that had none is as it was.
pub proof fn law_a_flattened_text_is_one_line(s: Seq<char>)
    ensures
        !flattened(s).contains('\n'),
        !flattened(s).contains('\r'),
        !s.contains('\n') && !s.contains('\r') ==> flattened(s) == s,
{
    reveal(flattened);
    let f = flattened(s);
    if exists|i: int| 0 <= i < s.len() && is_break(#[trigger] s[i]) {
        let i = choose|i: int| 0 <= i < s.len() && is_break(#[trigger] s[i]);
        assert(s.contains(s[i]));
        lemma_pieces_unbroken(s, 0);
        lemma_spaced_unbroken(line_pieces(s, 0));
        assert(all_unbroken(f));
        if f.contains('\n') {
            let k = choose|k: int| 0 <= k < f.len() && f[k] == '\n';
            assert(!is_break(f[k]));
        }
        if f.contains('\r') {
            let k = choose|k: int| 0 <= k < f.len() && f[k] == '\r';
            assert(!is_break(f[k]));
        }
    } else {
        if f.contains('\n') {
            let k = choose|k: int| 0 <= k < f.len() && f[k] == '\n';
            assert(is_break(s[k]));
        }
        if f.contains('\r') {
            let k = choose|k: int| 0 <= k < f.len() && f[k] == '\r';
            assert(is_break(s[k]));
        }
    }
}

/// No break in a text.
spec fn all_unbroken(t: Seq<char>) -> bool {
    forall|k: int| 0 <= k < t.len() ==> !is_break(#[trigger] t[k])
}

proof fn lemma_pieces_unbroken(s: Seq<char>, i: int)
    requires
        0 <= i,
    ensures
        forall|p: int|
            0 <= p < line_pieces(s, i).len() ==> all_unbroken(#[trigger] line_pieces(s, i)[p]),
    decreases s.len() - i,
{
    let a = fwd_while(s, i, breaks());
    let e = fwd_while(s, a, unbroken());
    if i <= s.len() {
        lemma_fwd_while(s, i, breaks());
        if a < s.len() {
            lemma_fwd_while(s, a, unbroken());
            lemma_fwd_while(s, a + 1, unbroken());
            assert(!breaks()(s[a]));
            assert(unbroken()(s[a]));
            assert(e == fwd_while(s, a + 1, unbroken()));
            lemma_pieces_unbroken(s, e);
            let piece = s.subrange(a, e);
            assert(all_unbroken(piece)) by {
                assert forall|k: int| 0 <= k < piece.len() implies !is_break(#[trigger] piece[k]) by {
                    assert(unbroken()(s[a + k]));
                }
            }
            let all = line_pieces(s, i);
            let rest = line_pieces(s, e);
            assert(all == seq![piece] + rest);
            assert forall|p: int| 0 <= p < all.len() implies all_unbroken(#[trigger] all[p]) by {
                if p > 0 {
                    assert(all[p] == rest[p - 1]);
                }
            }
        }
    }
}

proof fn lemma_spaced_unbroken(p: Seq<Seq<char>>)
    requires
        forall|i: int| 0 <= i < p.len() ==> all_unbroken(#[trigger] p[i]),
    ensures
        all_unbroken(spaced(p)),
    decreases p.len(),
{
    if p.len() > 1 {
        let f = p.drop_last();
        assert forall|i: int| 0 <= i < f.len() implies all_unbroken(#[trigger] f[i]) by {
            assert(f[i] == p[i]);
        }
        lemma_spaced_unbroken(f);
        assert(all_unbroken(p[p.len() - 1]));
        let t = spaced(p);
        let h = spaced(f);
        assert(t == h.push(' ') + p.last());
        assert forall|k: int| 0 <= k < t.len() implies !is_break(#[trigger] t[k]) by {
            if k < h.len() {
                assert(t[k] == h[k]);
            } else if k > h.len() {
                assert(t[k] == p.last()[k - h.len() - 1]);
            }
        }
    } else if p.len() == 1 {
        assert(all_unbroken(p[0]));
    }
}

} // verus!
