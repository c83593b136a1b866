//! Paths as text with `/` between their parts.

use crate::buffer::opt_text;
use crate::filedialog::texts;
use crate::strings::{chars_of, text_of};
use vstd::prelude::*;
use vstd::string::*;

verus! {

/// The path without slashes, and without parts that are a lone dot, at its end.
pub open spec fn trimmed(p: Seq<char>) -> Seq<char>
    decreases p.len(),
{
    if p.len() > 0 && p.last() == '/' {
        trimmed(p.drop_last())
    } else if p.len() > 1 && p.last() == '.' && p[p.len() - 2] == '/' {
        trimmed(p.drop_last())
    } else {
        p
    }
}

/// What follows the last slash before position `i`, up to there.
pub open spec fn last_part(p: Seq<char>, i: int) -> Seq<char>
    decreases i,
{
    p.skip(part_start(p, i))
}

/// Where the part that ends at `i` starts.
pub open spec fn part_start(p: Seq<char>, i: int) -> int
    decreases i,
{
    if i <= 0 || p[i - 1] == '/' {
        i
    } else {
        part_start(p, i - 1)
    }
}

/// The last part of a path, unless it is a dot or two, or there is none.
pub open spec fn base_name(p: Seq<char>) -> Option<Seq<char>> {
    let t = trimmed(p);
    let b = last_part(t, t.len() as int);
    if b.len() == 0 || b == seq!['.'] || b == seq!['.', '.'] {
        None
    } else {
        Some(b)
    }
}

/// The last part of a path, or the whole of it where there is none.
pub open spec fn display_name(p: Seq<char>) -> Seq<char> {
    match base_name(p) {
        Some(b) => b,
        None => p,
    }
}

/// The last part of a path, or none where it is the root or ends in dots.
pub fn file_name(p: &str) -> (r: Option<String>)
    ensures
        opt_text(r) == base_name(p@),
{
    let v = chars_of(p);
    assert(v@.take(v@.len() as int) =~= p@);
    let n: usize = trim_end(&v, v.len());
    let s: usize = start_of_part(&v, n);
    let ghost t = v@.take(n as int);
    proof {
        assert(last_part(t, n as int) =~= v@.subrange(s as int, n as int));
    }
    let ghost b = last_part(t, n as int);
    if s == n {
        return None;
    }
    if n - s == 1 && v[s] == '.' {
        assert(b =~= seq!['.']);
        return None;
    }
    if n - s == 2 && v[s] == '.' && v[s + 1] == '.' {
        assert(b =~= seq!['.', '.']);
        return None;
    }
    proof {
        if b == seq!['.'] {
            assert(b[0] == '.');
        }
        if b == seq!['.', '.'] {
            assert(b[0] == '.' && b[1] == '.');
        }
    }
    Some(text_of(&v, s, n))
}

/// The last part of a path, or the whole of it where there is none.
pub fn shown_name(p: &str) -> (r: String)
    ensures
        r@ == display_name(p@),
{
    match file_name(p) {
        Some(n) => n,
        None => p.to_owned(),
    }
}

/// `name` inside the folder `dir`; an absolute name stands for itself.
pub open spec fn joined_path(dir: Seq<char>, name: Seq<char>) -> Seq<char> {
    if dir.len() == 0 || name.len() > 0 && name[0] == '/' {
        name
    } else if dir.last() == '/' {
        dir + name
    } else {
        dir.push('/') + name
    }
}

/// `name` inside the folder `dir`; an absolute name stands for itself.
pub fn join_path(dir: &str, name: &str) -> (r: String)
    ensures
        r@ == joined_path(dir@, name@),
{
    let d = chars_of(dir);
    let n = chars_of(name);
    if d.len() == 0 || n.len() > 0 && n[0] == '/' {
        return name.to_owned();
    }
    let mut r = dir.to_owned();
    if d[d.len() - 1] != '/' {
        r.push('/');
    }
    r.append(name);
    r
}

/// The folder that a path lies in; none for the root.
pub open spec fn parent_path(p: Seq<char>) -> Option<Seq<char>> {
    let t = trimmed(p);
    let s = part_start(t, t.len() as int);
    let head = trimmed(t.take(s));
    if t.len() == 0 {
        None
    } else if s > 0 && head.len() == 0 {
        Some(seq!['/'])
    } else {
        Some(head)
    }
}

/// `v[..n]` without slashes and lone dots at its end.
fn trim_end(v: &Vec<char>, n: usize) -> (r: usize)
    requires
        n <= v@.len(),
    ensures
        r <= n,
        trimmed(v@.take(n as int)) == v@.take(r as int),
{
    let mut r: usize = n;
    while r > 0 && (v[r - 1] == '/' || (r > 1 && v[r - 1] == '.' && v[r - 2] == '/'))
        invariant
            r <= n <= v@.len(),
            trimmed(v@.take(n as int)) == trimmed(v@.take(r as int)),
        decreases r,
    {
        assert(v@.take(r as int).drop_last() =~= v@.take(r - 1));
        r = r - 1;
    }
    r
}

/// The folder that a path lies in; none for the root.
pub fn parent(p: &str) -> (r: Option<String>)
    ensures
        opt_text(r) == parent_path(p@),
{
    let v = chars_of(p);
    assert(v@.take(v@.len() as int) =~= p@);
    let n: usize = trim_end(&v, v.len());
    let ghost t = v@.take(n as int);
    if n == 0 {
        return None;
    }
    let s: usize = start_of_part(&v, n);
    assert(t.take(s as int) =~= v@.take(s as int));
    let h: usize = trim_end(&v, s);
    if s > 0 && h == 0 {
        return Some(crate::strings::one_char('/'));
    }
    let r = text_of(&v, 0, h);
    assert(r@ =~= v@.take(h as int));
    Some(r)
}

/// Trimming takes a path's end away and leaves a part at the end, or nothing. All
/// of it goes only where it begins with the root.
pub proof fn lemma_trimmed(p: Seq<char>)
    ensures
        trimmed(p).len() <= p.len(),
        trimmed(p) == p.take(trimmed(p).len() as int),
        trimmed(p).len() > 0 ==> trimmed(p).last() != '/',
        trimmed(p).len() == 0 && p.len() > 0 ==> p[0] == '/',
        trimmed(trimmed(p)) == trimmed(p),
    decreases p.len(),
{
    if p.len() > 0 && (p.last() == '/' || (p.len() > 1 && p.last() == '.' && p[p.len() - 2]
        == '/')) {
        lemma_trimmed(p.drop_last());
        assert(p.drop_last().take(trimmed(p).len() as int) =~= p.take(trimmed(p).len() as int));
    } else {
        assert(p.take(p.len() as int) =~= p);
    }
}

/// A part has no slash in it, and there is one before it unless it is the first.
pub proof fn lemma_part(p: Seq<char>, i: int)
    requires
        0 <= i <= p.len(),
    ensures
        0 <= part_start(p, i) <= i,
        i > 0 && p[i - 1] != '/' ==> part_start(p, i) < i,
        part_start(p, i) > 0 ==> p[part_start(p, i) - 1] == '/',
        forall|k: int| part_start(p, i) <= k < i ==> p[k] != '/',
    decreases i,
{
    if i > 0 && p[i - 1] != '/' {
        lemma_part(p, i - 1);
    }
}

/// Where the parts of a path lie in it, from the first to the last. The root is a
/// part, and so is a lone dot that the path begins with. Slashes in a row count
/// as one; slashes at the end and other lone dots count for nothing.
pub open spec fn spans(p: Seq<char>) -> Seq<(int, int)>
    decreases p.len(),
{
    let t = trimmed(p);
    if t.len() == 0 {
        if p.len() == 0 {
            Seq::empty()
        } else {
            seq![(0, 1)]
        }
    } else {
        proof {
            lemma_trimmed(p);
            lemma_part(t, t.len() as int);
        }
        let s = part_start(t, t.len() as int);
        spans(t.take(s)).push((s, t.len() as int))
    }
}

/// The parts of a path.
pub open spec fn parts(p: Seq<char>) -> Seq<Seq<char>> {
    Seq::new(spans(p).len(), |i: int| p.subrange(spans(p)[i].0, spans(p)[i].1))
}

/// Whether two paths name the same place: whether they have the same parts.
pub open spec fn same_path(a: Seq<char>, b: Seq<char>) -> bool {
    parts(a) == parts(b)
}

/// Whether one of the paths names the same place as `p`.
pub open spec fn holds_path(s: Seq<Seq<char>>, p: Seq<char>) -> bool {
    exists|i: int| 0 <= i < s.len() && same_path(#[trigger] s[i], p)
}

/// No two of the paths name the same place.
pub open spec fn distinct_paths(s: Seq<Seq<char>>) -> bool {
    forall|i: int, j: int|
        0 <= i < j < s.len() ==> !same_path(#[trigger] s[i], #[trigger] s[j])
}

/// The parts lie in the path one after another.
proof fn lemma_spans(p: Seq<char>)
    ensures
        forall|i: int|
            0 <= i < spans(p).len() ==> 0 <= (#[trigger] spans(p)[i]).0 < spans(p)[i].1
                <= p.len(),
        spans(p).len() > 0 ==> spans(p).last().1 <= p.len(),
    decreases p.len(),
{
    let t = trimmed(p);
    lemma_trimmed(p);
    if t.len() > 0 {
        lemma_part(t, t.len() as int);
        lemma_spans(t.take(part_start(t, t.len() as int)));
    }
}

/// The parts of a path are its last part behind those of what comes before it.
proof fn lemma_parts_step(p: Seq<char>)
    ensures
        ({
            let t = trimmed(p);
            let s = part_start(t, t.len() as int);
            if t.len() > 0 {
                &&& 0 <= s < t.len() <= p.len()
                &&& parts(p) == parts(t.take(s)).push(t.skip(s))
                &&& t.skip(s).len() > 0 && t.skip(s)[0] != '/'
            } else if p.len() > 0 {
                parts(p) == seq![seq!['/']]
            } else {
                parts(p).len() == 0
            }
        }),
{
    let t = trimmed(p);
    let s = part_start(t, t.len() as int);
    lemma_trimmed(p);
    if t.len() > 0 {
        lemma_part(t, t.len() as int);
        let h = t.take(s);
        lemma_spans(h);
        assert forall|i: int| 0 <= i < spans(h).len() implies parts(p)[i] == #[trigger] parts(
            h,
        )[i] by {
            let (a, b) = spans(h)[i];
            assert(spans(p)[i] == spans(h)[i]);
            assert(p.subrange(a, b) =~= h.subrange(a, b));
        }
        assert(p.subrange(s, t.len() as int) =~= t.skip(s));
        assert(parts(p) =~= parts(h).push(t.skip(s)));
    } else if p.len() > 0 {
        assert(p.subrange(0, 1) =~= seq!['/']);
        assert(parts(p) =~= seq![seq!['/']]);
    }
}

/// Whether two paths have the same parts. They are held against each other from
/// the end, where paths mostly differ.
pub fn same_parts(a: &Vec<char>, b: &Vec<char>) -> (r: bool)
    ensures
        r == same_path(a@, b@),
{
    let mut n: usize = a.len();
    let mut m: usize = b.len();
    assert(a@.take(n as int) =~= a@);
    assert(b@.take(m as int) =~= b@);
    loop
        invariant
            n <= a@.len(),
            m <= b@.len(),
            same_path(a@, b@) == same_path(a@.take(n as int), b@.take(m as int)),
        decreases n,
    {
        let x: usize = trim_end(a, n);
        let y: usize = trim_end(b, m);
        let ghost p = a@.take(n as int);
        let ghost q = b@.take(m as int);
        proof {
            lemma_parts_step(p);
            lemma_parts_step(q);
        }
        if x == 0 || y == 0 {
            proof {
                if x == 0 && y > 0 {
                    assert(parts(q).len() > 0 && parts(q).last()[0] != '/');
                    if parts(p) == parts(q) {
                        assert(parts(p).last()[0] == '/');
                    }
                }
                if y == 0 && x > 0 {
                    assert(parts(p).len() > 0 && parts(p).last()[0] != '/');
                    if parts(p) == parts(q) {
                        assert(parts(q).last()[0] == '/');
                    }
                }
                if x == 0 && y == 0 {
                    assert(n == 0 && m == 0 ==> parts(p) =~= parts(q));
                    assert(parts(p).len() == if n == 0 { 0nat } else { 1nat });
                    assert(parts(q).len() == if m == 0 { 0nat } else { 1nat });
                }
            }
            return x == 0 && y == 0 && (n == 0) == (m == 0);
        }
        let ghost t = a@.take(x as int);
        let ghost u = b@.take(y as int);
        let s: usize = start_of_part(a, x);
        let e: usize = start_of_part(b, y);
        proof {
            assert(a@.take(s as int) =~= t.take(s as int));
            assert(b@.take(e as int) =~= u.take(e as int));
            assert(t.skip(s as int) =~= a@.subrange(s as int, x as int));
            assert(u.skip(e as int) =~= b@.subrange(e as int, y as int));
            assert(parts(p).last() == t.skip(s as int));
            assert(parts(q).last() == u.skip(e as int));
            assert(parts(p).drop_last() =~= parts(t.take(s as int)));
            assert(parts(q).drop_last() =~= parts(u.take(e as int)));
        }
        if !same_piece(a, s, x, b, e, y) {
            return false;
        }
        n = s;
        m = e;
    }
}

/// Where the part that ends at `n` starts.
fn start_of_part(v: &Vec<char>, n: usize) -> (s: usize)
    requires
        n <= v@.len(),
    ensures
        s <= n,
        s == part_start(v@.take(n as int), n as int),
{
    let ghost t = v@.take(n as int);
    let mut s: usize = n;
    while s > 0 && v[s - 1] != '/'
        invariant
            s <= n <= v@.len(),
            t == v@.take(n as int),
            part_start(t, n as int) == part_start(t, s as int),
        decreases s,
    {
        s = s - 1;
    }
    s
}

/// Whether `a[i..j]` and `b[k..l]` are the same.
fn same_piece(a: &Vec<char>, i: usize, j: usize, b: &Vec<char>, k: usize, l: usize) -> (r: bool)
    requires
        i <= j <= a@.len(),
        k <= l <= b@.len(),
    ensures
        r == (a@.subrange(i as int, j as int) == b@.subrange(k as int, l as int)),
{
    let ghost x = a@.subrange(i as int, j as int);
    let ghost y = b@.subrange(k as int, l as int);
    if j - i != l - k {
        assert(x.len() != y.len());
        return false;
    }
    let n: usize = j - i;
    let mut c: usize = 0;
    while c < n
        invariant
            c <= n,
            n == j - i == l - k,
            i <= j <= a@.len(),
            k <= l <= b@.len(),
            x == a@.subrange(i as int, j as int),
            y == b@.subrange(k as int, l as int),
            forall|d: int| 0 <= d < c ==> x[d] == y[d],
        decreases n - c,
    {
        if a[i + c] != b[k + c] {
            assert(x[c as int] != y[c as int]);
            return false;
        }
        assert(x[c as int] == y[c as int]);
        c = c + 1;
    }
    assert(x =~= y);
    true
}

/// Whether two paths name the same place.
pub fn is_same_path(a: &str, b: &str) -> (r: bool)
    ensures
        r == same_path(a@, b@),
{
    same_parts(&chars_of(a), &chars_of(b))
}

/// Whether one of the paths names the same place as `p`.
pub fn has_path(v: &Vec<String>, p: &str) -> (r: bool)
    ensures
        r == holds_path(texts(v@), p@),
{
    let mut i: usize = 0;
    while i < v.len()
        invariant
            i <= v@.len(),
            forall|k: int| 0 <= k < i ==> !same_path(#[trigger] texts(v@)[k], p@),
        decreases v.len() - i,
    {
        if is_same_path(v[i].as_str(), p) {
            assert(same_path(texts(v@)[i as int], p@));
            return true;
        }
        i = i + 1;
    }
    false
}

/// Whether the parts of `root` are the first ones of `path`.
pub open spec fn leads_to(root: Seq<char>, path: Seq<char>) -> bool {
    parts(root).len() <= parts(path).len() && parts(path).take(parts(root).len() as int) == parts(
        root,
    )
}

/// What follows the folder `root` in `path`: from the first part that is not of
/// the root to the last; none where the path does not lie in it.
pub open spec fn relative_path(root: Seq<char>, path: Seq<char>) -> Option<Seq<char>> {
    let n = parts(root).len() as int;
    if !leads_to(root, path) {
        None
    } else if n == spans(path).len() {
        Some(Seq::empty())
    } else {
        Some(path.subrange(spans(path)[n].0, spans(path).last().1))
    }
}

/// Places in a text, as numbers.
spec fn pairs(v: Seq<(usize, usize)>) -> Seq<(int, int)> {
    Seq::new(v.len(), |i: int| (v[i].0 as int, v[i].1 as int))
}

/// The same, the last first.
spec fn pairs_back(v: Seq<(usize, usize)>) -> Seq<(int, int)> {
    Seq::new(
        v.len(),
        |i: int| (v[v.len() - 1 - i].0 as int, v[v.len() - 1 - i].1 as int),
    )
}

/// Where the parts of a path lie in it.
fn part_spans(v: &Vec<char>) -> (r: Vec<(usize, usize)>)
    ensures
        pairs(r@) == spans(v@),
        forall|i: int|
            0 <= i < r@.len() ==> (#[trigger] r@[i]).0 < r@[i].1 <= v@.len(),
{
    let mut back: Vec<(usize, usize)> = Vec::new();
    let mut n: usize = v.len();
    assert(v@.take(n as int) =~= v@);
    assert(spans(v@) =~= spans(v@.take(n as int)) + pairs_back(back@));
    while n > 0
        invariant
            n <= v@.len(),
            spans(v@) == spans(v@.take(n as int)) + pairs_back(back@),
        decreases n,
    {
        let ghost p = v@.take(n as int);
        let ghost before = back@;
        let x: usize = trim_end(v, n);
        if x == 0 {
            back.push((0, 1));
            n = 0;
            proof {
                assert(spans(p) == seq![(0int, 1int)]);
                assert(spans(v@.take(0)) =~= Seq::empty());
                assert(pairs_back(back@) =~= seq![(0int, 1int)] + pairs_back(before));
                assert(spans(v@.take(0)) + pairs_back(back@) =~= spans(p) + pairs_back(before));
            }
        } else {
            let s: usize = start_of_part(v, x);
            proof {
                lemma_parts_step(p);
                let t = v@.take(x as int);
                assert(t.take(s as int) =~= v@.take(s as int));
                assert(spans(p) == spans(v@.take(s as int)).push((s as int, x as int)));
            }
            back.push((s, x));
            n = s;
            proof {
                assert(pairs_back(back@) =~= seq![(s as int, x as int)] + pairs_back(before));
                assert(spans(v@.take(s as int)) + pairs_back(back@) =~= spans(p) + pairs_back(
                    before,
                ));
            }
        }
    }
    assert(spans(v@.take(0)) =~= Seq::empty());
    assert(spans(v@) =~= pairs_back(back@));
    let mut r: Vec<(usize, usize)> = Vec::new();
    let mut i: usize = back.len();
    while i > 0
        invariant
            i <= back@.len(),
            r@.len() == back@.len() - i,
            forall|k: int| 0 <= k < r@.len() ==> #[trigger] r@[k] == back@[back@.len() - 1 - k],
        decreases i,
    {
        i = i - 1;
        r.push(back[i]);
    }
    proof {
        assert(pairs(r@) =~= pairs_back(back@));
        lemma_spans(v@);
        assert forall|k: int| 0 <= k < r@.len() implies (#[trigger] r@[k]).0 < r@[k].1
            <= v@.len() by {
            assert(spans(v@)[k] == (r@[k].0 as int, r@[k].1 as int));
        }
    }
    r
}

/// What follows the folder `root` in `path`; none where the path does not lie
/// in it.
pub fn relative(root: &str, path: &str) -> (r: Option<String>)
    ensures
        opt_text(r) == relative_path(root@, path@),
{
    let a = chars_of(root);
    let b = chars_of(path);
    let x = part_spans(&a);
    let y = part_spans(&b);
    assert(spans(a@).len() == x@.len() && spans(b@).len() == y@.len());
    if x.len() > y.len() {
        return None;
    }
    let mut i: usize = 0;
    while i < x.len()
        invariant
            i <= x@.len() <= y@.len(),
            a@ == root@,
            b@ == path@,
            pairs(x@) == spans(a@),
            pairs(y@) == spans(b@),
            forall|k: int| 0 <= k < x@.len() ==> (#[trigger] x@[k]).0 < x@[k].1 <= a@.len(),
            forall|k: int| 0 <= k < y@.len() ==> (#[trigger] y@[k]).0 < y@[k].1 <= b@.len(),
            forall|k: int| 0 <= k < i ==> parts(root@)[k] == #[trigger] parts(path@)[k],
        decreases x.len() - i,
    {
        let (s, e) = x[i];
        let (k, l) = y[i];
        assert(spans(a@)[i as int] == (s as int, e as int));
        assert(spans(b@)[i as int] == (k as int, l as int));
        if !same_piece(&a, s, e, &b, k, l) {
            assert(parts(root@)[i as int] != parts(path@)[i as int]);
            assert(parts(path@).take(parts(root@).len() as int)[i as int]
                == parts(path@)[i as int]);
            return None;
        }
        assert(parts(root@)[i as int] == parts(path@)[i as int]);
        i = i + 1;
    }
    assert(parts(path@).take(parts(root@).len() as int) =~= parts(root@));
    if x.len() == y.len() {
        let r = String::new();
        assert(r@ =~= Seq::empty());
        return Some(r);
    }
    let from: usize = y[x.len()].0;
    let to: usize = y[y.len() - 1].1;
    proof {
        lemma_spans_increase(path@, x@.len() as int, y@.len() - 1);
        assert(spans(path@)[x@.len() as int] == (y@[x@.len() as int].0 as int, y@[x@.len() as int].1 as int));
        assert(spans(path@)[y@.len() - 1] == (y@[y@.len() - 1].0 as int, y@[y@.len() - 1].1 as int));
    }
    Some(text_of(&b, from, to))
}

/// Later parts lie further on.
proof fn lemma_spans_increase(p: Seq<char>, i: int, j: int)
    requires
        0 <= i <= j < spans(p).len(),
    ensures
        spans(p)[i].0 <= spans(p)[j].0 < spans(p)[j].1,
        i < j ==> spans(p)[i].1 <= spans(p)[j].0,
    decreases p.len(),
{
    let t = trimmed(p);
    lemma_trimmed(p);
    lemma_spans(p);
    if t.len() > 0 {
        let s = part_start(t, t.len() as int);
        lemma_part(t, t.len() as int);
        let h = t.take(s);
        lemma_spans(h);
        if j < spans(h).len() {
            lemma_spans_increase(h, i, j);
        } else if i < j {
            assert(spans(h)[i].1 <= s);
        }
    }
}

/// The places of the parts of a name inside a folder: a lone dot at its beginning
/// counts for nothing there.
spec fn inner_spans(name: Seq<char>) -> Seq<(int, int)> {
    let s = spans(name);
    if s.len() > 0 && s[0] == (0int, 1int) && name[0] == '.' {
        s.skip(1)
    } else {
        s
    }
}

/// Places `k` characters further on.
spec fn shifted(s: Seq<(int, int)>, k: int) -> Seq<(int, int)> {
    Seq::new(s.len(), |i: int| (s[i].0 + k, s[i].1 + k))
}

proof fn lemma_part_start_behind(d: Seq<char>, name: Seq<char>, i: int)
    requires
        d.len() > 0,
        d.last() == '/',
        0 <= i <= name.len(),
    ensures
        part_start(d + name, d.len() + i) == d.len() + part_start(name, i),
    decreases i,
{
    if i > 0 {
        assert((d + name)[d.len() + i - 1] == name[i - 1]);
        if name[i - 1] != '/' {
            lemma_part_start_behind(d, name, i - 1);
        }
    } else {
        assert((d + name)[d.len() - 1] == d.last());
    }
}

/// Behind a slash a name adds its parts.
proof fn lemma_joined_spans(d: Seq<char>, name: Seq<char>)
    requires
        d.len() > 0,
        d.last() == '/',
        name.len() == 0 || name[0] != '/',
    ensures
        spans(d + name) == spans(d) + shifted(inner_spans(name), d.len() as int),
    decreases name.len(),
{
    let p = d + name;
    let n = name.len() as int;
    let k = d.len() as int;
    if n == 0 {
        assert(p =~= d);
        assert(spans(d) + shifted(inner_spans(name), k) =~= spans(d));
    } else {
        assert(p.last() == name.last());
        assert(n > 1 ==> p[p.len() - 2] == name[n - 2]);
        if n == 1 && name[0] == '.' {
            assert(p[p.len() - 2] == d.last());
            assert(p.drop_last() =~= d);
            lemma_parts_step(name);
            assert(name.take(0).len() == 0);
            assert(spans(name) =~= seq![(0int, 1int)]);
            assert(spans(d) + shifted(inner_spans(name), k) =~= spans(d));
        } else if name.last() == '/' || (n > 1 && name.last() == '.' && name[n - 2] == '/') {
            assert(p.drop_last() =~= d + name.drop_last());
            lemma_joined_spans(d, name.drop_last());
            assert(spans(p) == spans(p.drop_last()));
            assert(spans(name) == spans(name.drop_last()));
        } else {
            assert(trimmed(p) == p);
            assert(trimmed(name) == name);
            let s = part_start(name, n);
            lemma_part(name, n);
            lemma_part_start_behind(d, name, n);
            assert(part_start(p, p.len() as int) == k + s);
            let h = name.take(s);
            assert(p.take(k + s) =~= d + h);
            lemma_joined_spans(d, h);
            assert(spans(p) == spans(d + h).push((k + s, k + n)));
            assert(spans(name) == spans(h).push((s, n)));
            if s > 0 {
                lemma_trimmed(h);
                assert(h[0] == name[0]);
                assert(spans(h).len() > 0);
                assert(spans(name)[0] == spans(h)[0]);
                assert(inner_spans(name) =~= inner_spans(h).push((s, n)));
            } else {
                assert(spans(h) =~= Seq::empty());
                assert(spans(name)[0] == (0int, n));
                assert(inner_spans(name) =~= inner_spans(h).push((s, n)));
            }
            assert(shifted(inner_spans(name), k) =~= shifted(inner_spans(h), k).push(
                (k + s, k + n),
            ));
            assert(spans(p) =~= spans(d) + shifted(inner_spans(name), k));
        }
    }
}

/// The parts of a name inside a folder: those of the name, without a lone dot at
/// its beginning.
pub open spec fn inner_parts(name: Seq<char>) -> Seq<Seq<char>> {
    let s = parts(name);
    if s.len() > 0 && s[0] == seq!['.'] {
        s.skip(1)
    } else {
        s
    }
}

/// The first part of a relative path is where it begins.
proof fn lemma_first_span(name: Seq<char>)
    requires
        name.len() > 0,
        name[0] != '/',
    ensures
        spans(name).len() > 0,
        spans(name)[0].0 == 0,
    decreases name.len(),
{
    let t = trimmed(name);
    lemma_trimmed(name);
    lemma_part(t, t.len() as int);
    let s = part_start(t, t.len() as int);
    if s > 0 {
        assert(t.take(s)[0] == name[0]);
        lemma_first_span(t.take(s));
    } else {
        assert(spans(t.take(0)) =~= Seq::empty());
    }
}

/// What is joined to a folder lies in it: it has the parts of the folder and then
/// those of the name. A name that is written without a lone dot in front and
/// without slashes behind is what follows the folder.
pub proof fn law_a_joined_path_is_inside(dir: Seq<char>, name: Seq<char>)
    requires
        name.len() > 0,
        name[0] != '/',
    ensures
        leads_to(dir, joined_path(dir, name)),
        dir.len() > 0 ==> parts(joined_path(dir, name)) == parts(dir) + inner_parts(name),
        trimmed(name) == name && parts(name)[0] != seq!['.'] ==> relative_path(
            dir,
            joined_path(dir, name),
        ) == Some(name),
{
    let j = joined_path(dir, name);
    lemma_first_span(name);
    lemma_spans(name);
    lemma_trimmed(name);
    let dots = parts(name)[0] == seq!['.'];
    assert(parts(name)[0] == name.subrange(0, spans(name)[0].1));
    assert(dots == (spans(name)[0] == (0int, 1int) && name[0] == '.')) by {
        if dots {
            assert(parts(name)[0].len() == 1 && parts(name)[0][0] == '.');
        } else if spans(name)[0] == (0int, 1int) && name[0] == '.' {
            assert(parts(name)[0] =~= seq!['.']);
        }
    }
    let whole = trimmed(name) == name;
    if whole {
        assert(spans(name).last().1 == name.len());
    }
    if dir.len() == 0 {
        assert(parts(j).take(0) =~= parts(dir));
        if whole {
            assert(j.subrange(0, j.len() as int) =~= name);
        }
    } else {
        let d = if dir.last() == '/' {
            dir
        } else {
            dir.push('/')
        };
        let k = d.len() as int;
        assert(j =~= d + name);
        if dir.last() != '/' {
            assert(d.drop_last() =~= dir);
            assert(trimmed(d) == trimmed(dir));
        }
        assert(spans(d) == spans(dir));
        lemma_spans(dir);
        lemma_joined_spans(d, name);
        let n = spans(dir).len() as int;
        assert forall|i: int| 0 <= i < n implies #[trigger] parts(j)[i] == parts(dir)[i] by {
            let (a, b) = spans(dir)[i];
            assert(spans(j)[i] == spans(dir)[i]);
            assert(j.subrange(a, b) =~= dir.subrange(a, b));
        }
        assert(inner_parts(name).len() == inner_spans(name).len());
        assert forall|m: int| n <= m < spans(j).len() implies #[trigger] parts(j)[m]
            == inner_parts(name)[m - n] by {
            let i = m - n;
            let (a, b) = inner_spans(name)[i];
            let q = if dots {
                i + 1
            } else {
                i
            };
            assert(spans(name)[q] == (a, b));
            assert(spans(j)[n + i] == (a + k, b + k));
            assert(j.subrange(a + k, b + k) =~= name.subrange(a, b));
        }
        assert(parts(j) =~= parts(dir) + inner_parts(name));
        assert(parts(j).take(n) =~= parts(dir));
        if whole && !dots {
            assert(spans(j)[n] == (k, spans(name)[0].1 + k));
            assert(spans(j).last() == shifted(spans(name), k).last());
            assert(j.subrange(k, j.len() as int) =~= name);
        }
    }
}

/// Naming the same place is an equivalence, and slashes and lone dots at the end
/// do not matter to it.
pub proof fn law_paths_are_compared_by_parts(a: Seq<char>, b: Seq<char>, c: Seq<char>)
    ensures
        same_path(a, a),
        same_path(a, b) == same_path(b, a),
        same_path(a, b) && same_path(b, c) ==> same_path(a, c),
        a.len() > 0 ==> same_path(a, a.push('/')),
        a.len() > 0 ==> same_path(a, a.push('/').push('.')),
        leads_to(a, b) == (relative_path(a, b) is Some),
        leads_to(a, a),
{
    assert(parts(a).take(parts(a).len() as int) =~= parts(a));
    if a.len() > 0 {
        let d = a.push('/');
        let e = d.push('.');
        assert(d.drop_last() =~= a);
        assert(e.drop_last() =~= d);
        assert(trimmed(d) == trimmed(a) && trimmed(e) == trimmed(d));
        assert(spans(d) == spans(a) && spans(e) == spans(a));
        lemma_spans(a);
        assert forall|i: int| 0 <= i < spans(a).len() implies #[trigger] parts(a)[i] == parts(d)[i]
            && parts(a)[i] == parts(e)[i] by {
            let (x, y) = spans(a)[i];
            assert(a.subrange(x, y) =~= d.subrange(x, y));
            assert(a.subrange(x, y) =~= e.subrange(x, y));
        }
        assert(parts(a) =~= parts(d));
        assert(parts(a) =~= parts(e));
    }
}

} // verus!
