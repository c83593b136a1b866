//! The state of the repository, as `git status --porcelain --branch` prints it.

use crate::filedialog::texts;
use crate::strings::{chars_of, text_of};
use crate::text::{
    begins_with, find, first_place, is_at, split_lines, text_lines, trim, trim_text,
};
use vstd::prelude::*;
use vstd::string::*;

verus! {

/// The branch that the first line names, where it names one.
pub open spec fn branch_of(head: Seq<char>) -> Option<Seq<char>> {
    let rest = head.skip(3);
    let p = first_place(rest, "..."@, 0);
    let branch = trim_text(
        if p >= 0 {
            rest.take(p)
        } else {
            rest
        },
    );
    if !begins_with(head, "## "@) || branch.len() == 0 || begins_with(branch, "HEAD"@) {
        None
    } else {
        Some(branch)
    }
}

/// The branch, and whether something is not committed; none outside a branch.
pub open spec fn status_of(out: Seq<char>) -> Option<(Seq<char>, bool)> {
    let lines = text_lines(out);
    if lines.len() == 0 || branch_of(lines[0]) is None {
        None
    } else {
        Some((branch_of(lines[0])->0, lines.len() > 1))
    }
}

fn starts(v: &Vec<char>, p: &Vec<char>) -> (r: bool)
    ensures
        r == begins_with(v@, p@),
{
    if p.len() > v.len() {
        return false;
    }
    assert(v@.subrange(0, p@.len() as int) =~= v@.take(p@.len() as int));
    is_at(v, p, 0)
}

fn branch(head: &str) -> (r: Option<String>)
    ensures
        crate::buffer::opt_text(r) == branch_of(head@),
{
    let v = chars_of(head);
    proof {
        reveal_strlit("## ");
    }
    if !starts(&v, &chars_of("## ")) {
        return None;
    }
    let rest_text = text_of(&v, 3, v.len());
    assert(rest_text@ =~= head@.skip(3));
    let rest = chars_of(rest_text.as_str());
    let stop: usize = match find(&rest, &chars_of("..."), 0) {
        Some(p) => p,
        None => rest.len(),
    };
    let named = text_of(&rest, 0, stop);
    proof {
        assert(rest@.subrange(0, stop as int) =~= rest@.take(stop as int));
        assert(rest@.take(rest@.len() as int) =~= rest@);
    }
    let b = trim(named.as_str());
    let bv = chars_of(b.as_str());
    if bv.len() == 0 || starts(&bv, &chars_of("HEAD")) {
        return None;
    }
    Some(b)
}

/// The branch of the repository and whether something is not committed. None
/// where the output names no branch.
pub fn parse_git_status(out: &str) -> (r: Option<(String, bool)>)
    ensures
        match r {
            Some((b, dirty)) => status_of(out@) == Some((b@, dirty)),
            None => status_of(out@) is None,
        },
{
    let lines = split_lines(out);
    if lines.len() == 0 {
        assert(texts(lines@).len() == 0);
        return None;
    }
    assert(texts(lines@)[0] == lines@[0]@);
    match branch(lines[0].as_str()) {
        Some(b) => Some((b, lines.len() > 1)),
        None => None,
    }
}

/// A status line names the branch behind two number signs and a space, up to the
/// three dots before the branch that it follows.
pub proof fn law_the_branch_is_before_the_dots(b: Seq<char>, rest: Seq<char>)
    requires
        b.len() > 0,
        !b.contains('.'),
        trim_text(b) == b,
        !begins_with(b, "HEAD"@),
    ensures
        branch_of("## "@ + b) == Some(b),
        branch_of("## "@ + b + "..."@ + rest) == Some(b),
{
    reveal_strlit("## ");
    reveal_strlit("...");
    let s = "## "@;
    let d = "..."@;
    let one = s + b;
    assert(one.skip(3) =~= b);
    assert(one.take(3) =~= s);
    crate::textlaws::law_the_first_place_is_found(b, d);
    let p = first_place(b, d, 0);
    if p >= 0 {
        assert(b.subrange(p, p + 3)[0] == '.');
        assert(b[p] == '.');
        assert(b.contains(b[p]));
    }
    let two = s + b + d + rest;
    let tail = b + d + rest;
    assert(two.skip(3) =~= tail);
    assert(two.take(3) =~= s);
    crate::textlaws::law_the_first_place_is_found(tail, d);
    let q = first_place(tail, d, 0);
    let n = b.len() as int;
    assert(tail.subrange(n, n + 3) =~= d);
    if 0 <= q < n {
        assert(tail.subrange(q, q + 3)[0] == '.');
        assert(tail[q] == b[q]);
        assert(b.contains(b[q]));
    }
    assert(q == n);
    assert(tail.take(n) =~= b);
}

} // verus!
