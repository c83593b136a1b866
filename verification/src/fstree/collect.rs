//! The files that the search looks through.

use crate::filedialog::texts;
use crate::fstree::{comes_to, hidden_name, junk_name, MAX_FILES};
use crate::paths::{parts, relative_path};
use crate::sorting::{
    is_text_before, keys_view, lemma_key_order, lemma_order_of, lemma_text_order, order_of, ordered,
    place_before, sort_order, text_before, KeyState, SortKey,
};
use crate::strings::chars_of;
use vstd::prelude::*;
use vstd::string::*;

verus! {

/// The entries that a walk met: paths, and whether each is a file.
pub open spec fn walk_view(v: Seq<(String, bool)>) -> Seq<(Seq<char>, bool)> {
    Seq::new(v.len(), |i: int| (v[i].0@, v[i].1))
}

/// The files of a walk, in the order that it met them.
pub open spec fn files_in(walk: Seq<(Seq<char>, bool)>) -> Seq<Seq<char>>
    decreases walk.len(),
{
    if walk.len() == 0 {
        Seq::empty()
    } else if walk.last().1 {
        files_in(walk.drop_last()).push(walk.last().0)
    } else {
        files_in(walk.drop_last())
    }
}

/// Whether a walk goes on though there are as many files as are wanted.
pub open spec fn cut_short(walk: Seq<(Seq<char>, bool)>) -> bool {
    exists|k: int|
        0 <= k < walk.len() && #[trigger] files_in(walk.take(k)).len() >= MAX_FILES
}

/// The files that are kept, in the order of the walk: the first ones.
pub open spec fn kept_files(walk: Seq<(Seq<char>, bool)>) -> Seq<Seq<char>> {
    let all = files_in(walk);
    if all.len() <= MAX_FILES {
        all
    } else {
        all.take(MAX_FILES as int)
    }
}

/// A path with its slashes before every other character, so that the parts of
/// paths are compared one by one.
pub open spec fn by_parts(p: Seq<char>) -> Seq<char> {
    Seq::new(
        p.len(),
        |i: int|
            if p[i] == '/' {
                '\0'
            } else {
                p[i]
            },
    )
}

/// What paths are ordered by.
pub open spec fn path_keys(files: Seq<Seq<char>>) -> Seq<KeyState> {
    Seq::new(files.len(), |i: int| KeyState { group: 0, text: by_parts(files[i]) })
}

/// Paths in order, part by part.
pub open spec fn sorted_paths(files: Seq<Seq<char>>) -> Seq<Seq<char>> {
    Seq::new(files.len(), |i: int| files[order_of(path_keys(files))[i] as int])
}

proof fn lemma_files_grow(walk: Seq<(Seq<char>, bool)>, k: int)
    requires
        0 <= k <= walk.len(),
    ensures
        files_in(walk.take(k)).len() <= files_in(walk).len(),
        files_in(walk.take(k)) == files_in(walk).take(files_in(walk.take(k)).len() as int),
        files_in(walk).len() <= walk.len(),
    decreases walk.len(),
{
    if k < walk.len() {
        assert(walk.take(k) =~= walk.drop_last().take(k));
        lemma_files_grow(walk.drop_last(), k);
        assert(files_in(walk.take(k)) =~= files_in(walk).take(
            files_in(walk.take(k)).len() as int,
        ));
    } else {
        assert(walk.take(k) =~= walk);
        assert(files_in(walk) =~= files_in(walk).take(files_in(walk).len() as int));
        if walk.len() > 0 {
            lemma_files_grow(walk.drop_last(), walk.len() - 1);
        }
    }
}

fn part_chars(p: &str) -> (r: Vec<char>)
    ensures
        r@ == by_parts(p@),
{
    let v = chars_of(p);
    let mut r: Vec<char> = Vec::new();
    let mut i: usize = 0;
    while i < v.len()
        invariant
            i <= v@.len(),
            v@ == p@,
            r@ == by_parts(p@.take(i as int)),
        decreases v.len() - i,
    {
        r.push(
            if v[i] == '/' {
                '\0'
            } else {
                v[i]
            },
        );
        i = i + 1;
        assert(r@ =~= by_parts(p@.take(i as int)));
    }
    assert(p@.take(i as int) =~= p@);
    r
}

/// `files` in the order `order`.
fn in_order(files: &Vec<String>, order: &Vec<usize>) -> (r: Vec<String>)
    requires
        order@.len() == files@.len(),
        forall|i: int| 0 <= i < order@.len() ==> (#[trigger] order@[i]) < files@.len(),
    ensures
        texts(r@) == Seq::new(files@.len(), |i: int| texts(files@)[order@[i] as int]),
{
    let mut r: Vec<String> = Vec::new();
    let mut i: usize = 0;
    while i < order.len()
        invariant
            i <= order@.len(),
            order@.len() == files@.len(),
            forall|k: int| 0 <= k < order@.len() ==> (#[trigger] order@[k]) < files@.len(),
            r@.len() == i,
            forall|k: int| 0 <= k < i ==> (#[trigger] r@[k])@ == texts(files@)[order@[k] as int],
        decreases order.len() - i,
    {
        assert(order@[i as int] < files@.len());
        r.push(files[order[i]].clone());
        i = i + 1;
    }
    assert(texts(r@) =~= Seq::new(files@.len(), |i: int| texts(files@)[order@[i] as int]));
    r
}

/// The files that a walk met, in order, and whether there were more than are
/// kept.
pub fn collect_files(walk: &Vec<(String, bool)>) -> (r: (Vec<String>, bool))
    ensures
        texts(r.0@) == sorted_paths(kept_files(walk_view(walk@))),
        r.1 == cut_short(walk_view(walk@)),
{
    let ghost all = walk_view(walk@);
    let mut files: Vec<String> = Vec::new();
    let mut keys: Vec<SortKey> = Vec::new();
    let mut truncated: bool = false;
    let mut i: usize = 0;
    assert(texts(files@) =~= files_in(all.take(0)));
    assert(keys_view(keys@) =~= path_keys(texts(files@)));
    while i < walk.len() && !truncated
        invariant
            i <= walk@.len(),
            all == walk_view(walk@),
            texts(files@) == files_in(all.take(i as int)),
            keys_view(keys@) == path_keys(texts(files@)),
            files@.len() <= MAX_FILES,
            truncated ==> i < walk@.len() && files@.len() >= MAX_FILES,
            forall|k: int|
                0 <= k < i ==> #[trigger] files_in(all.take(k)).len() < MAX_FILES,
        decreases walk.len() - i + (if truncated { 0int } else { 1int }),
    {
        if files.len() >= MAX_FILES {
            truncated = true;
        } else {
            let ghost before = texts(files@);
            assert(all.take(i + 1).drop_last() =~= all.take(i as int));
            assert(all[i as int] == (walk@[i as int].0@, walk@[i as int].1));
            if walk[i].1 {
                let text = part_chars(walk[i].0.as_str());
                let ghost kb = keys_view(keys@);
                files.push(walk[i].0.clone());
                keys.push(SortKey { group: 0, text });
                proof {
                    let p = all[i as int].0;
                    assert(texts(files@) =~= before.push(p));
                    assert(keys_view(keys@) =~= kb.push(
                        KeyState { group: 0, text: by_parts(p) },
                    ));
                    assert(path_keys(before.push(p)) =~= path_keys(before).push(
                        KeyState { group: 0, text: by_parts(p) },
                    ));
                }
            }
            i = i + 1;
        }
    }
    proof {
        lemma_files_grow(all, i as int);
        if truncated {
            assert(files_in(all.take(i as int)).len() >= MAX_FILES);
        }
        assert(all.take(all.len() as int) =~= all);
        assert(texts(files@) =~= kept_files(all));
    }
    let order = sort_order(&keys);
    assert forall|k: int| 0 <= k < order@.len() implies (#[trigger] order@[k]) < files@.len() by {}
    let sorted = in_order(&files, &order);
    assert(texts(sorted@) =~= sorted_paths(kept_files(all)));
    (sorted, truncated)
}

/// The keys of texts by themselves.
spec fn text_keys(t: Seq<Seq<char>>) -> Seq<KeyState> {
    Seq::new(t.len(), |i: int| KeyState { group: 0, text: t[i] })
}

/// Texts in ascending order.
pub open spec fn ascending(t: Seq<Seq<char>>) -> bool {
    forall|i: int, j: int|
        0 <= i < j < t.len() ==> text_before(#[trigger] t[i], #[trigger] t[j]) || t[i] == t[j]
}

fn sort_texts(v: &Vec<String>) -> (r: Vec<Vec<char>>)
    ensures
        ascending(chars_view(r@)),
        forall|x: Seq<char>| #[trigger] chars_view(r@).contains(x) == texts(v@).contains(x),
{
    let mut keys: Vec<SortKey> = Vec::new();
    let mut i: usize = 0;
    let ghost t = texts(v@);
    while i < v.len()
        invariant
            i <= v@.len(),
            t == texts(v@),
            keys@.len() == i,
            forall|k: int| 0 <= k < i ==> (#[trigger] keys@[k])@ == (KeyState { group: 0, text: t[k] }),
        decreases v.len() - i,
    {
        let text = chars_of(v[i].as_str());
        keys.push(SortKey { group: 0, text });
        i = i + 1;
    }
    assert(keys_view(keys@) =~= text_keys(t));
    let order = sort_order(&keys);
    let mut r: Vec<Vec<char>> = Vec::new();
    let mut j: usize = 0;
    while j < order.len()
        invariant
            j <= order@.len(),
            order@.len() == t.len(),
            t == texts(v@),
            ordered(order@, text_keys(t)),
            r@.len() == j,
            forall|k: int| 0 <= k < j ==> (#[trigger] r@[k])@ == t[order@[k] as int],
        decreases order.len() - j,
    {
        assert(order@[j as int] < t.len());
        r.push(chars_of(v[order[j]].as_str()));
        j = j + 1;
    }
    proof {
        let c = chars_view(r@);
        let k = text_keys(t);
        assert forall|a: int, b: int| 0 <= a < b < c.len() implies text_before(
            #[trigger] c[a],
            #[trigger] c[b],
        ) || c[a] == c[b] by {
            assert(r@[a]@ == t[order@[a] as int] && r@[b]@ == t[order@[b] as int]);
            assert(place_before(k, order@[a] as int, order@[b] as int));
        }
        assert forall|x: Seq<char>| #[trigger] c.contains(x) == t.contains(x) by {
            if c.contains(x) {
                let a = c.index_of(x);
                assert(r@[a]@ == t[order@[a] as int]);
                assert(t[order@[a] as int] == x);
            }
            if t.contains(x) {
                let a = t.index_of(x);
                assert(order@.contains(crate::sorting::place(a)));
                let b = order@.index_of(crate::sorting::place(a));
                assert(r@[b]@ == t[order@[b] as int]);
                assert(c[b] == x);
            }
        }
    }
    r
}

/// Texts held as characters.
pub open spec fn chars_view(v: Seq<Vec<char>>) -> Seq<Seq<char>> {
    Seq::new(v.len(), |i: int| v[i]@)
}

/// Whether `x` is one of the texts, which are in ascending order.
fn is_in(v: &Vec<Vec<char>>, x: &Vec<char>) -> (r: bool)
    requires
        ascending(chars_view(v@)),
    ensures
        r == chars_view(v@).contains(x@),
{
    let ghost c = chars_view(v@);
    let mut lo: usize = 0;
    let mut hi: usize = v.len();
    while lo < hi
        invariant
            lo <= hi <= v@.len(),
            c == chars_view(v@),
            ascending(c),
            forall|i: int| 0 <= i < lo ==> #[trigger] c[i] != x@,
            forall|i: int| hi <= i < c.len() ==> #[trigger] c[i] != x@,
        decreases hi - lo,
    {
        let mid: usize = lo + (hi - lo) / 2;
        assert(c[mid as int] == v@[mid as int]@);
        if is_text_before(&v[mid], x) {
            proof {
                assert forall|i: int| 0 <= i < mid + 1 implies #[trigger] c[i] != x@ by {
                    lemma_text_order(c[mid as int], x@, 0);
                    if i < mid && c[i] == x@ {
                        assert(text_before(c[i], c[mid as int]) || c[i] == c[mid as int]);
                    }
                }
            }
            lo = mid + 1;
        } else if is_text_before(x, &v[mid]) {
            proof {
                assert forall|i: int| mid <= i < c.len() implies #[trigger] c[i] != x@ by {
                    lemma_text_order(c[mid as int], x@, 0);
                    if i > mid && c[i] == x@ {
                        assert(text_before(c[mid as int], c[i]) || c[i] == c[mid as int]);
                    }
                }
            }
            hi = mid;
        } else {
            proof {
                lemma_text_order(c[mid as int], x@, 0);
                assert(c[mid as int] =~= x@);
            }
            return true;
        }
    }
    false
}

/// Files with a flag each.
pub open spec fn marked_view(v: Seq<(String, bool)>) -> Seq<(Seq<char>, bool)> {
    Seq::new(v.len(), |i: int| (v[i].0@, v[i].1))
}

/// The files that a full walk met, each with whether it is ignored: whether a
/// walk that heeds the rules did not keep it.
pub open spec fn marked_files(
    walk: Seq<(Seq<char>, bool)>,
    heeding_walk: Seq<(Seq<char>, bool)>,
) -> Seq<(Seq<char>, bool)> {
    let all = sorted_paths(kept_files(walk));
    let heeded = sorted_paths(kept_files(heeding_walk));
    Seq::new(all.len(), |i: int| (all[i], !heeded.contains(all[i])))
}

/// The files that a full walk met, each with whether it is ignored: whether a
/// walk that heeds the rules did not keep it.
pub fn collect_files_marked(walk: &Vec<(String, bool)>, heeding_walk: &Vec<(String, bool)>) -> (r:
    Vec<(String, bool)>)
    ensures
        marked_view(r@) == marked_files(walk_view(walk@), walk_view(heeding_walk@)),
{
    let (all, _) = collect_files(walk);
    let (heeded, _) = collect_files(heeding_walk);
    let sorted = sort_texts(&heeded);
    let mut r: Vec<(String, bool)> = Vec::new();
    let mut i: usize = 0;
    while i < all.len()
        invariant
            i <= all@.len(),
            ascending(chars_view(sorted@)),
            forall|x: Seq<char>| #[trigger]
                chars_view(sorted@).contains(x) == texts(heeded@).contains(x),
            r@.len() == i,
            forall|k: int|
                0 <= k < i ==> (#[trigger] r@[k]).0@ == texts(all@)[k] && r@[k].1 == !texts(
                    heeded@,
                ).contains(texts(all@)[k]),
        decreases all.len() - i,
    {
        let text = chars_of(all[i].as_str());
        let ignored = !is_in(&sorted, &text);
        r.push((all[i].clone(), ignored));
        i = i + 1;
    }
    proof {
        let a = texts(all@);
        let t = texts(heeded@);
        let m = marked_files(walk_view(walk@), walk_view(heeding_walk@));
        assert(marked_view(r@) =~= m);
    }
    r
}

/// What is collected of a walk is what it kept, in the order of the paths, and
/// nothing twice unless the walk met it twice.
pub proof fn law_collected_files_are_the_kept_ones(walk: Seq<(Seq<char>, bool)>)
    ensures
        ({
            let kept = kept_files(walk);
            let all = sorted_paths(kept);
            &&& all.len() == kept.len()
            &&& forall|p: Seq<char>| #[trigger] all.contains(p) == kept.contains(p)
            &&& forall|i: int, j: int|
                0 <= i < j < all.len() ==> !text_before(
                    by_parts(#[trigger] all[j]),
                    by_parts(#[trigger] all[i]),
                )
            &&& kept.no_duplicates() ==> all.no_duplicates()
        }),
{
    let kept = kept_files(walk);
    let all = sorted_paths(kept);
    let k = path_keys(kept);
    let o = order_of(k);
    lemma_order_of(k);
    assert forall|i: int, j: int| 0 <= i < j < all.len() implies !text_before(
        by_parts(#[trigger] all[j]),
        by_parts(#[trigger] all[i]),
    ) by {
        assert(place_before(k, o[i] as int, o[j] as int));
        lemma_key_order(k[o[i] as int], k[o[j] as int], k[o[i] as int]);
    }
    assert forall|p: Seq<char>| #[trigger] all.contains(p) == kept.contains(p) by {
        if all.contains(p) {
            let a = all.index_of(p);
            assert(kept[o[a] as int] == p);
        }
        if kept.contains(p) {
            let a = kept.index_of(p);
            assert(o.contains(crate::sorting::place(a)));
            let b = o.index_of(crate::sorting::place(a));
            assert(all[b] == p);
        }
    }
    if kept.no_duplicates() {
        assert forall|i: int, j: int| 0 <= i < all.len() && 0 <= j < all.len() && i != j implies all[i]
            != all[j] by {
            let (a, b) = if i < j {
                (i, j)
            } else {
                (j, i)
            };
            assert(place_before(k, o[a] as int, o[b] as int));
            lemma_key_order(k[o[a] as int], k[o[a] as int], k[o[a] as int]);
            assert(o[a] != o[b]);
        }
    }
}

/// A walk that meets every file that another one meets, and no more than are
/// kept, has everything collected of it that is collected of the other.
pub proof fn law_a_wider_walk_collects_no_less(
    narrow: Seq<(Seq<char>, bool)>,
    wide: Seq<(Seq<char>, bool)>,
    p: Seq<char>,
)
    requires
        forall|q: Seq<char>| #[trigger] files_in(narrow).contains(q) ==> files_in(wide).contains(q),
        files_in(wide).len() <= MAX_FILES,
        sorted_paths(kept_files(narrow)).contains(p),
    ensures
        sorted_paths(kept_files(wide)).contains(p),
{
    law_collected_files_are_the_kept_ones(narrow);
    law_collected_files_are_the_kept_ones(wide);
    assert(kept_files(narrow).contains(p));
    let i = kept_files(narrow).index_of(p);
    assert(files_in(narrow)[i] == p);
    assert(files_in(narrow).contains(p));
    assert(files_in(wide).contains(p));
    assert(kept_files(wide).contains(p));
}

/// The marked files are those that are collected without marks, in the same
/// order, and the mark of each says that the heeding walk did not keep it.
pub proof fn law_marks_change_no_file(
    walk: Seq<(Seq<char>, bool)>,
    heeding_walk: Seq<(Seq<char>, bool)>,
    i: int,
)
    requires
        0 <= i < sorted_paths(kept_files(walk)).len(),
    ensures
        marked_files(walk, heeding_walk).len() == sorted_paths(kept_files(walk)).len(),
        marked_files(walk, heeding_walk)[i].0 == sorted_paths(kept_files(walk))[i],
        marked_files(walk, heeding_walk)[i].1 == !kept_files(heeding_walk).contains(
            sorted_paths(kept_files(walk))[i],
        ),
{
    law_collected_files_are_the_kept_ones(heeding_walk);
}

/// The names on the way to a path from `root` down, its own last.
pub open spec fn names_below(root: Seq<char>, path: Seq<char>) -> Seq<Seq<char>> {
    match relative_path(root, path) {
        Some(r) => parts(r),
        None => parts(path),
    }
}

/// Whether a walk of `root` met the files of `tree` that it comes to, each once,
/// and no more than are kept.
pub open spec fn walked(
    walk: Seq<(Seq<char>, bool)>,
    tree: Set<Seq<char>>,
    root: Seq<char>,
    include_junk: bool,
) -> bool {
    let files = files_in(walk);
    &&& files.no_duplicates()
    &&& files.len() <= MAX_FILES
    &&& forall|p: Seq<char>| #[trigger]
        files.contains(p) == (tree.contains(p) && comes_to(names_below(root, p), include_junk))
}

/// Whether one of the names is that of junk.
pub open spec fn has_junk(names: Seq<Seq<char>>) -> bool {
    exists|i: int| 0 <= i < names.len() && junk_name(#[trigger] names[i])
}

/// Whether one of the names is hidden.
pub open spec fn has_hidden(names: Seq<Seq<char>>) -> bool {
    exists|i: int| 0 <= i < names.len() && hidden_name(#[trigger] names[i])
}

/// What is collected of the files below a folder, with the junk and without it:
/// each file once; what has junk on the way is left out or added, and nothing
/// else; and nothing hidden is ever there.
pub proof fn law_only_junk_is_left_out(
    tree: Set<Seq<char>>,
    root: Seq<char>,
    narrow: Seq<(Seq<char>, bool)>,
    wide: Seq<(Seq<char>, bool)>,
    p: Seq<char>,
)
    requires
        walked(narrow, tree, root, false),
        walked(wide, tree, root, true),
    ensures
        ({
            let few = sorted_paths(kept_files(narrow));
            let all = sorted_paths(kept_files(wide));
            let names = names_below(root, p);
            &&& few.no_duplicates() && all.no_duplicates()
            &&& few.contains(p) == (all.contains(p) && !has_junk(names))
            &&& all.contains(p) == (tree.contains(p) && !has_hidden(names))
        }),
{
    law_collected_files_are_the_kept_ones(narrow);
    law_collected_files_are_the_kept_ones(wide);
    let names = names_below(root, p);
    assert(files_in(narrow).contains(p) == (tree.contains(p) && comes_to(names, false)));
    assert(files_in(wide).contains(p) == (tree.contains(p) && comes_to(names, true)));
    assert(comes_to(names, true) == !has_hidden(names));
    assert(comes_to(names, false) == (!has_hidden(names) && !has_junk(names)));
}

/// Where the heeding walk met all files but the ignored ones, the marks say which
/// files are ignored; these are listed like the others.
pub proof fn law_marks_tell_what_is_ignored(
    tree: Set<Seq<char>>,
    ignored: Set<Seq<char>>,
    root: Seq<char>,
    include_junk: bool,
    walk: Seq<(Seq<char>, bool)>,
    heeding_walk: Seq<(Seq<char>, bool)>,
    i: int,
)
    requires
        walked(walk, tree, root, include_junk),
        walked(heeding_walk, tree.difference(ignored), root, include_junk),
        0 <= i < sorted_paths(kept_files(walk)).len(),
    ensures
        marked_files(walk, heeding_walk).len() == sorted_paths(kept_files(walk)).len(),
        marked_files(walk, heeding_walk)[i].0 == sorted_paths(kept_files(walk))[i],
        marked_files(walk, heeding_walk)[i].1 == ignored.contains(
            sorted_paths(kept_files(walk))[i],
        ),
{
    law_marks_change_no_file(walk, heeding_walk, i);
    law_collected_files_are_the_kept_ones(walk);
    let p = sorted_paths(kept_files(walk))[i];
    assert(sorted_paths(kept_files(walk)).contains(p));
    assert(files_in(walk).contains(p));
    assert(files_in(heeding_walk).contains(p) == (tree.difference(ignored).contains(p)
        && comes_to(names_below(root, p), include_junk)));
}

} // verus!
