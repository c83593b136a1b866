//! The stack of open dialogs. The last one has the focus.

use vstd::prelude::*;

verus! {

/// The kinds of dialog. Each can be opened from anywhere, on top of another
/// one too.
#[derive(Debug, Clone, Copy, PartialEq, Eq, Structural)]
pub enum Dialog {
    Files,
    Recent,
    Settings,
    Terminal,
    /// The quick switcher between open terminals.
    TerminalPicker,
    Help,
    /// Search across every file of the project.
    SearchFiles,
    Todos,
    /// The clipboard history.
    Clipboard,
}

/// How many kinds of dialog there are.
pub const DIALOG_KINDS: usize = 9;

/// A dialog's place in the list of kinds.
pub open spec fn kind_number(d: Dialog) -> int {
    match d {
        Dialog::Files => 0,
        Dialog::Recent => 1,
        Dialog::Settings => 2,
        Dialog::Terminal => 3,
        Dialog::TerminalPicker => 4,
        Dialog::Help => 5,
        Dialog::SearchFiles => 6,
        Dialog::Todos => 7,
        Dialog::Clipboard => 8,
    }
}

/// No kind of dialog is in the stack twice.
pub open spec fn stack_ok(s: Seq<Dialog>) -> bool {
    s.no_duplicates()
}

/// The dialog that has the focus.
pub open spec fn top_of(s: Seq<Dialog>) -> Option<Dialog> {
    if s.len() > 0 {
        Some(s.last())
    } else {
        None
    }
}

/// The stack without `d`.
pub open spec fn dismissed(s: Seq<Dialog>, d: Dialog) -> Seq<Dialog> {
    if s.contains(d) {
        s.remove(s.index_of(d))
    } else {
        s
    }
}

/// The stack with `d` on top, moved there where it was open already.
pub open spec fn raised(s: Seq<Dialog>, d: Dialog) -> Seq<Dialog> {
    dismissed(s, d).push(d)
}

/// Where `d` is in the stack.
pub fn position(stack: &Vec<Dialog>, d: Dialog) -> (r: Option<usize>)
    requires
        stack_ok(stack@),
    ensures
        match r {
            Some(i) => i < stack@.len() && stack@[i as int] == d && stack@.index_of(d) == i,
            None => !stack@.contains(d),
        },
{
    let mut i: usize = 0;
    while i < stack.len()
        invariant
            i <= stack@.len(),
            stack_ok(stack@),
            forall|k: int| 0 <= k < i ==> stack@[k] != d,
        decreases stack.len() - i,
    {
        if stack[i] == d {
            assert(stack@.contains(d));
            return Some(i);
        }
        i = i + 1;
    }
    None
}

/// Take `d` out of the stack wherever it is, and say whether it was there.
pub fn dismiss(stack: &mut Vec<Dialog>, d: Dialog) -> (r: bool)
    requires
        stack_ok(old(stack)@),
    ensures
        final(stack)@ == dismissed(old(stack)@, d),
        r == old(stack)@.contains(d),
        !r ==> *final(stack) == *old(stack),
        stack_ok(final(stack)@),
        !final(stack)@.contains(d),
{
    match position(stack, d) {
        Some(i) => {
            proof {
                law_dismissing_removes(stack@, d);
            }
            stack.remove(i);
            true
        },
        None => false,
    }
}

/// Put `d` on top of the stack, and say whether it was in the stack already.
pub fn raise(stack: &mut Vec<Dialog>, d: Dialog) -> (r: bool)
    requires
        stack_ok(old(stack)@),
    ensures
        final(stack)@ == raised(old(stack)@, d),
        r == old(stack)@.contains(d),
        stack_ok(final(stack)@),
{
    let was_open = dismiss(stack, d);
    stack.push(d);
    was_open
}

/// A dismissed dialog is gone, and the others keep their order.
pub proof fn law_dismissing_removes(s: Seq<Dialog>, d: Dialog)
    requires
        stack_ok(s),
    ensures
        stack_ok(dismissed(s, d)),
        !dismissed(s, d).contains(d),
        forall|e: Dialog| e != d ==> dismissed(s, d).contains(e) == s.contains(e),
{
    if s.contains(d) {
        let i = s.index_of(d);
        let t = s.remove(i);
        assert forall|e: Dialog| e != d && s.contains(e) implies t.contains(e) by {
            let k = s.index_of(e);
            if k < i {
                assert(t[k] == e);
            } else {
                assert(t[k - 1] == e);
            }
        }
    }
}

/// An opened dialog has the focus, and is in the stack once.
pub proof fn law_opening_raises(s: Seq<Dialog>, d: Dialog)
    requires
        stack_ok(s),
    ensures
        stack_ok(raised(s, d)),
        top_of(raised(s, d)) == Some(d),
        raised(raised(s, d), d) == raised(s, d),
        raised(s, d).drop_last() == dismissed(s, d),
{
    law_dismissing_removes(s, d);
    let r = raised(s, d);
    assert(r.drop_last() =~= dismissed(s, d));
    assert(r[r.len() - 1] == d);
    assert(r.contains(d));
    assert(r.index_of(d) == r.len() - 1);
    assert(r.remove(r.len() - 1) =~= dismissed(s, d));
}

/// The stack is never deeper than there are kinds of dialog.
pub proof fn law_the_stack_is_bounded(s: Seq<Dialog>)
    requires
        stack_ok(s),
    ensures
        s.len() <= DIALOG_KINDS,
{
    let numbers = s.map_values(|d: Dialog| kind_number(d));
    assert(numbers.no_duplicates());
    numbers.unique_seq_to_set();
    let all = vstd::set_lib::set_int_range(0, DIALOG_KINDS as int);
    vstd::set_lib::lemma_int_range(0, DIALOG_KINDS as int);
    assert(numbers.to_set().subset_of(all));
    vstd::set_lib::lemma_len_subset(numbers.to_set(), all);
}

} // verus!
