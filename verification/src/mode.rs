//! How the editor is started: in a window or in the terminal, and on which
//! folder.

use crate::filedialog::texts;
use crate::strings::{chars_of, same_text};
use vstd::prelude::*;
use vstd::string::*;

verus! {

/// The mode that an argument asks for: `true` for a window.
pub open spec fn flag_mode(a: Seq<char>) -> Option<bool> {
    if a == "--gui"@ || a == "-w"@ || a == "--windowed"@ {
        Some(true)
    } else if a == "--term"@ || a == "--terminal"@ || a == "--tui"@ || a == "-t"@ {
        Some(false)
    } else {
        None
    }
}

/// The mode that the arguments ask for: the last one that asks counts.
pub open spec fn asked_mode(args: Seq<Seq<char>>) -> Option<bool>
    decreases args.len(),
{
    if args.len() == 0 {
        None
    } else if flag_mode(args.last()) is Some {
        flag_mode(args.last())
    } else {
        asked_mode(args.drop_last())
    }
}

/// The mode that an argument asks for.
fn mode_flag(a: &str) -> (r: Option<bool>)
    ensures
        r == flag_mode(a@),
{
    if same_text(a, "--gui") || same_text(a, "-w") || same_text(a, "--windowed") {
        Some(true)
    } else if same_text(a, "--term") || same_text(a, "--terminal") || same_text(a, "--tui")
        || same_text(a, "-t") {
        Some(false)
    } else {
        None
    }
}

/// The mode that the arguments ask for: the last one that asks counts.
pub fn explicit_mode(args: &Vec<String>) -> (r: Option<bool>)
    ensures
        r == asked_mode(texts(args@)),
{
    let ghost all = texts(args@);
    let mut i: usize = args.len();
    assert(all.take(i as int) =~= all);
    while i > 0
        invariant
            i <= args@.len(),
            all == texts(args@),
            asked_mode(all) == asked_mode(all.take(i as int)),
        decreases i,
    {
        assert(all.take(i as int).drop_last() =~= all.take(i - 1));
        let m = mode_flag(args[i - 1].as_str());
        if m.is_some() {
            return m;
        }
        i = i - 1;
    }
    None
}

/// Whether to open a window. What is asked for counts, where there are windows
/// at all; otherwise a window is the default, unless there is no screen to show
/// it on.
pub fn resolve_mode(explicit: Option<bool>, gui_supported: bool, headless: bool) -> (r: bool)
    ensures
        r == (gui_supported && match explicit {
            Some(choice) => choice,
            None => !headless,
        }),
{
    match explicit {
        Some(choice) => choice && gui_supported,
        None => gui_supported && !headless,
    }
}

/// What the surroundings say about a screen.
#[derive(Debug, Clone, Copy, PartialEq, Eq, Structural)]
pub struct Session {
    /// Started over SSH.
    pub ssh: bool,
    /// Windows need a display server here, as they do not on a Mac.
    pub needs_display: bool,
    /// A display server is there.
    pub display: bool,
}

/// Whether there is no way to put a window on a screen.
pub fn headless_session(s: &Session) -> (r: bool)
    ensures
        r == (s.ssh || s.needs_display && !s.display),
{
    s.ssh || s.needs_display && !s.display
}

/// Whether to open a window.
pub fn wants_gui(args: &Vec<String>, gui_supported: bool, session: &Session) -> (r: bool)
    ensures
        r == (gui_supported && match asked_mode(texts(args@)) {
            Some(choice) => choice,
            None => !(session.ssh || session.needs_display && !session.display),
        }),
{
    resolve_mode(explicit_mode(args), gui_supported, headless_session(session))
}

/// Whether an argument is an option.
pub open spec fn is_option(a: Seq<char>) -> bool {
    a.len() > 0 && a[0] == '-'
}

/// The first argument from `i` on that is no option.
pub open spec fn first_plain(args: Seq<Seq<char>>, i: int) -> Option<Seq<char>>
    decreases args.len() - i,
{
    if i >= args.len() {
        None
    } else if !is_option(args[i]) {
        Some(args[i])
    } else {
        first_plain(args, i + 1)
    }
}

/// The folder to open: the first argument that is no option.
pub fn project_arg(args: &Vec<String>) -> (r: Option<String>)
    ensures
        crate::buffer::opt_text(r) == first_plain(texts(args@), 0),
{
    let mut i: usize = 0;
    while i < args.len()
        invariant
            i <= args@.len(),
            first_plain(texts(args@), 0) == first_plain(texts(args@), i as int),
        decreases args.len() - i,
    {
        let v = chars_of(args[i].as_str());
        if v.len() == 0 || v[0] != '-' {
            return Some(args[i].clone());
        }
        i = i + 1;
    }
    None
}

/// Whether `t` is one of the arguments.
fn is_among(v: &Vec<String>, t: &str) -> (r: bool)
    ensures
        r == texts(v@).contains(t@),
{
    let mut i: usize = 0;
    while i < v.len()
        invariant
            i <= v@.len(),
            forall|k: int| 0 <= k < i ==> texts(v@)[k] != t@,
        decreases v.len() - i,
    {
        if same_text(v[i].as_str(), t) {
            assert(texts(v@)[i as int] == t@);
            return true;
        }
        i = i + 1;
    }
    false
}

/// Whether the arguments ask for help.
pub fn wants_help(args: &Vec<String>) -> (r: bool)
    ensures
        r == (texts(args@).contains("--help"@) || texts(args@).contains("-h"@)),
{
    is_among(args, "--help") || is_among(args, "-h")
}

/// An argument that asks for a mode counts over all before it, and one that
/// asks for none changes nothing.
pub proof fn law_the_last_flag_wins(args: Seq<Seq<char>>, a: Seq<char>)
    ensures
        asked_mode(args.push(a)) == if flag_mode(a) is Some {
            flag_mode(a)
        } else {
            asked_mode(args)
        },
{
    assert(args.push(a).drop_last() =~= args);
}

} // verus!
