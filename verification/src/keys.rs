//! The keyboard map. Every shortcut is declared once, in the table, and the
//! rest follows from it: whether a key press fires a binding, how the chord
//! reads, and the cheat-sheet.

use crate::chars::{ascii_lower, to_ascii_lower};
use crate::keyevent::{KeyCode, KeyEvent};
use crate::keys::table::{row, row_at, shortcut, KEY_COUNT};
use crate::strings::{chars_of, same_text};
use vstd::prelude::*;
use vstd::string::*;

pub mod id;
pub mod laws;
pub mod table;

verus! {

/// Which modifiers a chord wants. Callers fold Ctrl and Command into one flag,
/// so `Cmd` and `Ctrl` match alike and differ only in how they read.
#[derive(Clone, Copy, PartialEq, Eq, Debug, Structural)]
pub enum Mods {
    /// No modifier at all.
    Plain,
    /// Shift only.
    Shift,
    /// Command on a Mac, Ctrl elsewhere.
    Cmd,
    /// The same with Shift.
    CmdShift,
    /// Ctrl everywhere, for the chords that Command cannot have.
    Ctrl,
    /// Ctrl and Shift.
    CtrlShift,
    /// Option, or Alt.
    Alt,
    /// Option, or Alt, with Shift.
    AltShift,
    /// The terminal's copy and paste: Command on a Mac, Ctrl+Shift elsewhere.
    SuperShift,
    /// Not a chord but a literal text for the cheat-sheet.
    Text,
}

/// One shortcut: what fires it, what it is called, and where it is shown.
#[derive(Clone, Copy, Debug)]
pub struct Shortcut {
    pub id: &'static str,
    pub mods: Mods,
    /// The key, or for `Mods::Text` the literal text to print.
    pub key: &'static str,
    /// Long form, for the cheat-sheet.
    pub label: &'static str,
    /// Short form for a footer; empty for none.
    pub short: &'static str,
    /// Section of the cheat-sheet; empty for none.
    pub group: &'static str,
    /// Neighbouring rows with one tag share a line of the cheat-sheet.
    pub pair: &'static str,
    /// Only meaningful with a project open.
    pub folder: bool,
}

pub const G_GLOBAL: &'static str = "Global";

pub const G_EDITOR_FILES: &'static str = "Editor \u{2014} files & tabs";

pub const G_EDITOR_CURSOR: &'static str = "Editor \u{2014} cursor & selection";

pub const G_FILES: &'static str = "Files dialog";

pub const G_SEARCH: &'static str = "Search in Files";

pub const G_TERMINAL: &'static str = "Terminal";

pub const G_PICKER: &'static str = "Terminal quick-switch";

pub const G_COPY: &'static str = "Terminal copy mode";

pub const G_TODOS: &'static str = "To-do list";

pub const G_CLIP: &'static str = "Clipboard history";

pub const G_FIND: &'static str = "Find & replace";

pub const G_SETTINGS: &'static str = "Settings";

pub const G_RECENT: &'static str = "Recent folders";

/// For rows that stay out of the cheat-sheet.
pub const G_NONE: &'static str = "";

/// The row that stands in for an id that has none.
pub open spec fn missing() -> Shortcut {
    shortcut("", Mods::Text, "", "", "", G_NONE, "", false)
}

/// The first row, from `i` on, that has this id.
pub open spec fn found_from(id: Seq<char>, i: usize) -> Shortcut
    decreases KEY_COUNT - i,
{
    if i >= KEY_COUNT {
        missing()
    } else if row(i).id@ == id {
        row(i)
    } else {
        found_from(id, (i + 1) as usize)
    }
}

/// The row with this id.
pub open spec fn found(id: Seq<char>) -> Shortcut {
    found_from(id, 0)
}

/// All rows of the table, in order.
pub fn keys() -> (r: Vec<Shortcut>)
    ensures
        r.len() == KEY_COUNT,
        forall|i: int| 0 <= i < KEY_COUNT ==> #[trigger] r@[i] == row(i as usize),
{
    let mut r: Vec<Shortcut> = Vec::new();
    let mut i: usize = 0;
    while i < KEY_COUNT
        invariant
            i <= KEY_COUNT,
            r.len() == i,
            forall|k: int| 0 <= k < i ==> #[trigger] r@[k] == row(k as usize),
        decreases KEY_COUNT - i,
    {
        r.push(row_at(i));
        i = i + 1;
    }
    r
}

/// Look a row up; one without a row gets a blank one.
pub fn get(id: &str) -> (r: Shortcut)
    ensures
        r == found(id@),
{
    let mut i: usize = 0;
    while i < KEY_COUNT
        invariant
            i <= KEY_COUNT,
            found(id@) == found_from(id@, i),
        decreases KEY_COUNT - i,
    {
        let s = row_at(i);
        if same_text(s.id, id) {
            return s;
        }
        i = i + 1;
    }
    shortcut("", Mods::Text, "", "", "", G_NONE, "", false)
}

/// What a modifier family puts in front of a key, on a Mac and elsewhere.
pub open spec fn prefix_of(mods: Mods, mac: bool) -> Seq<char> {
    match mods {
        Mods::Text => ""@,
        Mods::Plain => ""@,
        Mods::Shift => if mac {
            "\u{21e7}"@
        } else {
            "Shift+"@
        },
        Mods::Cmd => if mac {
            "\u{2318}"@
        } else {
            "Ctrl+"@
        },
        Mods::CmdShift => if mac {
            "\u{2318}\u{21e7}"@
        } else {
            "Ctrl+Shift+"@
        },
        Mods::Ctrl => if mac {
            "\u{2303}"@
        } else {
            "Ctrl+"@
        },
        Mods::CtrlShift => if mac {
            "\u{2303}\u{21e7}"@
        } else {
            "Ctrl+Shift+"@
        },
        Mods::Alt => if mac {
            "\u{2325}"@
        } else {
            "Alt+"@
        },
        Mods::AltShift => if mac {
            "\u{21e7}\u{2325}"@
        } else {
            "Alt+Shift+"@
        },
        Mods::SuperShift => if mac {
            "\u{2318}"@
        } else {
            "Ctrl+Shift+"@
        },
    }
}

/// How a shortcut's chord reads.
pub open spec fn chord_of(s: Shortcut, mac: bool) -> Seq<char> {
    prefix_of(s.mods, mac) + s.key@
}

fn prefix(mods: Mods, mac: bool) -> (r: &'static str)
    ensures
        r@ == prefix_of(mods, mac),
{
    match mods {
        Mods::Text => "",
        Mods::Plain => "",
        Mods::Shift => if mac {
            "\u{21e7}"
        } else {
            "Shift+"
        },
        Mods::Cmd => if mac {
            "\u{2318}"
        } else {
            "Ctrl+"
        },
        Mods::CmdShift => if mac {
            "\u{2318}\u{21e7}"
        } else {
            "Ctrl+Shift+"
        },
        Mods::Ctrl => if mac {
            "\u{2303}"
        } else {
            "Ctrl+"
        },
        Mods::CtrlShift => if mac {
            "\u{2303}\u{21e7}"
        } else {
            "Ctrl+Shift+"
        },
        Mods::Alt => if mac {
            "\u{2325}"
        } else {
            "Alt+"
        },
        Mods::AltShift => if mac {
            "\u{21e7}\u{2325}"
        } else {
            "Alt+Shift+"
        },
        Mods::SuperShift => if mac {
            "\u{2318}"
        } else {
            "Ctrl+Shift+"
        },
    }
}

/// The chord as the reader should see it on this kind of machine.
pub fn chord(id: &str, mac: bool) -> (r: String)
    ensures
        r@ == chord_of(found(id@), mac),
{
    row_chord(&get(id), mac)
}

fn row_chord(s: &Shortcut, mac: bool) -> (r: String)
    ensures
        r@ == chord_of(*s, mac),
{
    let mut r = prefix(s.mods, mac).to_owned();
    r.append(s.key);
    r
}

/// The long label.
pub fn label(id: &str) -> (r: &'static str)
    ensures
        r == found(id@).label,
{
    get(id).label
}

/// The modifiers `(ctrl, alt, shift)` that a family wants.
pub open spec fn wants(mods: Mods) -> (bool, bool, bool) {
    match mods {
        Mods::Text => (false, false, false),
        Mods::Plain => (false, false, false),
        Mods::Shift => (false, false, true),
        Mods::Cmd => (true, false, false),
        Mods::Ctrl => (true, false, false),
        Mods::CmdShift => (true, false, true),
        Mods::CtrlShift => (true, false, true),
        Mods::SuperShift => (true, false, true),
        Mods::Alt => (false, true, false),
        Mods::AltShift => (false, true, true),
    }
}

/// Keys that need Shift to be typed at all, so that their bindings do not ask
/// for it again.
pub open spec fn is_shifted_punct(key: Seq<char>) -> bool {
    key == "<"@ || key == ">"@ || key == "_"@ || key == "+"@
}

/// Whether the pressed key is the one that the table names `key`.
pub open spec fn names_key(key: Seq<char>, code: KeyCode, want_shift: bool) -> bool {
    if key == "1-9"@ {
        code matches KeyCode::Char(c) && '1' <= c <= '9'
    } else if key == "Tab"@ {
        code == KeyCode::Tab || (want_shift && code == KeyCode::BackTab)
    } else if key == "Esc"@ {
        code == KeyCode::Esc
    } else if key == "Space"@ {
        code == KeyCode::Char(' ')
    } else if key == "F1"@ {
        code == KeyCode::F(1)
    } else if key == "\u{21b5}"@ {
        code == KeyCode::Enter
    } else if key == "\u{232b}"@ {
        code == KeyCode::Backspace
    } else if key == "\u{2190}"@ {
        code == KeyCode::Left
    } else if key == "\u{2192}"@ {
        code == KeyCode::Right
    } else if key == "\u{2191}"@ {
        code == KeyCode::Up
    } else if key == "\u{2193}"@ {
        code == KeyCode::Down
    } else {
        key.len() == 1 && (code matches KeyCode::Char(c) && ascii_lower(c) == ascii_lower(key[0]))
    }
}

/// Whether a key press fires the shortcut. Modifiers have to be exactly those
/// that it wants, but for Shift on a key that needs it anyway.
pub open spec fn fires(s: Shortcut, code: KeyCode, ctrl: bool, alt: bool, shift: bool) -> bool {
    let (want_ctrl, want_alt, want_shift) = wants(s.mods);
    &&& s.mods != Mods::Text
    &&& ctrl == want_ctrl
    &&& alt == want_alt
    &&& shift == want_shift || is_shifted_punct(s.key@)
    &&& names_key(s.key@, code, want_shift)
}

fn shifted_punct(key: &str) -> (r: bool)
    ensures
        r == is_shifted_punct(key@),
{
    same_text(key, "<") || same_text(key, ">") || same_text(key, "_") || same_text(key, "+")
}

fn key_matches(key: &str, code: KeyCode, want_shift: bool) -> (r: bool)
    ensures
        r == names_key(key@, code, want_shift),
{
    if same_text(key, "1-9") {
        match code {
            KeyCode::Char(c) => '1' <= c && c <= '9',
            _ => false,
        }
    } else if same_text(key, "Tab") {
        code == KeyCode::Tab || (want_shift && code == KeyCode::BackTab)
    } else if same_text(key, "Esc") {
        code == KeyCode::Esc
    } else if same_text(key, "Space") {
        code == KeyCode::Char(' ')
    } else if same_text(key, "F1") {
        code == KeyCode::F(1)
    } else if same_text(key, "\u{21b5}") {
        code == KeyCode::Enter
    } else if same_text(key, "\u{232b}") {
        code == KeyCode::Backspace
    } else if same_text(key, "\u{2190}") {
        code == KeyCode::Left
    } else if same_text(key, "\u{2192}") {
        code == KeyCode::Right
    } else if same_text(key, "\u{2191}") {
        code == KeyCode::Up
    } else if same_text(key, "\u{2193}") {
        code == KeyCode::Down
    } else {
        let v = chars_of(key);
        if v.len() == 1 {
            match code {
                KeyCode::Char(c) => to_ascii_lower(c) == to_ascii_lower(v[0]),
                _ => false,
            }
        } else {
            false
        }
    }
}

/// Whether a key press, with the caller's folded modifiers, fires this binding.
pub fn hit(id: &str, key: &KeyEvent, ctrl: bool, alt: bool, shift: bool) -> (r: bool)
    ensures
        r == fires(found(id@), key.code, ctrl, alt, shift),
{
    let s = get(id);
    let (want_ctrl, want_alt, want_shift) = match s.mods {
        Mods::Text => {
            return false;
        },
        Mods::Plain => (false, false, false),
        Mods::Shift => (false, false, true),
        Mods::Cmd => (true, false, false),
        Mods::Ctrl => (true, false, false),
        Mods::CmdShift => (true, false, true),
        Mods::CtrlShift => (true, false, true),
        Mods::SuperShift => (true, false, true),
        Mods::Alt => (false, true, false),
        Mods::AltShift => (false, true, true),
    };
    if ctrl != want_ctrl || alt != want_alt {
        return false;
    }
    if shift != want_shift && !shifted_punct(s.key) {
        return false;
    }
    key_matches(s.key, key.code, want_shift)
}

/// The label for a footer: the short one, or the long one where there is none.
pub open spec fn footer_label(s: Shortcut) -> Seq<char> {
    if s.short@.len() == 0 {
        s.label@
    } else {
        s.short@
    }
}

fn row_footer_label(s: &Shortcut) -> (r: &'static str)
    ensures
        r@ == footer_label(*s),
{
    if s.short.is_empty() {
        s.label
    } else {
        s.short
    }
}

/// A footer hint: the chord and its short label.
pub fn hint(id: &str, mac: bool) -> (r: (String, String))
    ensures
        r.0@ == chord_of(found(id@), mac),
        r.1@ == footer_label(found(id@)),
{
    let s = get(id);
    (row_chord(&s, mac), row_footer_label(&s).to_owned())
}

/// A footer hint with another label.
pub fn hint_as(id: &str, text: &str, mac: bool) -> (r: (String, String))
    ensures
        r.0@ == chord_of(found(id@), mac),
        r.1@ == text@,
{
    (chord(id, mac), text.to_owned())
}

/// A footer hint with another chord.
pub fn hint_chord(id: &str, chord_text: String) -> (r: (String, String))
    ensures
        r.0 == chord_text,
        r.1@ == footer_label(found(id@)),
{
    let s = get(id);
    (chord_text, row_footer_label(&s).to_owned())
}

/// A footer row from a list of ids.
pub fn hints(ids: &[&str], mac: bool) -> (r: Vec<(String, String)>)
    ensures
        r.len() == ids@.len(),
        forall|i: int|
            0 <= i < r.len() ==> (#[trigger] r@[i]).0@ == chord_of(found(ids@[i]@), mac) && r@[i].1@
                == footer_label(found(ids@[i]@)),
{
    let mut r: Vec<(String, String)> = Vec::new();
    let mut i: usize = 0;
    while i < ids.len()
        invariant
            i <= ids@.len(),
            r.len() == i,
            forall|k: int|
                0 <= k < i ==> (#[trigger] r@[k]).0@ == chord_of(found(ids@[k]@), mac) && r@[k].1@
                    == footer_label(found(ids@[k]@)),
        decreases ids@.len() - i,
    {
        r.push(hint(ids[i], mac));
        i = i + 1;
    }
    r
}

/// The same list, borrowed.
pub fn as_refs<'a>(v: &'a [(String, String)]) -> (r: Vec<(&'a str, &'a str)>)
    ensures
        r.len() == v@.len(),
        forall|i: int|
            0 <= i < r.len() ==> (#[trigger] r@[i]).0@ == v@[i].0@ && r@[i].1@ == v@[i].1@,
{
    let mut r: Vec<(&'a str, &'a str)> = Vec::new();
    let mut i: usize = 0;
    while i < v.len()
        invariant
            i <= v@.len(),
            r.len() == i,
            forall|k: int|
                0 <= k < i ==> (#[trigger] r@[k]).0@ == v@[k].0@ && r@[k].1@ == v@[k].1@,
        decreases v@.len() - i,
    {
        r.push((v[i].0.as_str(), v[i].1.as_str()));
        i = i + 1;
    }
    r
}

/// One section of the cheat-sheet: its title and its lines of chords and labels.
#[verifier::ext_equal]
pub struct Section {
    pub title: Seq<char>,
    pub lines: Seq<(Seq<char>, Seq<char>)>,
}

/// Whether row `i` needs a folder that is not there.
pub open spec fn hidden(i: usize, has_folder: bool) -> bool {
    row(i).folder && !has_folder
}

/// Where the line that starts with row `i` and has reached row `j` ends: with
/// the last neighbour of the same group and pair tag.
pub open spec fn line_end(i: usize, j: usize) -> usize
    decreases KEY_COUNT - j,
{
    if j < KEY_COUNT && row(i).pair@.len() > 0 && row(j).pair@ == row(i).pair@ && row(j).group@
        == row(i).group@ {
        line_end(i, (j + 1) as usize)
    } else {
        j
    }
}

/// The chords and the labels of the rows `i..j` on one line, without those
/// that need a folder that is not there.
pub open spec fn line_of_rows(i: usize, j: usize, has_folder: bool, mac: bool) -> (
    Seq<char>,
    Seq<char>,
)
    decreases j,
{
    if j <= i + 1 {
        (chord_of(found(row(i).id@), mac), row(i).label@)
    } else {
        let k = (j - 1) as usize;
        let (keys, labels) = line_of_rows(i, k, has_folder, mac);
        if hidden(k, has_folder) {
            (keys, labels)
        } else {
            (
                keys + "  "@ + chord_of(found(row(k).id@), mac),
                labels + " \u{b7} "@ + row(k).label@,
            )
        }
    }
}

/// The sections with one more line: in the last section where that has the
/// title, in a new one otherwise.
pub open spec fn with_line(
    sheet: Seq<Section>,
    title: Seq<char>,
    line: (Seq<char>, Seq<char>),
) -> Seq<Section> {
    if sheet.len() > 0 && sheet.last().title == title {
        sheet.drop_last().push(Section { title, lines: sheet.last().lines.push(line) })
    } else {
        sheet.push(Section { title, lines: seq![line] })
    }
}

/// The cheat-sheet: `sheet` and then the rows from `i` on, in order.
pub open spec fn sheet_from(i: usize, sheet: Seq<Section>, has_folder: bool, mac: bool) -> Seq<
    Section,
>
    decreases KEY_COUNT - i,
{
    if i >= KEY_COUNT {
        sheet
    } else if row(i).group@.len() == 0 || hidden(i, has_folder) {
        sheet_from((i + 1) as usize, sheet, has_folder, mac)
    } else {
        let j = line_end(i, (i + 1) as usize);
        proof {
            lemma_line_end(i, (i + 1) as usize);
        }
        sheet_from(
            j,
            with_line(sheet, row(i).group@, line_of_rows(i, j, has_folder, mac)),
            has_folder,
            mac,
        )
    }
}

/// A line ends after its first row and inside the table.
pub proof fn lemma_line_end(i: usize, j: usize)
    requires
        j <= KEY_COUNT,
    ensures
        j <= line_end(i, j) <= KEY_COUNT,
    decreases KEY_COUNT - j,
{
    if j < KEY_COUNT && row(i).pair@.len() > 0 && row(j).pair@ == row(i).pair@ && row(j).group@
        == row(i).group@ {
        lemma_line_end(i, (j + 1) as usize);
    }
}

/// Lines of the sheet as plain values.
pub open spec fn lines_view(v: Seq<(String, String)>) -> Seq<(Seq<char>, Seq<char>)> {
    Seq::new(v.len(), |i: int| (v[i].0@, v[i].1@))
}

/// The sheet as plain values.
pub open spec fn sheet_view(v: Seq<(&'static str, Vec<(String, String)>)>) -> Seq<Section> {
    Seq::new(v.len(), |i: int| Section { title: v[i].0@, lines: lines_view(v[i].1@) })
}

/// The whole cheat-sheet: the sections in the order of the table, neighbouring
/// rows with one pair tag on one line, and without what needs a folder where
/// none is open.
pub fn groups(has_folder: bool, mac: bool) -> (r: Vec<(&'static str, Vec<(String, String)>)>)
    ensures
        sheet_view(r@) == sheet_from(0, Seq::empty(), has_folder, mac),
{
    let mut out: Vec<(&'static str, Vec<(String, String)>)> = Vec::new();
    let mut i: usize = 0;
    assert(sheet_view(out@) =~= Seq::empty());
    while i < KEY_COUNT
        invariant
            i <= KEY_COUNT,
            sheet_from(0, Seq::empty(), has_folder, mac) == sheet_from(
                i,
                sheet_view(out@),
                has_folder,
                mac,
            ),
        decreases KEY_COUNT - i,
    {
        let s = row_at(i);
        if s.group.is_empty() || (s.folder && !has_folder) {
            i = i + 1;
        } else {
            proof {
                lemma_line_end(i, (i + 1) as usize);
            }
            let mut keys_txt = chord(s.id, mac);
            let mut label_txt = s.label.to_owned();
            let mut j: usize = i + 1;
            if !s.pair.is_empty() {
                while j < KEY_COUNT && same_line(&s, j)
                    invariant
                        i < j <= KEY_COUNT,
                        s == row(i),
                        s.pair@.len() > 0,
                        line_end(i, (i + 1) as usize) == line_end(i, j),
                        (keys_txt@, label_txt@) == line_of_rows(i, j, has_folder, mac),
                    decreases KEY_COUNT - j,
                {
                    let other = row_at(j);
                    if !(other.folder && !has_folder) {
                        keys_txt.append("  ");
                        keys_txt.append(chord(other.id, mac).as_str());
                        label_txt.append(" \u{b7} ");
                        label_txt.append(other.label);
                    }
                    j = j + 1;
                }
            }
            let ghost before = sheet_view(out@);
            let ghost line = (keys_txt@, label_txt@);
            add_line(&mut out, s.group, keys_txt, label_txt);
            assert(line == line_of_rows(i, j, has_folder, mac));
            i = j;
        }
    }
    out
}

/// Whether row `j` belongs on the line that `s` starts.
fn same_line(s: &Shortcut, j: usize) -> (r: bool)
    requires
        j < KEY_COUNT,
    ensures
        r == (row(j).pair@ == s.pair@ && row(j).group@ == s.group@),
{
    let other = row_at(j);
    same_text(other.pair, s.pair) && same_text(other.group, s.group)
}

fn add_line(
    out: &mut Vec<(&'static str, Vec<(String, String)>)>,
    title: &'static str,
    keys_txt: String,
    label_txt: String,
)
    ensures
        sheet_view(final(out)@) == with_line(
            sheet_view(old(out)@),
            title@,
            (keys_txt@, label_txt@),
        ),
{
    let ghost before = out@;
    let n: usize = out.len();
    let ghost line = (keys_txt@, label_txt@);
    if n > 0 && same_text(out[n - 1].0, title) {
        match out.pop() {
            Some((t, mut rows)) => {
                let ghost rows0 = rows@;
                rows.push((keys_txt, label_txt));
                assert(lines_view(rows@) =~= lines_view(rows0).push(line));
                out.push((t, rows));
            },
            None => {},
        }
        assert(sheet_view(out@) =~= with_line(sheet_view(before), title@, line));
    } else {
        let mut rows: Vec<(String, String)> = Vec::new();
        rows.push((keys_txt, label_txt));
        assert(lines_view(rows@) =~= seq![line]);
        out.push((title, rows));
        assert(sheet_view(out@) =~= with_line(sheet_view(before), title@, line));
    }
}

/// A press fires only shortcuts of one family of modifiers: two that both fire
/// agree on Ctrl and on Alt, and on Shift but for a key that needs Shift anyway.
pub proof fn law_modifier_families_are_exclusive(
    a: Shortcut,
    b: Shortcut,
    code: KeyCode,
    ctrl: bool,
    alt: bool,
    shift: bool,
)
    requires
        fires(a, code, ctrl, alt, shift),
        fires(b, code, ctrl, alt, shift),
    ensures
        wants(a.mods).0 == wants(b.mods).0,
        wants(a.mods).1 == wants(b.mods).1,
        wants(a.mods).2 == wants(b.mods).2 || is_shifted_punct(a.key@) || is_shifted_punct(b.key@),
{
}

/// Rows that are only text never claim a key.
pub proof fn law_text_rows_never_fire(s: Shortcut, code: KeyCode, ctrl: bool, alt: bool, shift: bool)
    requires
        s.mods == Mods::Text,
    ensures
        !fires(s, code, ctrl, alt, shift),
{
}

/// A letter fires a shortcut in either case.
pub proof fn law_letters_ignore_case(s: Shortcut, c: char, ctrl: bool, alt: bool, shift: bool)
    requires
        'a' <= c <= 'z',
    ensures
        fires(s, KeyCode::Char(c), ctrl, alt, shift) == fires(
            s,
            KeyCode::Char(((c as u32) - 32) as char),
            ctrl,
            alt,
            shift,
        ),
{
}

/// A shortcut on a letter fires on that letter with exactly the modifiers of its
/// family: Control for `Cmd` and `Ctrl`, Alt for `Alt`, Shift besides for the
/// families with Shift, and none for `Plain`.
pub proof fn law_a_letter_fires_with_its_modifiers(
    s: Shortcut,
    l: char,
    c: char,
    ctrl: bool,
    alt: bool,
    shift: bool,
)
    requires
        s.key@ == seq![l],
        'A' <= l <= 'Z',
        'a' <= c <= 'z',
    ensures
        ({
            let same = c as int == l as int + 32;
            let f = fires(s, KeyCode::Char(c), ctrl, alt, shift);
            &&& s.mods == Mods::Cmd || s.mods == Mods::Ctrl ==> f == (same && ctrl && !alt && !shift)
            &&& s.mods == Mods::CmdShift || s.mods == Mods::CtrlShift || s.mods == Mods::SuperShift
                ==> f == (same && ctrl && !alt && shift)
            &&& s.mods == Mods::Alt ==> f == (same && !ctrl && alt && !shift)
            &&& s.mods == Mods::AltShift ==> f == (same && !ctrl && alt && shift)
            &&& s.mods == Mods::Plain ==> f == (same && !ctrl && !alt && !shift)
            &&& s.mods == Mods::Shift ==> f == (same && !ctrl && !alt && shift)
        }),
{
    reveal_strlit("1-9");
    reveal_strlit("Tab");
    reveal_strlit("Esc");
    reveal_strlit("Space");
    reveal_strlit("F1");
    reveal_strlit("\u{21b5}");
    reveal_strlit("\u{232b}");
    reveal_strlit("\u{2190}");
    reveal_strlit("\u{2192}");
    reveal_strlit("\u{2191}");
    reveal_strlit("\u{2193}");
    reveal_strlit("<");
    reveal_strlit(">");
    reveal_strlit("_");
    reveal_strlit("+");
    let k = seq![l];
    assert(k.len() == 1 && k[0] == l);
    assert(s.key@ != "1-9"@ && s.key@ != "Tab"@ && s.key@ != "Esc"@ && s.key@ != "Space"@ && s.key@
        != "F1"@);
    assert("\u{21b5}"@[0] != l && "\u{232b}"@[0] != l && "\u{2190}"@[0] != l && "\u{2192}"@[0] != l
        && "\u{2191}"@[0] != l && "\u{2193}"@[0] != l);
    assert("<"@[0] != l && ">"@[0] != l && "_"@[0] != l && "+"@[0] != l);
}

/// How the families of modifiers read: in words, and in signs on a Mac.
pub proof fn law_modifiers_read_as_they_are()
    ensures
        prefix_of(Mods::Plain, false) == ""@,
        prefix_of(Mods::Shift, false) == "Shift+"@,
        prefix_of(Mods::Cmd, false) == "Ctrl+"@,
        prefix_of(Mods::CmdShift, false) == "Ctrl+Shift+"@,
        prefix_of(Mods::Ctrl, false) == "Ctrl+"@,
        prefix_of(Mods::CtrlShift, false) == "Ctrl+Shift+"@,
        prefix_of(Mods::Alt, false) == "Alt+"@,
        prefix_of(Mods::AltShift, false) == "Alt+Shift+"@,
        prefix_of(Mods::Shift, true) == "\u{21e7}"@,
        prefix_of(Mods::Cmd, true) == "\u{2318}"@,
        prefix_of(Mods::Ctrl, true) == "\u{2303}"@,
        prefix_of(Mods::Alt, true) == "\u{2325}"@,
{
}

} // verus!
