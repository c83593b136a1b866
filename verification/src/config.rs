//! The user's configuration: what the files say, one laid over the other, and
//! what each value comes to.

use crate::buffer::opt_text;
use crate::color::{from_hex, hex_color, hex_text, to_hex, Rgb};
use crate::icons::{mode_of, IconMode, Icons};
use crate::strings::{same_text, text_lowercase};
use crate::text::trim_text;
use crate::tomltable::{
    date_key, is_flat, is_scalar, is_shallow, parsed_table, pretty_text, table_entries, table_insert,
    table_new, table_parse, table_pretty, table_section, Section, Setting, Toml,
};
use vstd::prelude::*;
use vstd::string::*;

verus! {

/// The least and the greatest share of the screen that a dialog may take, in
/// percent.
pub const DIALOG_SIZE_MIN: u32 = 80;

pub const DIALOG_SIZE_MAX: u32 = 99;

/// The share of the screen that a dialog takes unless configured, in percent.
pub const DIALOG_SIZE_DEFAULT: u32 = 85;

/// The font sizes that a window may have, in points.
pub const FONT_SIZE_MIN: u32 = 8;

pub const FONT_SIZE_MAX: u32 = 72;

pub const FONT_SIZE_DEFAULT: u32 = 24;

/// The widest margin of a window, in columns.
pub const PADDING_MAX: u16 = 8;

/// The repaint rates on offer, low to high.
pub open spec fn fps_options() -> Seq<u32> {
    seq![1u32, 5, 10, 20, 30, 60]
}

/// The repaint rates on offer, low to high.
pub fn fps_list() -> (r: Vec<u32>)
    ensures
        r@ == fps_options(),
{
    let r: Vec<u32> = vec![1, 5, 10, 20, 30, 60];
    assert(r@ =~= fps_options());
    r
}

/// Settings of the editor in both front ends.
#[derive(Debug, Clone, Copy, PartialEq, Eq, Structural)]
pub struct EditorConfig {
    /// Tint the row that the caret is on.
    pub current_line: Option<bool>,
    /// Draw a rule at each level of indentation.
    pub indent_guides: Option<bool>,
}

/// Settings of the window.
#[derive(Debug, Clone, Copy, PartialEq, Eq, Structural)]
pub struct GuiConfig {
    /// The font size in points.
    pub font_size: Option<u32>,
    /// How often unattended output is repainted, in frames a second.
    pub fps: Option<u32>,
    /// The share of the screen that a dialog takes, in percent.
    pub dialog_size: Option<u32>,
    /// Wrap long lines to the width of the pane.
    pub word_wrap: Option<bool>,
    /// Columns of blank margin at the left and the right edge.
    pub padding: Option<u16>,
}

/// The configuration, as far as files set it.
#[derive(Debug)]
pub struct Config {
    /// The name of the icon set.
    pub icons: Option<String>,
    /// Colours by name; where a name stands twice, the later colour counts.
    pub theme: Vec<(String, String)>,
    pub gui: GuiConfig,
    pub editor: EditorConfig,
}

/// The colours that the theme is drawn in, as far as they can be configured.
#[derive(Debug, Clone, Copy, PartialEq, Eq, Structural)]
pub struct Theme {
    pub accent: Rgb,
}

/// Names with their texts.
pub open spec fn pairs_view(v: Seq<(String, String)>) -> Seq<(Seq<char>, Seq<char>)> {
    Seq::new(v.len(), |i: int| (v[i].0@, v[i].1@))
}

/// What a name stands for: the last of its entries counts.
pub open spec fn lookup(v: Seq<(Seq<char>, Seq<char>)>, name: Seq<char>) -> Option<Seq<char>>
    decreases v.len(),
{
    if v.len() == 0 {
        None
    } else if v.last().0 == name {
        Some(v.last().1)
    } else {
        lookup(v.drop_last(), name)
    }
}

/// `over` where it says something, and `under` where it does not.
pub open spec fn layered<T>(under: Option<T>, over: Option<T>) -> Option<T> {
    if over is Some {
        over
    } else {
        under
    }
}

/// `n`, or the end of the range that it lies beyond.
pub open spec fn clamped(n: int, lo: int, hi: int) -> int {
    if n < lo {
        lo
    } else if n > hi {
        hi
    } else {
        n
    }
}

/// How far two numbers are apart.
pub open spec fn distance(a: int, b: int) -> int {
    if a < b {
        b - a
    } else {
        a - b
    }
}

/// Whether `f` is the repaint rate on offer that is nearest to `raw`, the lower
/// of two that are as near.
pub open spec fn nearest_fps(f: u32, raw: u32) -> bool {
    let opts = fps_options();
    exists|i: int|
        #![trigger opts[i]]
        0 <= i < opts.len() && opts[i] == f && forall|j: int|
            #![trigger opts[j]]
            0 <= j < opts.len() ==> if j < i {
                distance(f as int, raw as int) < distance(opts[j] as int, raw as int)
            } else {
                distance(f as int, raw as int) <= distance(opts[j] as int, raw as int)
            }
}

fn layer<T: Copy>(under: Option<T>, over: Option<T>) -> (r: Option<T>)
    ensures
        r == layered(under, over),
{
    match over {
        Some(_) => over,
        None => under,
    }
}

fn clamp_to(n: u32, lo: u32, hi: u32) -> (r: u32)
    ensures
        r == clamped(n as int, lo as int, hi as int),
{
    if n < lo {
        lo
    } else if n > hi {
        hi
    } else {
        n
    }
}

fn apart(a: u32, b: u32) -> (r: u32)
    ensures
        r == distance(a as int, b as int),
{
    if a < b {
        b - a
    } else {
        a - b
    }
}

impl Default for Config {
    fn default() -> (r: Config)
        ensures
            r.icons is None,
            r.theme@.len() == 0,
            r.gui == (GuiConfig {
                font_size: None,
                fps: None,
                dialog_size: None,
                word_wrap: None,
                padding: None,
            }),
            r.editor == (EditorConfig { current_line: None, indent_guides: None }),
    {
        Config {
            icons: None,
            theme: Vec::new(),
            gui: GuiConfig {
                font_size: None,
                fps: None,
                dialog_size: None,
                word_wrap: None,
                padding: None,
            },
            editor: EditorConfig { current_line: None, indent_guides: None },
        }
    }
}

impl Config {
    /// The colour that a file gives a name.
    pub open spec fn colour(self, name: Seq<char>) -> Option<Seq<char>> {
        lookup(pairs_view(self.theme@), name)
    }

    /// Whether the values are those of `over` where it has one, and those of
    /// `under` elsewhere.
    pub open spec fn merges(self, under: Config, over: Config) -> bool {
        &&& opt_text(self.icons) == layered(opt_text(under.icons), opt_text(over.icons))
        &&& self.gui == GuiConfig {
            font_size: layered(under.gui.font_size, over.gui.font_size),
            fps: layered(under.gui.fps, over.gui.fps),
            dialog_size: layered(under.gui.dialog_size, over.gui.dialog_size),
            word_wrap: layered(under.gui.word_wrap, over.gui.word_wrap),
            padding: layered(under.gui.padding, over.gui.padding),
        }
        &&& self.editor == EditorConfig {
            current_line: layered(under.editor.current_line, over.editor.current_line),
            indent_guides: layered(under.editor.indent_guides, over.editor.indent_guides),
        }
        &&& forall|name: Seq<char>| #[trigger]
            self.colour(name) == layered(under.colour(name), over.colour(name))
    }

    /// Lay `other` over this configuration.
    pub fn merge(&mut self, other: Config)
        ensures
            final(self).merges(*old(self), other),
    {
        let ghost under = *self;
        let ghost over = other;
        if other.icons.is_some() {
            self.icons = other.icons;
        }
        self.editor = EditorConfig {
            current_line: layer(self.editor.current_line, other.editor.current_line),
            indent_guides: layer(self.editor.indent_guides, other.editor.indent_guides),
        };
        self.gui = GuiConfig {
            font_size: layer(self.gui.font_size, other.gui.font_size),
            fps: layer(self.gui.fps, other.gui.fps),
            dialog_size: layer(self.gui.dialog_size, other.gui.dialog_size),
            word_wrap: layer(self.gui.word_wrap, other.gui.word_wrap),
            padding: layer(self.gui.padding, other.gui.padding),
        };
        let mut theme = other.theme;
        let ghost a = pairs_view(self.theme@);
        let ghost b = pairs_view(theme@);
        self.theme.append(&mut theme);
        proof {
            assert(pairs_view(self.theme@) =~= a + b);
            assert forall|name: Seq<char>| #[trigger]
                lookup(a + b, name) == layered(lookup(a, name), lookup(b, name)) by {
                lemma_lookup_both(a, b, name);
            }
        }
    }

    /// The configuration that the global file and then the project's file
    /// make, laid over the defaults. A file that is missing or malformed counts
    /// for nothing.
    pub fn load_with(global: Option<Config>, project: Option<Config>) -> (r: Config)
        ensures
            exists|base: Config, mid: Config| #[trigger]
                mid.blank_over(base, global) && #[trigger] r.blank_over(mid, project)
                    && base.blank(),
    {
        let mut cfg = Config::default();
        let ghost base = cfg;
        if let Some(g) = global {
            cfg.merge(g);
        }
        let ghost mid = cfg;
        if let Some(p) = project {
            cfg.merge(p);
        }
        proof {
            assert(mid.blank_over(base, global));
            assert(cfg.blank_over(mid, project));
        }
        cfg
    }

    /// Nothing is configured.
    pub open spec fn blank(self) -> bool {
        &&& self.icons is None
        &&& self.theme@.len() == 0
        &&& self.gui == GuiConfig {
            font_size: None,
            fps: None,
            dialog_size: None,
            word_wrap: None,
            padding: None,
        }
        &&& self.editor == EditorConfig { current_line: None, indent_guides: None }
    }

    /// `over` laid over `under`, where there is a file.
    pub open spec fn blank_over(self, under: Config, over: Option<Config>) -> bool {
        match over {
            Some(o) => self.merges(under, o),
            None => self == under,
        }
    }

    /// The set of icons.
    pub open spec fn chosen_mode(self) -> IconMode {
        match self.icons {
            Some(s) => mode_of(text_lowercase(trim_text(s@))),
            None => IconMode::Nerd,
        }
    }

    /// The set of icons.
    pub fn icon_mode(&self) -> (r: IconMode)
        ensures
            r == self.chosen_mode(),
    {
        match &self.icons {
            Some(s) => IconMode::from_str(s.as_str()),
            None => IconMode::Nerd,
        }
    }

    /// The glyphs of the set of icons.
    pub fn icons(&self) -> (r: Icons)
        ensures
            r.shows(self.chosen_mode()),
    {
        Icons::new(self.icon_mode())
    }

    /// The theme `base` with the configured colours laid over it. A colour that
    /// is not written as `#rrggbb` counts for nothing.
    pub fn theme(&self, base: Theme) -> (r: Theme)
        ensures
            r.accent == match self.colour("accent"@) {
                Some(s) => match hex_color(s) {
                    Some(c) => c,
                    None => base.accent,
                },
                None => base.accent,
            },
    {
        let mut i: usize = self.theme.len();
        assert(pairs_view(self.theme@).take(i as int) =~= pairs_view(self.theme@));
        while i > 0
            invariant
                i <= self.theme@.len(),
                self.colour("accent"@) == lookup(
                    pairs_view(self.theme@).take(i as int),
                    "accent"@,
                ),
            decreases i,
        {
            let ghost t = pairs_view(self.theme@).take(i as int);
            assert(t.drop_last() =~= pairs_view(self.theme@).take(i - 1));
            if same_text(self.theme[i - 1].0.as_str(), "accent") {
                return match from_hex(self.theme[i - 1].1.as_str()) {
                    Some(c) => Theme { accent: c },
                    None => base,
                };
            }
            i = i - 1;
        }
        base
    }

    /// Whether the caret's row is tinted.
    pub fn current_line(&self) -> (r: bool)
        ensures
            r == (self.editor.current_line != Some(false)),
    {
        self.editor.current_line.unwrap_or(true)
    }

    /// Whether indentation is ruled.
    pub fn indent_guides(&self) -> (r: bool)
        ensures
            r == (self.editor.indent_guides != Some(false)),
    {
        self.editor.indent_guides.unwrap_or(true)
    }

    /// The font size of the window, kept within bounds.
    pub fn gui_font_size(&self) -> (r: u32)
        ensures
            r == match self.gui.font_size {
                Some(n) => clamped(n as int, FONT_SIZE_MIN as int, FONT_SIZE_MAX as int),
                None => FONT_SIZE_DEFAULT as int,
            },
    {
        clamp_to(self.gui.font_size.unwrap_or(FONT_SIZE_DEFAULT), FONT_SIZE_MIN, FONT_SIZE_MAX)
    }

    /// The repaint rate: the one on offer that is nearest to the configured
    /// one.
    pub fn gui_fps(&self) -> (r: u32)
        ensures
            nearest_fps(r, match self.gui.fps {
                Some(n) => n,
                None => 60,
            }),
    {
        let raw: u32 = self.gui.fps.unwrap_or(60);
        let opts = fps_list();
        let mut best: usize = 0;
        let mut i: usize = 1;
        while i < opts.len()
            invariant
                opts@ == fps_options(),
                best < i <= opts@.len(),
                forall|j: int|
                    #![trigger opts@[j]]
                    0 <= j < i ==> if j < best {
                        distance(opts@[best as int] as int, raw as int) < distance(
                            opts@[j] as int,
                            raw as int,
                        )
                    } else {
                        distance(opts@[best as int] as int, raw as int) <= distance(
                            opts@[j] as int,
                            raw as int,
                        )
                    },
            decreases opts.len() - i,
        {
            if apart(opts[i], raw) < apart(opts[best], raw) {
                best = i;
            }
            i = i + 1;
        }
        opts[best]
    }

    /// The share of the screen that a dialog takes, kept within bounds.
    pub fn gui_dialog_size(&self) -> (r: u32)
        ensures
            r == match self.gui.dialog_size {
                Some(n) => clamped(n as int, DIALOG_SIZE_MIN as int, DIALOG_SIZE_MAX as int),
                None => DIALOG_SIZE_DEFAULT as int,
            },
    {
        clamp_to(
            self.gui.dialog_size.unwrap_or(DIALOG_SIZE_DEFAULT),
            DIALOG_SIZE_MIN,
            DIALOG_SIZE_MAX,
        )
    }

    /// Whether long lines wrap.
    pub fn word_wrap(&self) -> (r: bool)
        ensures
            r == (self.gui.word_wrap == Some(true)),
    {
        self.gui.word_wrap.unwrap_or(false)
    }

    /// The margin of the window, capped so that it cannot take the window up.
    pub fn gui_padding(&self) -> (r: u16)
        ensures
            r == match self.gui.padding {
                Some(n) => if n <= PADDING_MAX {
                    n
                } else {
                    PADDING_MAX
                },
                None => 1u16,
            },
    {
        let n: u16 = self.gui.padding.unwrap_or(1);
        if n <= PADDING_MAX {
            n
        } else {
            PADDING_MAX
        }
    }
}

proof fn lemma_lookup_both(
    a: Seq<(Seq<char>, Seq<char>)>,
    b: Seq<(Seq<char>, Seq<char>)>,
    name: Seq<char>,
)
    ensures
        lookup(a + b, name) == layered(lookup(a, name), lookup(b, name)),
    decreases b.len(),
{
    if b.len() == 0 {
        assert(a + b =~= a);
    } else {
        assert((a + b).drop_last() =~= a + b.drop_last());
        lemma_lookup_both(a, b.drop_last(), name);
    }
}

/// The preferences that the settings dialog writes down.
#[derive(Debug, Clone, Copy, PartialEq, Eq, Structural)]
pub struct Prefs {
    pub font_size: u32,
    pub fps: u32,
    pub dialog_size: u32,
    pub word_wrap: bool,
    pub accent: Rgb,
}

/// The table under `key`, an empty one where there is none; no table where
/// something else is there.
pub open spec fn section(root: Map<Seq<char>, Toml>, key: Seq<char>) -> Option<
    Map<Seq<char>, Toml>,
> {
    if !root.contains_key(key) {
        Some(Map::empty())
    } else {
        match root[key] {
            Toml::Table(t) => Some(t),
            _ => None,
        }
    }
}

/// The settings of the window in their table.
pub open spec fn with_gui(gui: Map<Seq<char>, Toml>, p: Prefs) -> Map<Seq<char>, Toml> {
    gui.insert("font_size"@, Toml::Integer(p.font_size as int)).insert(
        "fps"@,
        Toml::Integer(p.fps as int),
    ).insert("dialog_size"@, Toml::Integer(p.dialog_size as int)).insert(
        "word_wrap"@,
        Toml::Boolean(p.word_wrap),
    )
}

/// A document with the preferences written in. Whatever else it holds stays.
pub open spec fn with_prefs(root: Map<Seq<char>, Toml>, p: Prefs) -> Map<Seq<char>, Toml> {
    let mid = match section(root, "gui"@) {
        Some(gui) => root.insert("gui"@, Toml::Table(with_gui(gui, p))),
        None => root,
    };
    match section(mid, "theme"@) {
        Some(theme) => mid.insert(
            "theme"@,
            Toml::Table(theme.insert("accent"@, Toml::Text(hex_text(p.accent)))),
        ),
        None => mid,
    }
}

/// The table under `key`, an empty one where there is none.
fn section_of(root: &toml::map::Map<String, toml::Value>, key: &str) -> (r: Option<
    toml::map::Map<String, toml::Value>,
>)
    ensures
        match r {
            Some(t) => section(table_entries(*root), key@) == Some(table_entries(t)),
            None => section(table_entries(*root), key@) is None,
        },
{
    match table_section(root, key) {
        Section::Absent => Some(table_new()),
        Section::Table(t) => Some(t),
        Section::NotATable => None,
    }
}

/// Write the preferences into a document.
pub fn apply_prefs(root: &mut toml::map::Map<String, toml::Value>, p: &Prefs)
    ensures
        table_entries(*final(root)) == with_prefs(table_entries(*old(root)), *p),
{
    if let Some(mut gui) = section_of(root, "gui") {
        table_insert(&mut gui, "font_size", Setting::Integer(p.font_size as i64));
        table_insert(&mut gui, "fps", Setting::Integer(p.fps as i64));
        table_insert(&mut gui, "dialog_size", Setting::Integer(p.dialog_size as i64));
        table_insert(&mut gui, "word_wrap", Setting::Boolean(p.word_wrap));
        table_insert(root, "gui", Setting::Table(gui));
    }
    if let Some(mut theme) = section_of(root, "theme") {
        table_insert(&mut theme, "accent", Setting::Text(to_hex(p.accent)));
        table_insert(root, "theme", Setting::Table(theme));
    }
}

/// What the document that is there holds; nothing where there is none or it is
/// malformed.
pub open spec fn start_from(existing: Option<Seq<char>>) -> Map<Seq<char>, Toml> {
    match existing {
        Some(text) => match parsed_table(text) {
            Some(t) => t,
            None => Map::empty(),
        },
        None => Map::empty(),
    }
}

/// No preference stands under the key that marks a date.
proof fn lemma_no_pref_is_a_date()
    ensures
        "font_size"@ != date_key(),
        "fps"@ != date_key(),
        "dialog_size"@ != date_key(),
        "word_wrap"@ != date_key(),
        "accent"@ != date_key(),
{
    reveal_strlit("$__toml_private_datetime");
    reveal_strlit("font_size");
    reveal_strlit("fps");
    reveal_strlit("dialog_size");
    reveal_strlit("word_wrap");
    reveal_strlit("accent");
    assert(date_key()[0] == '$');
}

/// The preferences go into a shallow document without making it deeper.
proof fn lemma_prefs_stay_shallow(root: Map<Seq<char>, Toml>, p: Prefs)
    requires
        is_shallow(root),
    ensures
        is_shallow(with_prefs(root, p)),
{
    lemma_section_names();
    lemma_no_pref_is_a_date();
    let after = with_prefs(root, p);
    assert forall|k: Seq<char>| #[trigger] after.contains_key(k) implies is_scalar(after[k]) || (
    after[k] is Table && is_flat(after[k]->Table_0)) by {
        if k == "gui"@ {
            assert(root.contains_key(k) ==> is_scalar(root[k]) || is_flat(root[k]->Table_0));
        } else if k == "theme"@ {
            assert(root.contains_key(k) ==> is_scalar(root[k]) || is_flat(root[k]->Table_0));
        } else {
            assert(root.contains_key(k));
        }
    }
}

/// The configuration file with the preferences written into what is there
/// already. A file of plain values and of sections of them reads back as it was
/// written, so that what was saved is there at the next start and when it is
/// saved again. What a file with arrays, dates, fractions or sections within
/// sections reads back as is left unsaid.
pub fn save_prefs_to(existing: Option<&str>, p: &Prefs) -> (r: Option<String>)
    ensures
        ({
            let before = start_from(
                match existing {
                    Some(s) => Some(s@),
                    None => None,
                },
            );
            let after = with_prefs(before, *p);
            &&& opt_text(r) == pretty_text(after)
            &&& is_shallow(before) ==> r is Some && start_from(opt_text(r)) == after
        }),
{
    let mut root = match existing {
        Some(text) => match table_parse(text) {
            Some(t) => t,
            None => table_new(),
        },
        None => table_new(),
    };
    proof {
        if is_shallow(table_entries(root)) {
            lemma_prefs_stay_shallow(table_entries(root), *p);
        }
    }
    apply_prefs(&mut root, p);
    table_pretty(&root)
}

/// Saving the preferences leaves every other key of the document as it was,
/// and every other key of the two tables that it writes into.
pub proof fn law_saving_keeps_other_keys(root: Map<Seq<char>, Toml>, p: Prefs, key: Seq<char>)
    ensures
        key != "gui"@ && key != "theme"@ ==> with_prefs(root, p).contains_key(key)
            == root.contains_key(key) && with_prefs(root, p)[key] == root[key],
        section(root, "gui"@) is Some ==> section(with_prefs(root, p), "gui"@) == Some(
            with_gui(section(root, "gui"@)->0, p),
        ),
        section(root, "theme"@) is Some && key != "accent"@ ==> {
            let after = section(with_prefs(root, p), "theme"@)->0;
            let before = section(root, "theme"@)->0;
            after.contains_key(key) == before.contains_key(key) && after[key] == before[key]
        },
        section(root, "gui"@) is None ==> with_prefs(root, p)["gui"@] == root["gui"@],
        section(root, "theme"@) is None ==> with_prefs(root, p)["theme"@] == root["theme"@],
{
    lemma_section_names();
}

/// Saved preferences are what a later reader of the document finds.
pub proof fn law_saved_preferences_are_found(root: Map<Seq<char>, Toml>, p: Prefs)
    requires
        section(root, "gui"@) is Some,
        section(root, "theme"@) is Some,
    ensures
        ({
            let gui = section(with_prefs(root, p), "gui"@)->0;
            let theme = section(with_prefs(root, p), "theme"@)->0;
            &&& gui["font_size"@] == Toml::Integer(p.font_size as int)
            &&& gui["fps"@] == Toml::Integer(p.fps as int)
            &&& gui["dialog_size"@] == Toml::Integer(p.dialog_size as int)
            &&& gui["word_wrap"@] == Toml::Boolean(p.word_wrap)
            &&& theme["accent"@] == Toml::Text(hex_text(p.accent))
            &&& hex_color(hex_text(p.accent)) == Some(p.accent)
        }),
{
    lemma_section_names();
    crate::color::law_colors_read_back(p.accent);
}

proof fn lemma_section_names()
    ensures
        "gui"@ != "theme"@,
        "font_size"@ != "fps"@,
        "font_size"@ != "dialog_size"@,
        "font_size"@ != "word_wrap"@,
        "fps"@ != "dialog_size"@,
        "fps"@ != "word_wrap"@,
        "dialog_size"@ != "word_wrap"@,
{
    reveal_strlit("gui");
    reveal_strlit("theme");
    reveal_strlit("font_size");
    reveal_strlit("fps");
    reveal_strlit("dialog_size");
    reveal_strlit("word_wrap");
    assert("gui"@.len() == 3 && "theme"@.len() == 5 && "font_size"@.len() == 9 && "fps"@.len()
        == 3);
    assert("font_size"@[0] == 'f' && "word_wrap"@[0] == 'w');
}

/// A later file wins wherever it says something, and only there.
pub proof fn law_later_files_win(under: Config, over: Config, r: Config, name: Seq<char>)
    requires
        r.merges(under, over),
    ensures
        over.gui.font_size is Some ==> r.gui.font_size == over.gui.font_size,
        over.gui.font_size is None ==> r.gui.font_size == under.gui.font_size,
        over.colour(name) is Some ==> r.colour(name) == over.colour(name),
        over.colour(name) is None ==> r.colour(name) == under.colour(name),
        over.icons is Some ==> opt_text(r.icons) == opt_text(over.icons),
        over.icons is None ==> opt_text(r.icons) == opt_text(under.icons),
{
    assert(r.colour(name) == layered(under.colour(name), over.colour(name)));
}

/// The repaint rate is one of those on offer, and one on offer is kept.
pub proof fn law_fps_is_on_offer(f: u32, raw: u32)
    requires
        nearest_fps(f, raw),
    ensures
        fps_options().contains(f),
        fps_options().contains(raw) ==> f == raw,
{
    let opts = fps_options();
    if opts.contains(raw) {
        let k = opts.index_of(raw);
        assert(opts[k] == raw);
    }
}

/// What is configured out of bounds comes back to the nearest bound. The font goes
/// from 8 to 72 points and is 24 by itself, a dialog takes from 80 to 99 per cent
/// and 85 by itself, and the margin is no more than 8.
pub proof fn law_sizes_come_back_into_bounds(n: int)
    ensures
        8 <= n <= 72 ==> clamped(n, FONT_SIZE_MIN as int, FONT_SIZE_MAX as int) == n,
        n < 8 ==> clamped(n, FONT_SIZE_MIN as int, FONT_SIZE_MAX as int) == 8,
        n > 72 ==> clamped(n, FONT_SIZE_MIN as int, FONT_SIZE_MAX as int) == 72,
        80 <= n <= 99 ==> clamped(n, DIALOG_SIZE_MIN as int, DIALOG_SIZE_MAX as int) == n,
        n < 80 ==> clamped(n, DIALOG_SIZE_MIN as int, DIALOG_SIZE_MAX as int) == 80,
        n > 99 ==> clamped(n, DIALOG_SIZE_MIN as int, DIALOG_SIZE_MAX as int) == 99,
        FONT_SIZE_DEFAULT == 24,
        DIALOG_SIZE_DEFAULT == 85,
        PADDING_MAX == 8,
{
}

/// The rates on offer are 1, 5, 10, 20, 30 and 60, and the nearest to one of them is
/// that one.
pub proof fn law_rates_on_offer_stay(f: u32, raw: u32)
    requires
        nearest_fps(f, raw),
    ensures
        f == 1 || f == 5 || f == 10 || f == 20 || f == 30 || f == 60,
        raw == 1 || raw == 5 || raw == 10 || raw == 20 || raw == 30 || raw == 60 ==> f == raw,
        raw > 60 ==> f == 60,
        raw == 0 ==> f == 1,
{
    let o = fps_options();
    assert(o.len() == 6);
    assert(o[0] == 1 && o[1] == 5 && o[2] == 10 && o[3] == 20 && o[4] == 30 && o[5] == 60);
    let i = choose|i: int|
        #![trigger o[i]]
        0 <= i < o.len() && o[i] == f && forall|j: int|
            #![trigger o[j]]
            0 <= j < o.len() ==> if j < i {
                distance(f as int, raw as int) < distance(o[j] as int, raw as int)
            } else {
                distance(f as int, raw as int) <= distance(o[j] as int, raw as int)
            };
    assert(i == 0 || i == 1 || i == 2 || i == 3 || i == 4 || i == 5);
}

} // verus!
