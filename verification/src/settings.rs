//! The settings dialog.

use crate::color::Rgb;
use crate::config::{
    clamped, fps_list, fps_options, Prefs, DIALOG_SIZE_MAX, DIALOG_SIZE_MIN, FONT_SIZE_MAX,
    FONT_SIZE_MIN,
};
use crate::steps::{step, stepped};
use vstd::prelude::*;

verus! {

/// How many sections the dialog has: the font size, the repaint rate, the size
/// of dialogs, and the accent colour.
pub const SETTINGS_SECTIONS: usize = 4;

/// The settings that the dialog changes, and where the focus is in it.
#[derive(Debug)]
pub struct Settings {
    pub open: bool,
    /// The focused section.
    pub focus: usize,
    pub font_size: u32,
    pub fps: u32,
    /// The share of the screen that a dialog takes, in percent.
    pub dialog_size: u32,
    pub word_wrap: bool,
    /// The accent colours on offer.
    pub palette: Vec<Rgb>,
    /// The colour that is picked.
    pub color: usize,
    pub accent: Rgb,
}

/// The settings as a mathematical value.
#[verifier::ext_equal]
pub struct SettingsState {
    pub open: bool,
    pub focus: int,
    pub font_size: int,
    pub fps: u32,
    pub dialog_size: int,
    pub word_wrap: bool,
    pub palette: Seq<Rgb>,
    pub color: int,
    pub accent: Rgb,
}

impl View for Settings {
    type V = SettingsState;

    open spec fn view(&self) -> SettingsState {
        SettingsState {
            open: self.open,
            focus: self.focus as int,
            font_size: self.font_size as int,
            fps: self.fps,
            dialog_size: self.dialog_size as int,
            word_wrap: self.word_wrap,
            palette: self.palette@,
            color: self.color as int,
            accent: self.accent,
        }
    }
}

/// The place of the first item that equals `x`, or 0 where none does.
pub open spec fn place_or_first<T>(s: Seq<T>, x: T) -> int
    decreases s.len(),
{
    if s.len() == 0 {
        0
    } else if s.drop_last().contains(x) {
        place_or_first(s.drop_last(), x)
    } else if s.last() == x {
        s.len() - 1
    } else {
        0
    }
}

impl SettingsState {
    /// The focus is on a section, and a colour on offer is picked.
    pub open spec fn wf(self) -> bool {
        &&& 0 <= self.focus < SETTINGS_SECTIONS
        &&& 0 <= self.color < self.palette.len()
        &&& self.palette.len() <= usize::MAX
    }

    /// The dialog as it opens: the first section, and the colour in use where it
    /// is on offer.
    pub open spec fn opened(self) -> SettingsState {
        SettingsState {
            open: true,
            focus: 0,
            color: place_or_first(self.palette, self.accent),
            ..self
        }
    }

    /// The focused setting `delta` steps on.
    pub open spec fn adjusted(self, delta: int) -> SettingsState {
        if self.focus == 0 {
            SettingsState {
                font_size: clamped(
                    self.font_size + delta,
                    FONT_SIZE_MIN as int,
                    FONT_SIZE_MAX as int,
                ),
                ..self
            }
        } else if self.focus == 1 {
            let opts = fps_options();
            SettingsState {
                fps: opts[clamped(place_or_first(opts, self.fps) + delta, 0, opts.len() - 1)],
                ..self
            }
        } else if self.focus == 2 {
            SettingsState {
                dialog_size: clamped(
                    self.dialog_size + delta,
                    DIALOG_SIZE_MIN as int,
                    DIALOG_SIZE_MAX as int,
                ),
                ..self
            }
        } else {
            let color = stepped(self.color, delta, self.palette.len() as int);
            SettingsState { color, accent: self.palette[color], ..self }
        }
    }
}

proof fn lemma_place<T>(s: Seq<T>, x: T, i: int)
    requires
        0 <= i < s.len(),
        s[i] == x,
        forall|k: int| 0 <= k < i ==> s[k] != x,
    ensures
        place_or_first(s, x) == i,
    decreases s.len(),
{
    if i < s.len() - 1 {
        assert(s.drop_last()[i] == x);
        assert(s.drop_last().contains(x));
        lemma_place(s.drop_last(), x, i);
    } else {
        assert(!s.drop_last().contains(x));
    }
}

proof fn lemma_no_place<T>(s: Seq<T>, x: T)
    requires
        !s.contains(x),
    ensures
        place_or_first(s, x) == 0,
    decreases s.len(),
{
    if s.len() > 0 {
        assert(s[s.len() - 1] == s.last());
        assert(!s.drop_last().contains(x)) by {
            if s.drop_last().contains(x) {
                let k = s.drop_last().index_of(x);
                assert(s[k] == x);
            }
        }
    }
}

fn bounded(n: u32, delta: i32, lo: u32, hi: u32) -> (r: u32)
    requires
        lo <= hi,
    ensures
        r == clamped(n + delta, lo as int, hi as int),
{
    let t: i64 = n as i64 + delta as i64;
    if t < lo as i64 {
        lo
    } else if t > hi as i64 {
        hi
    } else {
        t as u32
    }
}

impl Settings {
    /// The dialog with these settings, closed.
    pub fn new(prefs: &Prefs, palette: Vec<Rgb>) -> (r: Settings)
        ensures
            r@ == (SettingsState {
                open: false,
                focus: 0,
                font_size: prefs.font_size as int,
                fps: prefs.fps,
                dialog_size: prefs.dialog_size as int,
                word_wrap: prefs.word_wrap,
                palette: palette@,
                color: 0,
                accent: prefs.accent,
            }),
            palette@.len() > 0 ==> r@.wf(),
    {
        let n: usize = palette.len();
        Settings {
            open: false,
            focus: 0,
            font_size: prefs.font_size,
            fps: prefs.fps,
            dialog_size: prefs.dialog_size,
            word_wrap: prefs.word_wrap,
            palette,
            color: 0,
            accent: prefs.accent,
        }
    }

    /// What is written down.
    pub fn prefs(&self) -> (r: Prefs)
        ensures
            r.font_size == self@.font_size,
            r.fps == self@.fps,
            r.dialog_size == self@.dialog_size,
            r.word_wrap == self@.word_wrap,
            r.accent == self@.accent,
    {
        Prefs {
            font_size: self.font_size,
            fps: self.fps,
            dialog_size: self.dialog_size,
            word_wrap: self.word_wrap,
            accent: self.accent,
        }
    }

    /// The place of the colour in use among those on offer.
    fn accent_index(&self) -> (r: usize)
        ensures
            r == place_or_first(self@.palette, self@.accent),
            self@.palette.len() > 0 ==> r < self@.palette.len(),
    {
        let mut i: usize = 0;
        while i < self.palette.len()
            invariant
                i <= self.palette@.len(),
                forall|k: int| 0 <= k < i ==> self.palette@[k] != self.accent,
            decreases self.palette.len() - i,
        {
            if self.palette[i] == self.accent {
                proof {
                    lemma_place(self.palette@, self.accent, i as int);
                }
                return i;
            }
            i = i + 1;
        }
        proof {
            lemma_no_place(self.palette@, self.accent);
        }
        0
    }

    /// Open the dialog.
    pub fn init_settings(&mut self)
        requires
            old(self)@.wf(),
        ensures
            final(self)@ == old(self)@.opened(),
            final(self)@.wf(),
    {
        self.open = true;
        self.focus = 0;
        self.color = self.accent_index();
    }

    /// Move between the sections, going round.
    pub fn settings_move_focus(&mut self, delta: i32)
        requires
            old(self)@.wf(),
        ensures
            final(self)@ == (SettingsState {
                focus: stepped(old(self)@.focus, delta as int, SETTINGS_SECTIONS as int),
                ..old(self)@
            }),
            final(self)@.wf(),
    {
        self.focus = step(self.focus, delta, SETTINGS_SECTIONS);
    }

    /// Change the focused setting: the sizes stop at their bounds, the repaint
    /// rate steps through those on offer, and the colours go round.
    pub fn settings_adjust(&mut self, delta: i32)
        requires
            old(self)@.wf(),
        ensures
            final(self)@ == old(self)@.adjusted(delta as int),
            final(self)@.wf(),
    {
        if self.focus == 0 {
            self.font_size = bounded(self.font_size, delta, FONT_SIZE_MIN, FONT_SIZE_MAX);
        } else if self.focus == 1 {
            let opts = fps_list();
            let mut cur: usize = 0;
            let mut i: usize = 0;
            let mut found: bool = false;
            while i < opts.len() && !found
                invariant
                    opts@ == fps_options(),
                    i <= opts@.len(),
                    !found ==> cur == 0 && forall|k: int| 0 <= k < i ==> opts@[k] != self.fps,
                    found ==> cur < opts@.len() && cur == place_or_first(opts@, self.fps),
                decreases opts.len() - i,
            {
                if opts[i] == self.fps {
                    proof {
                        lemma_place(opts@, self.fps, i as int);
                    }
                    cur = i;
                    found = true;
                }
                i = i + 1;
            }
            proof {
                if !found {
                    lemma_no_place(opts@, self.fps);
                }
            }
            let idx: u32 = bounded(cur as u32, delta, 0, 5);
            self.fps = opts[idx as usize];
        } else if self.focus == 2 {
            self.dialog_size = bounded(self.dialog_size, delta, DIALOG_SIZE_MIN, DIALOG_SIZE_MAX);
        } else {
            self.color = step(self.color, delta, self.palette.len());
            self.accent = self.palette[self.color];
        }
    }
}

/// Every size stays within its bounds, and the repaint rate is one on offer.
pub proof fn law_settings_stay_in_bounds(s: SettingsState, delta: int)
    requires
        s.wf(),
    ensures
        s.focus == 0 ==> FONT_SIZE_MIN <= s.adjusted(delta).font_size <= FONT_SIZE_MAX,
        s.focus == 1 ==> fps_options().contains(s.adjusted(delta).fps),
        s.focus == 2 ==> DIALOG_SIZE_MIN <= s.adjusted(delta).dialog_size <= DIALOG_SIZE_MAX,
        s.focus == 3 ==> s.palette.contains(s.adjusted(delta).accent),
{
    if s.focus == 3 {
        assert(s.palette[s.adjusted(delta).color] == s.adjusted(delta).accent);
    }
    if s.focus == 1 {
        let opts = fps_options();
        let i = clamped(place_or_first(opts, s.fps) + delta, 0, opts.len() - 1);
        assert(opts[i] == s.adjusted(delta).fps);
    }
}

/// A step up raises the focused setting by one, or to the next rate or colour on
/// offer, and a step down lowers it, between the least and the greatest value. The
/// sizes go from 8 to 72 and from 80 to 99, the colours go round, and the other
/// settings stay.
pub proof fn law_a_step_changes_the_focused_setting(s: SettingsState)
    requires
        s.wf(),
    ensures
        ({
            let u = s.adjusted(1);
            let d = s.adjusted(-1);
            &&& s.focus == 0 && 8 <= s.font_size <= 72 ==> {
                &&& u == (SettingsState { font_size: u.font_size, ..s })
                &&& d == (SettingsState { font_size: d.font_size, ..s })
                &&& u.font_size == s.font_size + 1 || (s.font_size == 72 && u.font_size == 72)
                &&& d.font_size == s.font_size - 1 || (s.font_size == 8 && d.font_size == 8)
            }
            &&& s.focus == 2 && 80 <= s.dialog_size <= 99 ==> {
                &&& u == (SettingsState { dialog_size: u.dialog_size, ..s })
                &&& d == (SettingsState { dialog_size: d.dialog_size, ..s })
                &&& u.dialog_size == s.dialog_size + 1 || (s.dialog_size == 99 && u.dialog_size
                    == 99)
                &&& d.dialog_size == s.dialog_size - 1 || (s.dialog_size == 80 && d.dialog_size
                    == 80)
            }
            &&& s.focus == 3 ==> {
                &&& u == (SettingsState { color: u.color, accent: u.accent, ..s })
                &&& u.accent == s.palette[u.color]
                &&& d.accent == s.palette[d.color]
                &&& u.color == s.color + 1 || (s.color + 1 == s.palette.len() && u.color == 0)
                &&& d.color == s.color - 1 || (s.color == 0 && d.color == s.palette.len() - 1)
            }
        }),
{
    crate::steps::law_a_step_goes_to_the_neighbour(s.color, s.palette.len() as int);
}

/// The repaint rates on offer are 1, 5, 10, 20, 30 and 60 times a second. A step up
/// takes the next higher one and a step down the next lower one, as far as there is
/// one.
pub proof fn law_a_step_takes_the_next_rate(s: SettingsState)
    requires
        s.wf(),
        s.focus == 1,
        s.fps == 1 || s.fps == 5 || s.fps == 10 || s.fps == 20 || s.fps == 30 || s.fps == 60,
    ensures
        s.adjusted(1) == (SettingsState { fps: s.adjusted(1).fps, ..s }),
        s.adjusted(-1) == (SettingsState { fps: s.adjusted(-1).fps, ..s }),
        s.adjusted(1).fps == if s.fps == 1 {
            5u32
        } else if s.fps == 5 {
            10
        } else if s.fps == 10 {
            20
        } else if s.fps == 20 {
            30
        } else {
            60
        },
        s.adjusted(-1).fps == if s.fps == 60 {
            30u32
        } else if s.fps == 30 {
            20
        } else if s.fps == 20 {
            10
        } else if s.fps == 10 {
            5
        } else {
            1
        },
{
    let o = fps_options();
    assert(o.len() == 6);
    let i: int = if s.fps == 1 {
        0
    } else if s.fps == 5 {
        1
    } else if s.fps == 10 {
        2
    } else if s.fps == 20 {
        3
    } else if s.fps == 30 {
        4
    } else {
        5
    };
    assert(o[i] == s.fps);
    lemma_place(o, s.fps, i);
}

/// The dialog opens on its first section, with the colour in use picked where it is
/// on offer, and changes no setting.
pub proof fn law_the_settings_open_as_they_are(s: SettingsState)
    requires
        s.wf(),
    ensures
        s.opened().open,
        s.opened().focus == 0,
        s.opened() == (SettingsState { open: true, focus: 0, color: s.opened().color, ..s }),
        s.palette.contains(s.accent) ==> 0 <= s.opened().color < s.palette.len()
            && s.palette[s.opened().color] == s.accent,
{
    lemma_place_found(s.palette, s.accent);
}

proof fn lemma_place_found<T>(o: Seq<T>, x: T)
    ensures
        o.contains(x) ==> 0 <= place_or_first(o, x) < o.len() && o[place_or_first(o, x)] == x,
    decreases o.len(),
{
    if o.len() > 0 {
        let f = o.drop_last();
        lemma_place_found(f, x);
        if o.contains(x) {
            let k = choose|k: int| 0 <= k < o.len() && o[k] == x;
            if k < f.len() {
                assert(f[k] == x);
            }
        }
    }
}

} // verus!
