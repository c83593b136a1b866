//! Which icons a host terminal can draw.

use crate::icons::IconMode;
use vstd::prelude::*;

verus! {

/// What became of the font with the symbols.
#[derive(Debug, Clone, Copy, PartialEq, Eq, Structural)]
pub enum FontInstall {
    AlreadyPresent,
    /// It was put in its place just now, and loads with the next start.
    Installed,
    /// There is no place for fonts here.
    Unsupported,
    Failed,
}

/// The set of icons for a host terminal, and whether to say that the font will
/// be there after a restart. A set that was chosen stays; the patched font's
/// glyphs are kept only where the font is there already.
pub fn ensure_terminal_icons(mode: IconMode, explicit: bool, font: FontInstall) -> (r: (
    IconMode,
    bool,
))
    ensures
        r.0 == if !explicit && mode == IconMode::Nerd && font != FontInstall::AlreadyPresent {
            IconMode::Unicode
        } else {
            mode
        },
        r.1 == (!explicit && mode == IconMode::Nerd && font == FontInstall::Installed),
{
    if explicit || mode != IconMode::Nerd {
        return (mode, false);
    }
    match font {
        FontInstall::AlreadyPresent => (mode, false),
        FontInstall::Installed => (IconMode::Unicode, true),
        FontInstall::Unsupported | FontInstall::Failed => (IconMode::Unicode, false),
    }
}

} // verus!
