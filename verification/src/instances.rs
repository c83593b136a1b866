//! Which folders the running windows have open. Each window leaves a marker
//! with its process number and its folder.

use crate::filedialog::texts;
use crate::strings::{chars_of, lowercase, text_lowercase};
use crate::text::{after_last, find, first_place, tail_of, trim, trim_text};
use vstd::prelude::*;
use vstd::string::*;

verus! {

/// What is known of the process that left a marker.
#[derive(Debug)]
pub enum Process {
    /// It is gone.
    Dead,
    /// It lives, and what it runs cannot be told.
    Unknown,
    /// It lives and runs this command.
    Runs(String),
}

/// A marker: its process and, where it could be read, its content.
#[derive(Debug)]
pub struct Marker {
    pub process: Process,
    pub content: Option<String>,
}

/// Whether a lower-case program name is that of the editor.
pub open spec fn names_editor(name: Seq<char>) -> bool {
    first_place(name, "oxru"@, 0) >= 0
}

/// Whether a lower-case program name is that of the editor.
pub fn is_editor_name(name: &str) -> (r: bool)
    ensures
        r == names_editor(name@),
{
    let v = chars_of(name);
    find(&v, &chars_of("oxru"), 0).is_some()
}

impl Process {
    /// Whether a window of the editor is behind the marker. Where that cannot
    /// be told, it counts as one.
    pub open spec fn is_window(self) -> bool {
        match self {
            Process::Dead => false,
            Process::Unknown => true,
            Process::Runs(c) => names_editor(text_lowercase(tail_of(trim_text(c@), '/'))),
        }
    }

    /// Whether a window of the editor is behind the marker.
    pub fn pid_is_oxru(&self) -> (r: bool)
        ensures
            r == self.is_window(),
    {
        match self {
            Process::Dead => false,
            Process::Unknown => true,
            Process::Runs(c) => {
                let comm = lowercase(after_last(trim(c.as_str()).as_str(), '/').as_str());
                is_editor_name(comm.as_str())
            },
        }
    }
}

/// The folder that a marker holds, where it counts.
pub open spec fn marker_folder(m: Marker) -> Option<Seq<char>> {
    match m.content {
        Some(c) => if m.process.is_window() && trim_text(c@).len() > 0 {
            Some(trim_text(c@))
        } else {
            None
        },
        None => None,
    }
}

/// The folders of the markers that count.
pub open spec fn folders_of(m: Seq<Marker>) -> Seq<Seq<char>>
    decreases m.len(),
{
    if m.len() == 0 {
        Seq::empty()
    } else {
        match marker_folder(m.last()) {
            Some(f) => folders_of(m.drop_last()).push(f),
            None => folders_of(m.drop_last()),
        }
    }
}

/// The folders that windows have open, and for each marker whether it is stale.
pub fn open_folders(markers: &Vec<Marker>) -> (r: (Vec<String>, Vec<bool>))
    ensures
        texts(r.0@) == folders_of(markers@),
        r.1@ == Seq::new(markers@.len(), |i: int| !markers@[i].process.is_window()),
{
    let mut out: Vec<String> = Vec::new();
    let mut stale: Vec<bool> = Vec::new();
    let mut i: usize = 0;
    assert(texts(out@) =~= folders_of(markers@.take(0)));
    while i < markers.len()
        invariant
            i <= markers@.len(),
            texts(out@) == folders_of(markers@.take(i as int)),
            stale@.len() == i,
            forall|k: int| 0 <= k < i ==> stale@[k] == !markers@[k].process.is_window(),
        decreases markers.len() - i,
    {
        assert(markers@.take(i + 1).drop_last() =~= markers@.take(i as int));
        let ghost before = texts(out@);
        let live = markers[i].process.pid_is_oxru();
        stale.push(!live);
        if live {
            if let Some(c) = &markers[i].content {
                let t = trim(c.as_str());
                let ghost tv = t@;
                if !t.as_str().is_empty() {
                    out.push(t);
                    assert(texts(out@) =~= before.push(tv));
                }
            }
        }
        i = i + 1;
    }
    assert(markers@.take(i as int) =~= markers@);
    assert(stale@ =~= Seq::new(markers@.len(), |i: int| !markers@[i].process.is_window()));
    (out, stale)
}

/// A stale marker gives no folder.
pub proof fn law_stale_markers_count_for_nothing(m: Marker)
    requires
        !m.process.is_window(),
    ensures
        marker_folder(m) is None,
{
}

} // verus!
