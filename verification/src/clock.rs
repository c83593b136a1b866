//! When things are due. Times are milliseconds on a clock that never goes back.

use vstd::prelude::*;

verus! {

/// How long the caret is on, and how long off.
pub const BLINK: u64 = 500;

/// How long a wait lasts while something is going on.
pub const ACTIVE_POLL: u64 = 16;

/// How long a wait lasts while nothing is going on, and how long something
/// counts as going on.
pub const IDLE_POLL: u64 = 1000;

/// How often open files are held against the disk.
pub const FILE_CHECK: u64 = 800;

/// How often the use of memory is read.
pub const MEMORY_CHECK: u64 = 2000;

/// How often the state of the repository is read.
pub const GIT_CHECK: u64 = 3000;

/// How long a file that was just opened does not scroll with the wheel.
pub const WHEEL_GRACE: u64 = 300;

/// How much later `now` is than `then`.
pub open spec fn elapsed(now: u64, then: u64) -> int {
    if now >= then {
        now - then
    } else {
        0
    }
}

/// How much later `now` is than `then`.
pub fn since(now: u64, then: u64) -> (r: u64)
    ensures
        r == elapsed(now, then),
{
    if now >= then {
        now - then
    } else {
        0
    }
}

/// The time between two unattended repaints at `fps` frames a second.
pub fn repaint_interval(fps: u32) -> (r: u64)
    ensures
        r == if fps == 0 {
            1000
        } else {
            1000int / fps as int
        },
{
    if fps == 0 {
        1000
    } else {
        1000 / fps as u64
    }
}

/// How often a caret that stands still has to be looked at to blink.
pub fn blink_poll_interval() -> (r: u64)
    ensures
        r == BLINK / 2,
{
    BLINK / 2
}

/// Whether fresh output of a terminal is reason enough to repaint.
pub fn terminal_repaint_due(pumped: bool, now: u64, last: u64, interval: u64) -> (r: bool)
    ensures
        r == (pumped && elapsed(now, last) >= interval),
{
    pumped && since(now, last) >= interval
}

/// How long to wait for an event: briefly while something is going on, half a
/// blink while a file is open, and long otherwise.
pub fn poll_timeout(now: u64, active_until: u64, editing: bool) -> (r: u64)
    ensures
        r == if now < active_until {
            ACTIVE_POLL
        } else if editing {
            BLINK / 2
        } else {
            IDLE_POLL
        },
{
    if now < active_until {
        ACTIVE_POLL
    } else if editing {
        blink_poll_interval()
    } else {
        IDLE_POLL
    }
}

/// The caret's clock: when it was last made solid, and where the caret was
/// then.
#[derive(Debug, Clone, Copy, PartialEq, Eq, Structural)]
pub struct Blink {
    pub base: u64,
    pub editor: Option<usize>,
    pub cursor: usize,
}

impl Blink {
    /// Whether the caret shows. It is solid the moment it moves, and blinks
    /// from then on.
    pub fn cursor_blink_on(&mut self, now: u64, editor: Option<usize>, cursor: usize) -> (r: bool)
        ensures
            ({
                let moved = editor != old(self).editor || cursor != old(self).cursor;
                &&& *final(self) == if moved {
                    Blink { base: now, editor, cursor }
                } else {
                    *old(self)
                }
                &&& r == (moved || (elapsed(now, old(self).base) / (BLINK as int)) % 2 == 0)
            }),
    {
        if editor != self.editor || cursor != self.cursor {
            self.editor = editor;
            self.cursor = cursor;
            self.base = now;
            return true;
        }
        (since(now, self.base) / BLINK) % 2 == 0
    }
}

/// A check that is made every so often.
#[derive(Debug, Clone, Copy, PartialEq, Eq, Structural)]
pub struct Throttle {
    /// When the check was last made; until then it is due at once.
    pub last: Option<u64>,
}

impl Throttle {
    /// Whether the check is due at the time `now`.
    pub open spec fn due(self, now: u64, every: u64) -> bool {
        match self.last {
            Some(t) => elapsed(now, t) >= every,
            None => true,
        }
    }

    /// The throttle after a look at the time `now`: a check that is due counts
    /// as made.
    pub open spec fn polled(self, now: u64, every: u64) -> Throttle {
        if self.due(now, every) {
            Throttle { last: Some(now) }
        } else {
            self
        }
    }

    /// Whether the check is due; it counts as made then.
    pub fn poll(&mut self, now: u64, every: u64) -> (r: bool)
        ensures
            r == old(self).due(now, every),
            *final(self) == old(self).polled(now, every),
    {
        match self.last {
            Some(t) => {
                if since(now, t) < every {
                    return false;
                }
            },
            None => {},
        }
        self.last = Some(now);
        true
    }

    /// Make the next check due at once.
    pub fn soon(&mut self)
        ensures
            final(self).last is None,
    {
        self.last = None;
    }
}

/// A check that was asked for is due at any time, and once it was made not
/// again before its interval has passed.
pub proof fn law_a_check_waits_for_its_interval(t: Throttle, now: u64, then: u64, every: u64)
    requires
        now <= then,
        t.due(now, every),
    ensures
        (Throttle { last: None }).due(then, every),
        t.polled(now, every).due(then, every) == (then - now >= every),
{
}

/// A caret that stands still shows for the first half of every blink and hides
/// for the second.
pub proof fn law_the_caret_blinks(base: u64, now: u64)
    requires
        base <= now,
        now + BLINK <= u64::MAX,
    ensures
        (elapsed(now, base) / (BLINK as int)) % 2 == 0 <==> (elapsed(
            (now + BLINK) as u64,
            base,
        ) / (BLINK as int)) % 2 == 1,
{
    let e = elapsed(now, base);
    assert((e + 500) / 500 == e / 500 + 1);
}

/// The intervals, in milliseconds: the caret blinks every half second, open files
/// are checked every 800, and the branch every three seconds; a wheel that still
/// turns does not count for 300 after a file is opened. A check is due exactly when
/// its interval has passed, or when none was made.
pub proof fn law_a_check_is_due_after_its_interval(t: Throttle, now: u64, every: u64)
    ensures
        t.last is None ==> t.due(now, every),
        t.last matches Some(then) ==> (now >= then ==> t.due(now, every) == (now - then >= every)),
        t.due(now, every) ==> t.polled(now, every).last == Some(now),
        !t.due(now, every) ==> t.polled(now, every) == t,
        BLINK == 500,
        FILE_CHECK == 800,
        GIT_CHECK == 3000,
        WHEEL_GRACE == 300,
{
}

} // verus!
