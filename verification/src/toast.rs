//! Short notices in the corner of the screen.

use vstd::prelude::*;

verus! {

/// How long a notice stays, in milliseconds.
pub const TOAST_TTL: u64 = 2200;

/// The flavour of a notice.
#[derive(Debug, Clone, Copy, PartialEq, Eq, Structural)]
pub enum ToastKind {
    Info,
    Success,
    Error,
}

/// A notice. Times are milliseconds on a clock that never goes back.
#[derive(Debug)]
pub struct Toast {
    pub message: String,
    pub kind: ToastKind,
    pub created: u64,
}

/// A notice as a mathematical value.
#[verifier::ext_equal]
pub struct ToastState {
    pub message: Seq<char>,
    pub kind: ToastKind,
    pub created: u64,
}

impl View for Toast {
    type V = ToastState;

    open spec fn view(&self) -> ToastState {
        ToastState { message: self.message@, kind: self.kind, created: self.created }
    }
}

/// A notice, where there is one.
pub open spec fn opt_toast(o: Option<Toast>) -> Option<ToastState> {
    match o {
        Some(t) => Some(t@),
        None => None,
    }
}

impl ToastState {
    /// Whether the notice still shows at `now`.
    pub open spec fn shows(self, now: u64) -> bool {
        now < self.created || now - self.created < TOAST_TTL
    }
}

impl Toast {
    /// Whether the notice still shows at `now`.
    pub fn is_visible(&self, now: u64) -> (r: bool)
        ensures
            r == self@.shows(now),
    {
        now < self.created || now - self.created < TOAST_TTL
    }
}

/// Drop a notice that has been up for its time.
pub fn expire_toast(toast: &mut Option<Toast>, now: u64)
    ensures
        opt_toast(*final(toast)) == match opt_toast(*old(toast)) {
            Some(t) => if t.shows(now) {
                Some(t)
            } else {
                None
            },
            None => None,
        },
{
    let gone = match toast {
        Some(t) => !t.is_visible(now),
        None => false,
    };
    if gone {
        *toast = None;
    }
}

/// A notice shows from the moment it is put up until 2.2 seconds later.
pub proof fn law_a_notice_shows_for_two_seconds(t: ToastState, now: u64)
    ensures
        now >= t.created ==> t.shows(now) == (now < t.created + 2200),
        now < t.created ==> t.shows(now),
{
}

} // verus!
