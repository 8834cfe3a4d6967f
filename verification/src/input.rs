//! Input backends: the interface that clicks, which backend to try first, and
//! the button codes each backend sends.

use vstd::prelude::*;
use crate::config::{BackendPreference, MouseButton};
use crate::text::{eq_ignore_ascii_case, eq_ignore_ascii_case_spec};

verus! {

/// Something that can press and release a mouse button.
pub trait InputBackend: Send {
    fn name(&self) -> &'static str;

    fn click(&mut self, button: MouseButton, press_duration_ms: u64) -> Result<(), String>;
}

pub const BTN_LEFT: u16 = 0x110;
pub const BTN_RIGHT: u16 = 0x111;
pub const BTN_MIDDLE: u16 = 0x112;

/// The Linux input code that the uinput backend sends for a button.
pub fn uinput_button_code(button: MouseButton) -> (code: u16)
    ensures
        code == (match button {
            MouseButton::Left => BTN_LEFT,
            MouseButton::Middle => BTN_MIDDLE,
            MouseButton::Right => BTN_RIGHT,
        }),
{
    match button {
        MouseButton::Left => BTN_LEFT,
        MouseButton::Middle => BTN_MIDDLE,
        MouseButton::Right => BTN_RIGHT,
    }
}

/// The X11 button number that the XTEST backend sends for a button.
pub fn x11_button_number(button: MouseButton) -> (n: u32)
    ensures
        n == (match button {
            MouseButton::Left => 1u32,
            MouseButton::Middle => 2u32,
            MouseButton::Right => 3u32,
        }),
{
    match button {
        MouseButton::Left => 1,
        MouseButton::Middle => 2,
        MouseButton::Right => 3,
    }
}

/// Whether the session is a Wayland one: `WAYLAND_DISPLAY` is set, or
/// `XDG_SESSION_TYPE` (when set and valid Unicode) is "wayland" in any
/// ASCII case.
pub fn wayland_session(wayland_display_set: bool, session_type: Option<&str>) -> (r: bool)
    ensures
        r == (wayland_display_set || (session_type matches Some(t) && eq_ignore_ascii_case_spec(t@, "wayland"@))),
{
    if wayland_display_set {
        return true;
    }
    match session_type {
        Some(t) => eq_ignore_ascii_case(t, "wayland"),
        None => false,
    }
}

/// A backend to open.
#[derive(Debug, Clone, Copy, PartialEq, Eq, Structural)]
pub enum BackendKind {
    Uinput,
    X11,
}

/// What happens when opening a backend fails.
#[derive(Debug, Clone, Copy, PartialEq, Eq, Structural)]
pub enum OnFailure {
    /// Report the failure and go on with the next attempt.
    Continue,
    /// Give up with the failure.
    Fail,
    /// Give up, explaining that Wayland input needs uinput access.
    FailNeedsUinput,
}

/// One attempt at opening a backend.
#[derive(Debug, Clone, Copy, PartialEq, Eq, Structural)]
pub struct Attempt {
    pub kind: BackendKind,
    pub on_failure: OnFailure,
}

/// The attempts, in order, for a backend preference: the preferred backend
/// alone; or, for "auto", uinput first on Wayland (a failure there ends the
/// search unless an X display is available), then X11 when a display is
/// available (its failure is passed over), then uinput as the last resort.
pub open spec fn attempts_for(preference: BackendPreference, wayland: bool, display_set: bool) -> Seq<Attempt> {
    match preference {
        BackendPreference::Uinput => seq![Attempt { kind: BackendKind::Uinput, on_failure: OnFailure::Fail }],
        BackendPreference::X11 => seq![Attempt { kind: BackendKind::X11, on_failure: OnFailure::Fail }],
        BackendPreference::Auto =>
            (if wayland {
                seq![Attempt {
                    kind: BackendKind::Uinput,
                    on_failure: if display_set { OnFailure::Continue } else { OnFailure::FailNeedsUinput },
                }]
            } else {
                Seq::empty()
            })
            + (if display_set { seq![Attempt { kind: BackendKind::X11, on_failure: OnFailure::Continue }] } else { Seq::empty() })
            + seq![Attempt { kind: BackendKind::Uinput, on_failure: OnFailure::Fail }],
    }
}

/// The backends to try, in order, for a backend preference.
pub fn backend_attempts(preference: BackendPreference, wayland: bool, display_set: bool) -> (r: Vec<Attempt>)
    ensures
        r@ == attempts_for(preference, wayland, display_set),
{
    let mut r: Vec<Attempt> = Vec::new();
    match preference {
        BackendPreference::Uinput => {
            r.push(Attempt { kind: BackendKind::Uinput, on_failure: OnFailure::Fail });
        },
        BackendPreference::X11 => {
            r.push(Attempt { kind: BackendKind::X11, on_failure: OnFailure::Fail });
        },
        BackendPreference::Auto => {
            if wayland {
                r.push(Attempt {
                    kind: BackendKind::Uinput,
                    on_failure: if display_set { OnFailure::Continue } else { OnFailure::FailNeedsUinput },
                });
            }
            if display_set {
                r.push(Attempt { kind: BackendKind::X11, on_failure: OnFailure::Continue });
            }
            r.push(Attempt { kind: BackendKind::Uinput, on_failure: OnFailure::Fail });
        },
    }
    assert(r@ =~= attempts_for(preference, wayland, display_set));
    r
}

/// Every attempt sequence ends with one that gives up on failure, so the
/// search for a backend always ends with a backend or an error.
pub proof fn law_attempts_end_in_failure(preference: BackendPreference, wayland: bool, display_set: bool)
    ensures
        attempts_for(preference, wayland, display_set).len() > 0,
        attempts_for(preference, wayland, display_set).last().on_failure != OnFailure::Continue,
{
}

/// An explicit backend preference is honoured whatever the session: the
/// attempts are that one backend alone, and its failure is final. Only
/// "auto" ever tries more than one backend, and it always ends with uinput.
pub proof fn law_explicit_backend_is_the_only_one(preference: BackendPreference, wayland: bool, display_set: bool)
    ensures
        preference == BackendPreference::Uinput ==> attempts_for(preference, wayland, display_set)
            == seq![Attempt { kind: BackendKind::Uinput, on_failure: OnFailure::Fail }],
        preference == BackendPreference::X11 ==> attempts_for(preference, wayland, display_set)
            == seq![Attempt { kind: BackendKind::X11, on_failure: OnFailure::Fail }],
        preference != BackendPreference::Auto ==> forall|i: int| 0 <= i < attempts_for(preference, wayland, display_set).len()
            ==> (#[trigger] attempts_for(preference, wayland, display_set)[i]).kind
                == (if preference == BackendPreference::Uinput { BackendKind::Uinput } else { BackendKind::X11 }),
        attempts_for(preference, wayland, display_set).last().kind == BackendKind::Uinput
            || preference == BackendPreference::X11,
{
}

} // verus!
