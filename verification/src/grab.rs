//! The cursor-grab state machine.
//!
//! The cursor is either captured (confined to the window and hidden) or
//! free (unconfined and visible).  A bound key toggles between the two on
//! its press edge; an initialization step run once at startup performs the
//! first toggle, so a session that starts free becomes captured.  A missing
//! window makes every routine here a no-op for the frame.

use crate::config::KeyBinds;
use crate::input::CursorGrabState;
use crate::input::Key;
use crate::input::InputSnapshot;
use crate::input::WindowState;
use vstd::prelude::*;

verus! {

/// The window after one grab toggle: captured becomes free and visible,
/// free becomes captured and hidden.  Dimensions are untouched.
pub open spec fn toggle_spec(w: WindowState) -> WindowState {
    match w.grab_mode {
        CursorGrabState::Free => WindowState {
            grab_mode: CursorGrabState::Captured,
            visible: false,
            ..w
        },
        CursorGrabState::Captured => WindowState {
            grab_mode: CursorGrabState::Free,
            visible: true,
            ..w
        },
    }
}

/// The window after the per-frame grab routine: toggled exactly once when
/// the toggle key's press edge fell in this frame, otherwise unchanged; a
/// missing window stays missing.
pub open spec fn grab_result(w: Option<WindowState>, just_pressed: Seq<Key>, binds: KeyBinds) -> Option<
    WindowState,
> {
    match w {
        Option::None => Option::None,
        Option::Some(win) => if just_pressed.contains(binds.grab_mouse_toggle) {
            Option::Some(toggle_spec(win))
        } else {
            Option::Some(win)
        },
    }
}

/// Flip the cursor-grab state of the window: entering the captured state
/// confines and hides the cursor, entering the free state releases and
/// shows it.
pub fn toggle_cursor_grab(window: &mut WindowState)
    ensures
        *final(window) == toggle_spec(*old(window)),
{
    match window.grab_mode {
        CursorGrabState::Free => {
            window.grab_mode = CursorGrabState::Captured;
            window.visible = false;
        },
        CursorGrabState::Captured => {
            window.grab_mode = CursorGrabState::Free;
            window.visible = true;
        },
    }
}

/// The per-frame grab routine: toggle the cursor grab once if the bound
/// toggle key was pressed this frame.  Edge-triggered: the snapshot lists a
/// key in `just_pressed` only in the frame of its press edge, so holding
/// the key does not toggle repeatedly, and even a snapshot that lists the
/// edge twice toggles only once.  Without a window, a no-op.
pub fn grab_cursor(input: &InputSnapshot, binds: &KeyBinds, window: &mut Option<WindowState>)
    ensures
        *final(window) == grab_result(*old(window), input.just_pressed@, *binds),
{
    let pressed: bool = contains_key(&input.just_pressed, binds.grab_mouse_toggle);
    match window {
        Option::Some(w) => {
            if pressed {
                toggle_cursor_grab(w);
            }
        },
        Option::None => {},
    }
}

/// The startup routine: perform the initial toggle, taking the window from
/// its free launch state into the captured state.  Without a window, a
/// no-op.
pub fn init_cursor_grab(window: &mut Option<WindowState>)
    ensures
        *old(window) is None ==> *final(window) is None,
        *old(window) matches Some(w) ==> *final(window) == Some(toggle_spec(w)),
{
    match window {
        Option::Some(w) => {
            toggle_cursor_grab(w);
        },
        Option::None => {},
    }
}

/// Whether `keys` lists the symbol `k`.
pub fn contains_key(keys: &Vec<Key>, k: Key) -> (r: bool)
    ensures
        r == keys@.contains(k),
{
    let n: usize = keys.len();
    for i in 0..n
        invariant
            n == keys@.len(),
            forall|j: int| 0 <= j < i ==> keys@[j] != k,
    {
        if keys[i] == k {
            return true;
        }
    }
    false
}

/// Toggling the grab twice returns the grab mode to its original value, and
/// a window whose visibility agrees with its grab mode (the steady state
/// every toggle establishes) returns entirely to its original value.
pub proof fn lemma_toggle_round_trip(w: WindowState)
    ensures
        toggle_spec(toggle_spec(w)).grab_mode == w.grab_mode,
        toggle_spec(toggle_spec(w)).width == w.width,
        toggle_spec(toggle_spec(w)).height == w.height,
        w.visible == (w.grab_mode is Free) ==> toggle_spec(toggle_spec(w)) == w,
{
}

/// Pressing the toggle key in each of two separate frames returns the
/// cursor-grab state to its original value.
pub proof fn lemma_grab_two_frames_round_trip(
    w: WindowState,
    first: Seq<Key>,
    second: Seq<Key>,
    binds: KeyBinds,
)
    requires
        first.contains(binds.grab_mouse_toggle),
        second.contains(binds.grab_mouse_toggle),
    ensures
        grab_result(grab_result(Some(w), first, binds), second, binds) matches Some(v)
            && v.grab_mode == w.grab_mode,
{
    lemma_toggle_round_trip(w);
}

} // verus!
