//! The two controller configuration records: movement bindings plus speed,
//! and look sensitivity.  Both are built once at startup and read by the
//! per-frame routines.

use crate::input::Key;
use vstd::prelude::*;

verus! {

/// Look sensitivity and movement speed, in micro-units: `sensitivity` is
/// micro-degrees per device delta unit per pixel of the window's shorter
/// dimension, `speed` is micro-world-units per second.
#[derive(Clone, Copy, Debug, PartialEq, Eq, Structural)]
pub struct MouseSettings {
    pub sensitivity: i64,
    pub speed: i64,
}

impl MouseSettings {
    /// Both scalars are nonnegative and bounded (a thousand units in real
    /// terms), which keeps every intermediate product in range.
    pub open spec fn wf(self) -> bool {
        0 <= self.sensitivity <= 1_000_000_000 && 0 <= self.speed <= 1_000_000_000
    }
}

impl Default for MouseSettings {
    /// The startup settings: sensitivity 0.00015, speed 12 units per second.
    fn default() -> (s: Self)
        ensures
            s == (MouseSettings { sensitivity: 150i64, speed: 12_000_000i64 }),
            s.wf(),
    {
        MouseSettings { sensitivity: 150, speed: 12_000_000 }
    }
}

/// The key bound to each movement direction, and the cursor-grab toggle.
#[derive(Clone, Copy, Debug, PartialEq, Eq, Structural)]
pub struct KeyBinds {
    pub forward: Key,
    pub backward: Key,
    pub left: Key,
    pub right: Key,
    pub jump: Key,
    pub crouch: Key,
    pub grab_mouse_toggle: Key,
}

impl KeyBinds {
    /// Each binding is a distinct input symbol.
    pub open spec fn wf(self) -> bool {
        self.forward != self.backward && self.forward != self.left && self.forward != self.right
            && self.forward != self.jump && self.forward != self.crouch && self.forward
            != self.grab_mouse_toggle && self.backward != self.left && self.backward != self.right
            && self.backward != self.jump && self.backward != self.crouch && self.backward
            != self.grab_mouse_toggle && self.left != self.right && self.left != self.jump
            && self.left != self.crouch && self.left != self.grab_mouse_toggle && self.right
            != self.jump && self.right != self.crouch && self.right != self.grab_mouse_toggle
            && self.jump != self.crouch && self.jump != self.grab_mouse_toggle && self.crouch
            != self.grab_mouse_toggle
    }
}

impl Default for KeyBinds {
    /// The startup bindings: WASD movement, Space to rise, left Shift to
    /// sink, Escape to toggle the cursor grab.
    fn default() -> (b: Self)
        ensures
            b == (KeyBinds {
                forward: Key::KeyW,
                backward: Key::KeyS,
                left: Key::KeyA,
                right: Key::KeyD,
                jump: Key::Space,
                crouch: Key::ShiftLeft,
                grab_mouse_toggle: Key::Escape,
            }),
            b.wf(),
    {
        KeyBinds {
            forward: Key::KeyW,
            backward: Key::KeyS,
            left: Key::KeyA,
            right: Key::KeyD,
            jump: Key::Space,
            crouch: Key::ShiftLeft,
            grab_mouse_toggle: Key::Escape,
        }
    }
}

} // verus!
