//! The per-frame input snapshot and the window state the controller reads.
//!
//! The platform layer fills an `InputSnapshot` before any controller routine
//! runs in a frame; the snapshot is immutable for the frame's duration.  The
//! window carries the cursor-grab mode that gates movement and look, and the
//! pixel dimensions that scale mouse sensitivity.

use vstd::prelude::*;

verus! {

/// A keyboard symbol, as the platform layer reports it.
#[derive(Clone, Copy, Debug, PartialEq, Eq, Structural)]
pub enum Key {
    KeyW,
    KeyA,
    KeyS,
    KeyD,
    KeyQ,
    KeyE,
    KeyT,
    Space,
    ShiftLeft,
    Escape,
    Tab,
    Enter,
}

/// Whether the cursor is captured (confined to the window and hidden) or
/// free (unconfined and visible).
#[derive(Clone, Copy, Debug, PartialEq, Eq, Structural)]
pub enum CursorGrabState {
    Captured,
    Free,
}

/// One mouse-motion event: a delta in device units, `x` rightward and `y`
/// downward.
#[derive(Clone, Copy, Debug, PartialEq, Eq, Structural)]
pub struct MouseDelta {
    pub dx: i64,
    pub dy: i64,
}

/// What the controller reads from and writes to the application window:
/// the cursor-grab mode, cursor visibility, and the pixel dimensions.
#[derive(Clone, Copy, Debug, PartialEq, Eq, Structural)]
pub struct WindowState {
    pub grab_mode: CursorGrabState,
    pub visible: bool,
    pub width: u32,
    pub height: u32,
}

impl WindowState {
    /// Window dimensions stay within a million pixels per side.
    pub open spec fn wf(self) -> bool {
        self.width <= 1_000_000 && self.height <= 1_000_000
    }

    /// The shorter window dimension, which scales mouse sensitivity.
    pub open spec fn min_dimension(self) -> int {
        if self.width <= self.height {
            self.width as int
        } else {
            self.height as int
        }
    }
}

/// The read-only view of one frame's input: the keys currently held, the
/// keys whose press edge fell in this frame, and the mouse-motion deltas
/// accumulated since the previous frame, in arrival order.
#[derive(Clone, Debug)]
pub struct InputSnapshot {
    pub held: Vec<Key>,
    pub just_pressed: Vec<Key>,
    pub motions: Vec<MouseDelta>,
}

impl InputSnapshot {
    /// The held keys form a set: no symbol is listed twice.
    pub open spec fn wf(self) -> bool {
        self.held@.no_duplicates()
    }
}

} // verus!
