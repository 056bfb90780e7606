//! The camera entity: the one transform both integrators mutate, the
//! startup wiring that spawns it, and the plugin that bundles the
//! configuration and runs the three per-frame routines in order.

use crate::config::KeyBinds;
use crate::config::MouseSettings;
use crate::grab::grab_cursor;
use crate::grab::grab_result;
use crate::input::InputSnapshot;
use crate::input::WindowState;
use crate::look::look_result;
use crate::look::player_look;
use crate::math::PITCH_LIMIT_MICRO;
use crate::math::PI_MICRO;
use crate::math::POS_LIMIT_MICRO;
use crate::motion::move_result;
use crate::motion::player_move;
use crate::motion::BASIS_SQ_MAX;
use vstd::prelude::*;

verus! {

/// The camera transform: a world position and a yaw/pitch orientation, all
/// in micro-units.  Yaw turns about the world up axis, pitch about the
/// local right axis; roll is always zero, so the pair determines the
/// rotation.  The engine reconstructs the actual rotation from the pair
/// each frame.
#[derive(Clone, Copy, Debug, PartialEq, Eq, Structural)]
pub struct CameraTransform {
    pub x: i64,
    pub y: i64,
    pub z: i64,
    pub yaw: i64,
    pub pitch: i64,
}

impl CameraTransform {
    /// Position stays within the world bounds, pitch within the clamp
    /// range, yaw within one turn.
    pub open spec fn wf(self) -> bool {
        &&& -POS_LIMIT_MICRO <= self.x <= POS_LIMIT_MICRO
        &&& -POS_LIMIT_MICRO <= self.y <= POS_LIMIT_MICRO
        &&& -POS_LIMIT_MICRO <= self.z <= POS_LIMIT_MICRO
        &&& -PITCH_LIMIT_MICRO <= self.pitch <= PITCH_LIMIT_MICRO
        &&& -PI_MICRO <= self.yaw <= PI_MICRO
    }
}

/// The single controller instance: the owner of the camera transform.  The
/// motion integrator writes its position, the look integrator its
/// orientation; nothing else writes it.
#[derive(Clone, Copy, Debug, PartialEq, Eq, Structural)]
pub struct Controller {
    pub transform: CameraTransform,
}

impl Controller {
    pub open spec fn wf(self) -> bool {
        self.transform.wf()
    }
}

/// Spawn the camera entity: position `(-2, 5, 5)` with the orientation that
/// faces the world origin (yaw about -0.380506, pitch about -0.748327
/// radians, to the nearest micro-radian).
pub fn setup_player() -> (c: Controller)
    ensures
        c.transform == (CameraTransform {
            x: -2_000_000i64,
            y: 5_000_000i64,
            z: 5_000_000i64,
            yaw: -380_506i64,
            pitch: -748_327i64,
        }),
        c.wf(),
{
    Controller {
        transform: CameraTransform {
            x: -2_000_000,
            y: 5_000_000,
            z: 5_000_000,
            yaw: -380_506,
            pitch: -748_327,
        },
    }
}

/// The controller bundle: the two configuration records, built once at
/// startup and handed by reference to the per-frame routines.
#[derive(Clone, Copy, Debug, PartialEq, Eq, Structural)]
pub struct PlayerPlugin {
    pub settings: MouseSettings,
    pub binds: KeyBinds,
}

impl PlayerPlugin {
    /// Build the bundle with the default settings and bindings.
    pub fn build() -> (p: Self)
        ensures
            p.settings == (MouseSettings { sensitivity: 150i64, speed: 12_000_000i64 }),
            p.binds == (KeyBinds {
                forward: crate::input::Key::KeyW,
                backward: crate::input::Key::KeyS,
                left: crate::input::Key::KeyA,
                right: crate::input::Key::KeyD,
                jump: crate::input::Key::Space,
                crouch: crate::input::Key::ShiftLeft,
                grab_mouse_toggle: crate::input::Key::Escape,
            }),
            p.settings.wf(),
            p.binds.wf(),
    {
        PlayerPlugin { settings: MouseSettings::default(), binds: KeyBinds::default() }
    }

    /// Run one frame of the controller: the motion integrator, then the look
    /// integrator, then the grab toggle.  Both integrators observe the
    /// cursor-grab state the frame started with — the toggle's effect is
    /// visible only from the next frame on — and a frame that starts with the
    /// cursor free leaves the camera untouched whatever the input holds.
    /// `lz_x` and `lz_z` are the horizontal components of the camera's local
    /// z axis, as the engine derives them from the current orientation.
    pub fn update(
        &self,
        input: &InputSnapshot,
        dt_micros: i64,
        lz_x: i64,
        lz_z: i64,
        window: &mut Option<WindowState>,
        ctrl: &mut Controller,
    )
        requires
            self.settings.wf(),
            self.binds.wf(),
            input.wf(),
            old(ctrl).wf(),
            0 <= dt_micros <= 1_000_000_000,
            lz_x * lz_x + lz_z * lz_z <= BASIS_SQ_MAX,
            *old(window) matches Some(w) ==> w.wf(),
        ensures
            final(ctrl).transform == look_result(
                move_result(
                    old(ctrl).transform,
                    input.held@,
                    self.binds,
                    self.settings,
                    dt_micros as int,
                    lz_x as int,
                    lz_z as int,
                    *old(window),
                ),
                input.motions@,
                self.settings,
                *old(window),
            ),
            final(ctrl).wf(),
            *final(window) == grab_result(*old(window), input.just_pressed@, self.binds),
            (*old(window) matches Some(w) && w.grab_mode is Free) ==> *final(ctrl) == *old(ctrl),
            *old(window) is None ==> *final(ctrl) == *old(ctrl) && *final(window) is None,
    {
        player_move(input, dt_micros, window, &self.settings, &self.binds, lz_x, lz_z, ctrl);
        player_look(&self.settings, window, input, ctrl);
        grab_cursor(input, &self.binds, window);
    }
}

/// The two integrators commute: within a frame, motion writes only the
/// position and look writes only the orientation, so running them in either
/// order leaves the camera in the same state.
pub proof fn lemma_move_look_commute(
    t: CameraTransform,
    held: Seq<crate::input::Key>,
    motions: Seq<crate::input::MouseDelta>,
    binds: KeyBinds,
    settings: MouseSettings,
    dt: int,
    lz_x: int,
    lz_z: int,
    window: Option<WindowState>,
)
    ensures
        look_result(
            move_result(t, held, binds, settings, dt, lz_x, lz_z, window),
            motions,
            settings,
            window,
        ) == move_result(
            look_result(t, motions, settings, window),
            held,
            binds,
            settings,
            dt,
            lz_x,
            lz_z,
            window,
        ),
{
    let m = move_result(t, held, binds, settings, dt, lz_x, lz_z, window);
    let l = look_result(t, motions, settings, window);
    assert(m.yaw == t.yaw && m.pitch == t.pitch);
    assert(l.x == t.x && l.y == t.y && l.z == t.z);
    let lm = look_result(m, motions, settings, window);
    let ml = move_result(l, held, binds, settings, dt, lz_x, lz_z, window);
    assert(lm.x == m.x && lm.y == m.y && lm.z == m.z);
    assert(ml.yaw == l.yaw && ml.pitch == l.pitch);
    assert(lm == ml);
}

} // verus!
