//! The look integrator.
//!
//! Each frame it folds the accumulated mouse-motion deltas, in arrival
//! order, into the camera's yaw and pitch.  Every event subtracts
//! `sensitivity * delta * min(width, height)` micro-degrees, converted to
//! micro-radians, from the angle; pitch is clamped into
//! `[-PITCH_LIMIT_MICRO, PITCH_LIMIT_MICRO]` after every event and yaw is
//! wrapped into `[-PI_MICRO, PI_MICRO)`.  While the cursor is free, or
//! without a window, the orientation is left untouched.

use crate::config::MouseSettings;
use crate::input::CursorGrabState;
use crate::input::InputSnapshot;
use crate::input::MouseDelta;
use crate::input::WindowState;
use crate::math::clamp_i128;
use crate::math::clamp_spec;
use crate::math::deg_to_rad;
use crate::math::deg_to_rad_spec;
use crate::math::wrap_angle;
use crate::math::wrap_angle_spec;
use crate::math::PITCH_LIMIT_MICRO;
use crate::math::PI_MICRO;
use crate::player::CameraTransform;
use crate::player::Controller;
use vstd::prelude::*;

verus! {

/// One mouse event applied to a yaw/pitch pair: each axis loses the
/// converted angular step, then pitch is clamped and yaw wrapped.
pub open spec fn look_step(yaw: int, pitch: int, d: MouseDelta, sensitivity: int, scale: int) -> (
    int,
    int,
) {
    let yaw_step = deg_to_rad_spec(sensitivity * d.dx * scale);
    let pitch_step = deg_to_rad_spec(sensitivity * d.dy * scale);
    (
        wrap_angle_spec(yaw - yaw_step),
        clamp_spec(pitch - pitch_step, -PITCH_LIMIT_MICRO as int, PITCH_LIMIT_MICRO as int),
    )
}

/// The whole frame's events folded over the starting angles, first event
/// first.
pub open spec fn look_fold(
    motions: Seq<MouseDelta>,
    yaw: int,
    pitch: int,
    sensitivity: int,
    scale: int,
) -> (int, int)
    decreases motions.len(),
{
    if motions.len() == 0 {
        (yaw, pitch)
    } else {
        let stepped = look_step(yaw, pitch, motions[0], sensitivity, scale);
        look_fold(motions.drop_first(), stepped.0, stepped.1, sensitivity, scale)
    }
}

/// The camera transform after one look-integrator frame: orientation folded
/// over the events while the cursor is captured, untouched otherwise;
/// position never moves.
pub open spec fn look_result(
    t: CameraTransform,
    motions: Seq<MouseDelta>,
    settings: MouseSettings,
    window: Option<WindowState>,
) -> CameraTransform {
    match window {
        Option::None => t,
        Option::Some(w) => if w.grab_mode is Captured {
            let folded = look_fold(
                motions,
                t.yaw as int,
                t.pitch as int,
                settings.sensitivity as int,
                w.min_dimension(),
            );
            CameraTransform { yaw: folded.0 as i64, pitch: folded.1 as i64, ..t }
        } else {
            t
        },
    }
}

/// The look integrator.  Runs once per frame; `input.motions` holds the
/// frame's mouse-motion deltas in arrival order.  The orientation is exact
/// per `look_result`; the pitch clamp holds for any delta magnitudes, and a
/// free cursor or a missing window leaves the controller untouched.
pub fn player_look(
    mouse_settings: &MouseSettings,
    window: &Option<WindowState>,
    input: &InputSnapshot,
    ctrl: &mut Controller,
)
    requires
        mouse_settings.wf(),
        old(ctrl).wf(),
        *window matches Some(w) ==> w.wf(),
    ensures
        final(ctrl).transform == look_result(
            old(ctrl).transform,
            input.motions@,
            *mouse_settings,
            *window,
        ),
        final(ctrl).wf(),
        final(ctrl).transform.x == old(ctrl).transform.x,
        final(ctrl).transform.y == old(ctrl).transform.y,
        final(ctrl).transform.z == old(ctrl).transform.z,
        -PITCH_LIMIT_MICRO <= final(ctrl).transform.pitch <= PITCH_LIMIT_MICRO,
        *window is None ==> *final(ctrl) == *old(ctrl),
        (*window matches Some(w) && w.grab_mode is Free) ==> *final(ctrl) == *old(ctrl),
{
    let w: &WindowState = match window {
        Option::Some(w) => w,
        Option::None => {
            return;
        },
    };
    match w.grab_mode {
        CursorGrabState::Free => {
            return;
        },
        CursorGrabState::Captured => {},
    }
    let scale: i64 = if w.width <= w.height {
        w.width as i64
    } else {
        w.height as i64
    };
    let sens: i64 = mouse_settings.sensitivity;
    let mut yaw: i64 = ctrl.transform.yaw;
    let mut pitch: i64 = ctrl.transform.pitch;
    let ghost yaw0: int = ctrl.transform.yaw as int;
    let ghost pitch0: int = ctrl.transform.pitch as int;
    let n: usize = input.motions.len();
    proof {
        assert(input.motions@.skip(0) =~= input.motions@);
    }
    for i in 0..n
        invariant
            n == input.motions@.len(),
            0 <= sens <= 1_000_000_000,
            0 <= scale <= 1_000_000,
            -PI_MICRO <= yaw <= PI_MICRO,
            -PITCH_LIMIT_MICRO <= pitch <= PITCH_LIMIT_MICRO,
            look_fold(input.motions@.skip(i as int), yaw as int, pitch as int, sens as int,
            scale as int) == look_fold(input.motions@, yaw0, pitch0, sens as int, scale as int),
    {
        let ev: MouseDelta = input.motions[i];
        proof {
            crate::math::lemma_mul_bound(
                sens as int,
                ev.dx as int,
                1_000_000_000,
                0x8000_0000_0000_0000,
            );
            crate::math::lemma_mul_bound(
                (sens as int) * (ev.dx as int),
                scale as int,
                1_000_000_000int * 0x8000_0000_0000_0000int,
                1_000_000,
            );
            crate::math::lemma_mul_bound(
                sens as int,
                ev.dy as int,
                1_000_000_000,
                0x8000_0000_0000_0000,
            );
            crate::math::lemma_mul_bound(
                (sens as int) * (ev.dy as int),
                scale as int,
                1_000_000_000int * 0x8000_0000_0000_0000int,
                1_000_000,
            );
        }
        let yaw_step: i128 = deg_to_rad((sens as i128) * (ev.dx as i128) * (scale as i128));
        let pitch_step: i128 = deg_to_rad((sens as i128) * (ev.dy as i128) * (scale as i128));
        let new_yaw: i64 = wrap_angle((yaw as i128) - yaw_step);
        let new_pitch: i64 = clamp_i128(
            (pitch as i128) - pitch_step,
            -PITCH_LIMIT_MICRO,
            PITCH_LIMIT_MICRO,
        );
        proof {
            assert(input.motions@.skip(i as int).drop_first() =~= input.motions@.skip(
                i as int + 1,
            ));
            assert(input.motions@.skip(i as int)[0] == input.motions@[i as int]);
        }
        yaw = new_yaw;
        pitch = new_pitch;
    }
    proof {
        assert(input.motions@.skip(n as int) =~= Seq::<MouseDelta>::empty());
    }
    ctrl.transform.yaw = yaw;
    ctrl.transform.pitch = pitch;
}

} // verus!
