//! The motion integrator.
//!
//! Each frame it turns the held-key set into a world-space velocity
//! direction and integrates the camera position.  The forward and right
//! basis vectors are the horizontal projection of the camera's local axes
//! (movement stays level regardless of pitch), key contributions accumulate
//! along them, the accumulated vector is normalized to unit length — so a
//! diagonal is no faster than a single axis — and the position advances by
//! `direction * speed * delta_time`.  While the cursor is free, or without
//! a window, the position is left untouched.

use crate::config::KeyBinds;
use crate::config::MouseSettings;
use crate::input::CursorGrabState;
use crate::input::InputSnapshot;
use crate::input::Key;
use crate::input::WindowState;
use crate::math::clamp_i128;
use crate::math::clamp_spec;
use crate::math::div_trunc;
use crate::math::div_trunc_i128;
use crate::math::isqrt64;
use crate::math::lemma_abs_lt_of_sq_lt;
use crate::math::lemma_div_trunc_bound;
use crate::math::lemma_div_trunc_close;
use crate::math::lemma_mul_bound;
use crate::math::lemma_sq_nonneg;
use crate::math::lemma_sqrt_floor_bounds;
use crate::math::sqrt_floor;
use crate::math::MICRO;
use crate::math::MICRO_SQ;
use crate::math::POS_LIMIT_MICRO;
use crate::player::CameraTransform;
use crate::player::Controller;
use vstd::prelude::*;

verus! {

/// How far the squared length of a normalized nonzero direction may sit
/// from one squared unit (`MICRO * MICRO`), due to fixed-point rounding.
pub const NORM_TOLERANCE: i64 = 50_000_000;

/// Upper bound accepted for the squared length of the local-z horizontal
/// projection handed in by the engine: one squared unit plus rounding room.
pub const BASIS_SQ_MAX: i64 = 1_010_000_000_000;

/// Lower bound on that squared length while pitch stays within the clamp
/// range: `cos(1.5)^2` in squared micro-units, slightly rounded down.
pub const BASIS_SQ_MIN: i64 = 5_000_000_000;

/// Net contribution of the held keys along one axis: one for the positive
/// binding held, minus one for the negative binding held.
pub open spec fn axis_value(held: Seq<Key>, pos: Key, neg: Key) -> int {
    (if held.contains(pos) {
        1int
    } else {
        0int
    }) - (if held.contains(neg) {
        1int
    } else {
        0int
    })
}

/// Contribution along the camera's horizontal forward axis.
pub open spec fn forward_axis(held: Seq<Key>, binds: KeyBinds) -> int {
    axis_value(held, binds.forward, binds.backward)
}

/// Contribution along the camera's horizontal right axis.
pub open spec fn strafe_axis(held: Seq<Key>, binds: KeyBinds) -> int {
    axis_value(held, binds.right, binds.left)
}

/// Contribution along the world up axis.
pub open spec fn vertical_axis(held: Seq<Key>, binds: KeyBinds) -> int {
    axis_value(held, binds.jump, binds.crouch)
}

/// The accumulated world-space velocity before normalization.  `lz_x` and
/// `lz_z` are the horizontal components of the camera's local z axis in
/// micro-units; forward is their negation, right is forward turned a
/// quarter turn about the up axis, and the vertical contribution is a whole
/// unit along world up.
pub open spec fn world_velocity(af: int, ast: int, av: int, lz_x: int, lz_z: int) -> (
    int,
    int,
    int,
) {
    (af * (-lz_x) + ast * lz_z, av * (MICRO as int), af * (-lz_z) + ast * (-lz_x))
}

/// Squared length of an integer vector.
pub open spec fn norm_sq(v: (int, int, int)) -> int {
    v.0 * v.0 + v.1 * v.1 + v.2 * v.2
}

/// Normalize-or-zero: the zero vector stays zero, any other vector is
/// scaled to unit length (`MICRO` micro-units), rounding each component
/// toward zero.
pub open spec fn normalize_dir(v: (int, int, int)) -> (int, int, int) {
    if norm_sq(v) == 0 {
        (0int, 0int, 0int)
    } else {
        let s = sqrt_floor(norm_sq(v) as nat) as int;
        (
            div_trunc(v.0 * (MICRO as int), s),
            div_trunc(v.1 * (MICRO as int), s),
            div_trunc(v.2 * (MICRO as int), s),
        )
    }
}

/// One frame's displacement: the unit direction scaled by speed and the
/// frame's delta time, rescaled back into micro-units.
pub open spec fn scaled_step(d: (int, int, int), speed: int, dt: int) -> (int, int, int) {
    (
        div_trunc(d.0 * speed * dt, MICRO_SQ as int),
        div_trunc(d.1 * speed * dt, MICRO_SQ as int),
        div_trunc(d.2 * speed * dt, MICRO_SQ as int),
    )
}

/// The camera transform after one motion-integrator frame: position
/// advanced by the scaled unit direction of the held-key accumulation
/// while the cursor is captured, untouched otherwise; orientation never
/// changes.  Positions are clamped into the world bounds.
pub open spec fn move_result(
    t: CameraTransform,
    held: Seq<Key>,
    binds: KeyBinds,
    settings: MouseSettings,
    dt: int,
    lz_x: int,
    lz_z: int,
    window: Option<WindowState>,
) -> CameraTransform {
    match window {
        Option::None => t,
        Option::Some(w) => if w.grab_mode is Captured {
            let v = world_velocity(
                forward_axis(held, binds),
                strafe_axis(held, binds),
                vertical_axis(held, binds),
                lz_x,
                lz_z,
            );
            if norm_sq(v) == 0 {
                t
            } else {
                let step = scaled_step(normalize_dir(v), settings.speed as int, dt);
                CameraTransform {
                    x: clamp_spec(
                        t.x + step.0,
                        -POS_LIMIT_MICRO as int,
                        POS_LIMIT_MICRO as int,
                    ) as i64,
                    y: clamp_spec(
                        t.y + step.1,
                        -POS_LIMIT_MICRO as int,
                        POS_LIMIT_MICRO as int,
                    ) as i64,
                    z: clamp_spec(
                        t.z + step.2,
                        -POS_LIMIT_MICRO as int,
                        POS_LIMIT_MICRO as int,
                    ) as i64,
                    ..t
                }
            }
        } else {
            t
        },
    }
}

/// Extending a prefix by one element adds exactly that element to what the
/// prefix contains.
proof fn lemma_take_one_more(s: Seq<Key>, i: int, k: Key)
    requires
        0 <= i < s.len(),
    ensures
        s.take(i + 1).contains(k) <==> (s.take(i).contains(k) || s[i] == k),
{
    assert(s.take(i + 1) =~= s.take(i).push(s[i]));
    if s.take(i).contains(k) {
        let j = choose|j: int| 0 <= j < s.take(i).len() && #[trigger] s.take(i)[j] == k;
        assert(s.take(i + 1)[j] == k);
    }
    if s[i] == k {
        assert(s.take(i + 1)[i] == k);
    }
    if s.take(i + 1).contains(k) {
        let j = choose|j: int| 0 <= j < s.take(i + 1).len() && #[trigger] s.take(i + 1)[j] == k;
        if j < i {
            assert(s.take(i)[j] == k);
        }
    }
}

/// In a sequence without duplicates, no prefix contains the element that
/// follows it.
proof fn lemma_no_dup_prefix(s: Seq<Key>, i: int)
    requires
        s.no_duplicates(),
        0 <= i < s.len(),
    ensures
        !s.take(i).contains(s[i]),
{
    if s.take(i).contains(s[i]) {
        let j = choose|j: int| 0 <= j < s.take(i).len() && #[trigger] s.take(i)[j] == s[i];
        assert(s[j] == s[i]);
    }
}

/// One normalized component, squared and scaled by the squared length `s*s`
/// of the vector being normalized, sits within rounding of the component's
/// own squared contribution.
proof fn lemma_component_sq(vi: int, s: int)
    requires
        s >= 1,
        -s <= vi <= s,
    ensures
        ({
            let di = div_trunc(vi * (MICRO as int), s);
            vi * vi * (MICRO_SQ as int) - 2 * (MICRO as int) * (s * s) <= (s * s) * (di * di)
                <= vi * vi * (MICRO_SQ as int) + s * s
        }),
{
    let a = vi * (MICRO as int);
    lemma_div_trunc_close(a, s);
    let di = div_trunc(a, s);
    let rho = a - di * s;
    assert(vi * vi * (MICRO_SQ as int) - 2 * (MICRO as int) * (s * s) <= (s * s) * (di * di) <= vi
        * vi * (MICRO_SQ as int) + s * s) by (nonlinear_arith)
        requires
            s >= 1,
            -s <= vi <= s,
            a == vi * 1_000_000,
            rho == a - di * s,
            a >= 0 ==> 0 <= rho < s,
            a < 0 ==> -s < rho <= 0,
            a * rho >= 0,
    ;
}

/// The horizontal part of the accumulated velocity is built from two
/// orthogonal vectors of equal length, so its squared length factors.
proof fn lemma_horizontal_identity(af: int, ast: int, x: int, z: int)
    ensures
        (af * (-x) + ast * z) * (af * (-x) + ast * z) + (af * (-z) + ast * (-x)) * (af * (-z) + ast
            * (-x)) == (af * af + ast * ast) * (x * x + z * z),
{
    let u = af * (-x) + ast * z;
    let w = af * (-z) + ast * (-x);
    let a = af * x;
    let b = ast * z;
    let c = af * z;
    let d = ast * x;
    assert(u == b - a && w == -c - d) by (nonlinear_arith)
        requires
            u == af * (-x) + ast * z,
            w == af * (-z) + ast * (-x),
            a == af * x,
            b == ast * z,
            c == af * z,
            d == ast * x,
    ;
    assert(u * u == a * a - 2 * (a * b) + b * b) by (nonlinear_arith)
        requires
            u == b - a,
    ;
    assert(w * w == c * c + 2 * (c * d) + d * d) by (nonlinear_arith)
        requires
            w == -c - d,
    ;
    assert(a * b == c * d) by (nonlinear_arith)
        requires
            a == af * x,
            b == ast * z,
            c == af * z,
            d == ast * x,
    ;
    assert(a * a == (af * af) * (x * x)) by (nonlinear_arith)
        requires
            a == af * x,
    ;
    assert(b * b == (ast * ast) * (z * z)) by (nonlinear_arith)
        requires
            b == ast * z,
    ;
    assert(c * c == (af * af) * (z * z)) by (nonlinear_arith)
        requires
            c == af * z,
    ;
    assert(d * d == (ast * ast) * (x * x)) by (nonlinear_arith)
        requires
            d == ast * x,
    ;
    assert((af * af) * (x * x) + (ast * ast) * (x * x) == (af * af + ast * ast) * (x * x)) by (
    nonlinear_arith);
    assert((af * af) * (z * z) + (ast * ast) * (z * z) == (af * af + ast * ast) * (z * z)) by (
    nonlinear_arith);
    assert((af * af + ast * ast) * (x * x) + (af * af + ast * ast) * (z * z) == (af * af + ast
        * ast) * (x * x + z * z)) by (nonlinear_arith);
}

/// Normalization invariant: every held-key combination that produces a
/// nonzero accumulated velocity yields, after normalize-or-zero, a direction
/// of unit magnitude before it is scaled by speed: its squared length sits
/// within `NORM_TOLERANCE` of one squared unit.  `lz_x`, `lz_z` may be any
/// basis the engine can derive while pitch stays within the clamp range
/// (their squared length between `BASIS_SQ_MIN` and `BASIS_SQ_MAX`).
pub proof fn lemma_direction_unit_magnitude(
    held: Seq<Key>,
    binds: KeyBinds,
    lz_x: int,
    lz_z: int,
)
    requires
        binds.wf(),
        BASIS_SQ_MIN <= lz_x * lz_x + lz_z * lz_z <= BASIS_SQ_MAX,
        world_velocity(
            forward_axis(held, binds),
            strafe_axis(held, binds),
            vertical_axis(held, binds),
            lz_x,
            lz_z,
        ) != ((0int, 0int, 0int)),
    ensures
        ({
            let v = world_velocity(
                forward_axis(held, binds),
                strafe_axis(held, binds),
                vertical_axis(held, binds),
                lz_x,
                lz_z,
            );
            MICRO_SQ - NORM_TOLERANCE <= norm_sq(normalize_dir(v)) <= MICRO_SQ + NORM_TOLERANCE
        }),
{
    let af = forward_axis(held, binds);
    let ast = strafe_axis(held, binds);
    let av = vertical_axis(held, binds);
    let v = world_velocity(af, ast, av, lz_x, lz_z);
    let lsq = lz_x * lz_x + lz_z * lz_z;
    assert(-1 <= af <= 1 && -1 <= ast <= 1 && -1 <= av <= 1);
    let big_v = norm_sq(v);
    lemma_horizontal_identity(af, ast, lz_x, lz_z);
    assert(v.0 * v.0 + v.2 * v.2 == (af * af + ast * ast) * lsq);
    assert(v.1 * v.1 == (av * av) * 1_000_000_000_000int) by (nonlinear_arith)
        requires
            v.1 == av * 1_000_000,
    ;
    assert(big_v == (af * af + ast * ast) * lsq + (av * av) * (MICRO_SQ as int));
    if af == 0 && ast == 0 && av == 0 {
        assert(v.0 == 0 && v.1 == 0 && v.2 == 0) by (nonlinear_arith)
            requires
                af == 0,
                ast == 0,
                av == 0,
                v.0 == af * (-lz_x) + ast * lz_z,
                v.1 == av * 1_000_000,
                v.2 == af * (-lz_z) + ast * (-lz_x),
        ;
        assert(v == ((0int, 0int, 0int)));
    }
    assert(BASIS_SQ_MIN <= big_v <= 3_020_000_000_000) by (nonlinear_arith)
        requires
            big_v == (af * af + ast * ast) * lsq + (av * av) * 1_000_000_000_000int,
            -1 <= af <= 1,
            -1 <= ast <= 1,
            -1 <= av <= 1,
            !(af == 0 && ast == 0 && av == 0),
            5_000_000_000 <= lsq <= 1_010_000_000_000,
    ;
    lemma_sqrt_floor_bounds(big_v as nat);
    let s = sqrt_floor(big_v as nat) as int;
    assert(s >= 70_710 && s <= 1_740_000) by (nonlinear_arith)
        requires
            s * s <= big_v,
            big_v < (s + 1) * (s + 1),
            s >= 0,
            5_000_000_000 <= big_v <= 3_020_000_000_000,
    ;
    lemma_sq_nonneg(v.0);
    lemma_sq_nonneg(v.1);
    lemma_sq_nonneg(v.2);
    lemma_abs_lt_of_sq_lt(v.0, s + 1);
    lemma_abs_lt_of_sq_lt(v.1, s + 1);
    lemma_abs_lt_of_sq_lt(v.2, s + 1);
    lemma_component_sq(v.0, s);
    lemma_component_sq(v.1, s);
    lemma_component_sq(v.2, s);
    let d0 = div_trunc(v.0 * (MICRO as int), s);
    let d1 = div_trunc(v.1 * (MICRO as int), s);
    let d2 = div_trunc(v.2 * (MICRO as int), s);
    let dsq = norm_sq(normalize_dir(v));
    assert(dsq == d0 * d0 + d1 * d1 + d2 * d2);
    assert((s * s) * dsq == (s * s) * (d0 * d0) + (s * s) * (d1 * d1) + (s * s) * (d2 * d2)) by (
    nonlinear_arith)
        requires
            dsq == d0 * d0 + d1 * d1 + d2 * d2,
    ;
    assert((s * s) * dsq >= (1_000_000_000_000int - 6_000_000) * (s * s)) by (nonlinear_arith)
        requires
            (s * s) * dsq == (s * s) * (d0 * d0) + (s * s) * (d1 * d1) + (s * s) * (d2 * d2),
            (s * s) * (d0 * d0) >= v.0 * v.0 * 1_000_000_000_000int - 2_000_000 * (s * s),
            (s * s) * (d1 * d1) >= v.1 * v.1 * 1_000_000_000_000int - 2_000_000 * (s * s),
            (s * s) * (d2 * d2) >= v.2 * v.2 * 1_000_000_000_000int - 2_000_000 * (s * s),
            v.0 * v.0 + v.1 * v.1 + v.2 * v.2 == big_v,
            big_v >= s * s,
    ;
    assert(dsq >= 1_000_000_000_000int - 6_000_000) by (nonlinear_arith)
        requires
            s >= 1,
            (s * s) * dsq >= (1_000_000_000_000int - 6_000_000) * (s * s),
    ;
    assert((s * s) * dsq <= (1_000_000_000_003int) * (s * s) + 2_000_000_000_000int * s) by (
    nonlinear_arith)
        requires
            (s * s) * dsq == (s * s) * (d0 * d0) + (s * s) * (d1 * d1) + (s * s) * (d2 * d2),
            (s * s) * (d0 * d0) <= v.0 * v.0 * 1_000_000_000_000int + s * s,
            (s * s) * (d1 * d1) <= v.1 * v.1 * 1_000_000_000_000int + s * s,
            (s * s) * (d2 * d2) <= v.2 * v.2 * 1_000_000_000_000int + s * s,
            v.0 * v.0 + v.1 * v.1 + v.2 * v.2 == big_v,
            big_v < (s + 1) * (s + 1),
    ;
    assert(dsq <= 1_000_000_000_000int + 30_000_000) by (nonlinear_arith)
        requires
            s >= 70_710,
            (s * s) * dsq <= (1_000_000_000_003int) * (s * s) + 2_000_000_000_000int * s,
    ;
}

/// The motion integrator.  Runs once per frame.  `lz_x` and `lz_z` are the
/// horizontal components of the camera's local z axis, in micro-units, as
/// the engine derives them from the current orientation.  The position is
/// exact per `move_result`; a free cursor or a missing window leaves the
/// controller untouched.
#[verifier::rlimit(80)]
pub fn player_move(
    input: &InputSnapshot,
    dt_micros: i64,
    window: &Option<WindowState>,
    settings: &MouseSettings,
    key_bindings: &KeyBinds,
    lz_x: i64,
    lz_z: i64,
    ctrl: &mut Controller,
)
    requires
        settings.wf(),
        key_bindings.wf(),
        input.wf(),
        old(ctrl).wf(),
        0 <= dt_micros <= 1_000_000_000,
        lz_x * lz_x + lz_z * lz_z <= BASIS_SQ_MAX,
    ensures
        final(ctrl).transform == move_result(
            old(ctrl).transform,
            input.held@,
            *key_bindings,
            *settings,
            dt_micros as int,
            lz_x as int,
            lz_z as int,
            *window,
        ),
        final(ctrl).wf(),
        final(ctrl).transform.yaw == old(ctrl).transform.yaw,
        final(ctrl).transform.pitch == old(ctrl).transform.pitch,
        *window is None ==> *final(ctrl) == *old(ctrl),
        (*window matches Some(w) && w.grab_mode is Free) ==> *final(ctrl) == *old(ctrl),
{
    let w: &WindowState = match window {
        Option::Some(w) => w,
        Option::None => {
            return;
        },
    };
    match w.grab_mode {
        CursorGrabState::Free => {
            return;
        },
        CursorGrabState::Captured => {},
    }
    proof {
        lemma_sq_nonneg(lz_x as int);
        lemma_sq_nonneg(lz_z as int);
        lemma_abs_lt_of_sq_lt(lz_x as int, 1_005_000);
        lemma_abs_lt_of_sq_lt(lz_z as int, 1_005_000);
    }
    let mut af: i64 = 0;
    let mut ast: i64 = 0;
    let mut av: i64 = 0;
    let n: usize = input.held.len();
    for i in 0..n
        invariant
            n == input.held@.len(),
            input.held@.no_duplicates(),
            key_bindings.wf(),
            af == forward_axis(input.held@.take(i as int), *key_bindings),
            ast == strafe_axis(input.held@.take(i as int), *key_bindings),
            av == vertical_axis(input.held@.take(i as int), *key_bindings),
            -1 <= af <= 1,
            -1 <= ast <= 1,
            -1 <= av <= 1,
    {
        let k: Key = input.held[i];
        proof {
            lemma_no_dup_prefix(input.held@, i as int);
            lemma_take_one_more(input.held@, i as int, key_bindings.forward);
            lemma_take_one_more(input.held@, i as int, key_bindings.backward);
            lemma_take_one_more(input.held@, i as int, key_bindings.left);
            lemma_take_one_more(input.held@, i as int, key_bindings.right);
            lemma_take_one_more(input.held@, i as int, key_bindings.jump);
            lemma_take_one_more(input.held@, i as int, key_bindings.crouch);
        }
        if k == key_bindings.forward {
            af = af + 1;
        } else if k == key_bindings.backward {
            af = af - 1;
        } else if k == key_bindings.left {
            ast = ast - 1;
        } else if k == key_bindings.right {
            ast = ast + 1;
        } else if k == key_bindings.jump {
            av = av + 1;
        } else if k == key_bindings.crouch {
            av = av - 1;
        }
    }
    proof {
        assert(input.held@.take(n as int) =~= input.held@);
    }
    proof {
        lemma_mul_bound(af as int, -(lz_x as int), 1, 1_005_000);
        lemma_mul_bound(ast as int, lz_z as int, 1, 1_005_000);
        lemma_mul_bound(af as int, -(lz_z as int), 1, 1_005_000);
        lemma_mul_bound(ast as int, -(lz_x as int), 1, 1_005_000);
        lemma_mul_bound(av as int, MICRO as int, 1, MICRO as int);
    }
    let vx: i64 = af * (-lz_x) + ast * lz_z;
    let vy: i64 = av * MICRO;
    let vz: i64 = af * (-lz_z) + ast * (-lz_x);
    proof {
        lemma_mul_bound(vx as int, vx as int, 2_010_000, 2_010_000);
        lemma_mul_bound(vy as int, vy as int, MICRO as int, MICRO as int);
        lemma_mul_bound(vz as int, vz as int, 2_010_000, 2_010_000);
        lemma_sq_nonneg(vx as int);
        lemma_sq_nonneg(vy as int);
        lemma_sq_nonneg(vz as int);
    }
    let q: i64 = vx * vx + vy * vy + vz * vz;
    let ghost v: (int, int, int) = world_velocity(
        af as int,
        ast as int,
        av as int,
        lz_x as int,
        lz_z as int,
    );
    proof {
        assert(q as int == norm_sq(v));
    }
    if q == 0 {
        return;
    }
    let s: u64 = isqrt64(q as u64);
    proof {
        lemma_sqrt_floor_bounds(q as nat);
        assert(s >= 1) by (nonlinear_arith)
            requires
                s as nat == sqrt_floor(q as nat),
                q as nat >= 1,
                (q as nat) < (sqrt_floor(q as nat) + 1) * (sqrt_floor(q as nat) + 1),
        ;
        assert((q as int) < (s as int + 1) * (s as int + 1));
        lemma_abs_lt_of_sq_lt(vx as int, s as int + 1);
        lemma_abs_lt_of_sq_lt(vy as int, s as int + 1);
        lemma_abs_lt_of_sq_lt(vz as int, s as int + 1);
        lemma_abs_lt_of_sq_lt(s as int, 4_000_000);
    }
    let dir_x: i64 = div_small(vx, s);
    let dir_y: i64 = div_small(vy, s);
    let dir_z: i64 = div_small(vz, s);
    let step_x: i64 = scale_step(dir_x, settings.speed, dt_micros);
    let step_y: i64 = scale_step(dir_y, settings.speed, dt_micros);
    let step_z: i64 = scale_step(dir_z, settings.speed, dt_micros);
    ctrl.transform.x = clamp_i128(
        (ctrl.transform.x as i128) + (step_x as i128),
        -POS_LIMIT_MICRO,
        POS_LIMIT_MICRO,
    );
    ctrl.transform.y = clamp_i128(
        (ctrl.transform.y as i128) + (step_y as i128),
        -POS_LIMIT_MICRO,
        POS_LIMIT_MICRO,
    );
    ctrl.transform.z = clamp_i128(
        (ctrl.transform.z as i128) + (step_z as i128),
        -POS_LIMIT_MICRO,
        POS_LIMIT_MICRO,
    );
}

/// One normalized component: the velocity component scaled to micro-units
/// and divided by the vector's length.
fn div_small(c: i64, s: u64) -> (r: i64)
    requires
        1 <= s <= 4_000_000,
        -(s as i64) <= c <= (s as i64),
    ensures
        r as int == div_trunc(c as int * (MICRO as int), s as int),
        -MICRO <= r <= MICRO,
{
    proof {
        lemma_mul_bound(c as int, MICRO as int, s as int, MICRO as int);
    }
    let scaled: i128 = (c as i128) * (MICRO as i128);
    let q: i128 = div_trunc_i128(scaled, s as i128);
    proof {
        lemma_div_trunc_bound(scaled as int, s as int, MICRO as int);
    }
    q as i64
}

/// One displacement component: direction times speed times delta time,
/// rescaled back into micro-units.
fn scale_step(d: i64, speed: i64, dt: i64) -> (r: i64)
    requires
        -MICRO <= d <= MICRO,
        0 <= speed <= 1_000_000_000,
        0 <= dt <= 1_000_000_000,
    ensures
        r as int == div_trunc(d as int * (speed as int) * (dt as int), MICRO_SQ as int),
        -MICRO_SQ <= r <= MICRO_SQ,
{
    proof {
        lemma_mul_bound(d as int, speed as int, MICRO as int, 1_000_000_000);
        lemma_mul_bound(
            (d as int) * (speed as int),
            dt as int,
            (MICRO as int) * 1_000_000_000,
            1_000_000_000,
        );
        lemma_div_trunc_bound(
            (d as int) * (speed as int) * (dt as int),
            MICRO_SQ as int,
            MICRO_SQ as int,
        );
        lemma_mul_bound(MICRO_SQ as int, MICRO_SQ as int, MICRO_SQ as int, MICRO_SQ as int);
    }
    let p: i128 = (d as i128) * (speed as i128) * (dt as i128);
    let q: i128 = div_trunc_i128(p, MICRO_SQ as i128);
    q as i64
}

} // verus!
