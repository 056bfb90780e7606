//! Fixed-point arithmetic shared by the controller routines.
//!
//! Every scalar of the controller is an integer count of millionths: one
//! world unit, one radian, one second each correspond to `MICRO` stored
//! units.  This module holds the primitive operations on those counts —
//! truncating division, Euclidean remainder, integer square root, angle
//! wrapping, clamping, degree-to-radian conversion — each as a spec function
//! together with a verified executable form.

use vstd::arithmetic::div_mod::lemma_fundamental_div_mod;
use vstd::arithmetic::div_mod::lemma_fundamental_div_mod_converse;
use vstd::prelude::*;

verus! {

/// Stored units per world unit, radian, or second.
pub const MICRO: i64 = 1_000_000;

/// `MICRO * MICRO`: the divisor that rescales a product of two micro-unit
/// quantities back into micro-units.
pub const MICRO_SQ: i64 = 1_000_000_000_000;

/// Pi in micro-radians, rounded to the nearest micro-radian.
pub const PI_MICRO: i64 = 3_141_593;

/// Two pi in micro-radians (`2 * PI_MICRO`): the modulus that keeps yaw
/// within `[-PI_MICRO, PI_MICRO)`.
pub const TAU_MICRO: i64 = 6_283_186;

/// The pitch clamp bound: 1.5 radians in micro-radians, just inside a right
/// angle so the view never reaches the gimbal singularity.
pub const PITCH_LIMIT_MICRO: i64 = 1_500_000;

/// Positions are clamped into `[-POS_LIMIT_MICRO, POS_LIMIT_MICRO]`
/// (a billion world units, far beyond any scene).
pub const POS_LIMIT_MICRO: i64 = 1_000_000_000_000_000;

/// Numerator of the degree-to-radian factor: `355/113` stands for pi, so a
/// micro-degree count times `355 / 20_340` is a micro-radian count.
pub const DEG_TO_RAD_NUM: i64 = 355;

/// Denominator of the degree-to-radian factor (`113 * 180`).
pub const DEG_TO_RAD_DEN: i64 = 20_340;

/// Division that rounds toward zero, the rounding of Rust's `/` operator,
/// defined for positive divisors.
pub open spec fn div_trunc(a: int, b: int) -> int {
    if a >= 0 {
        a / b
    } else {
        -((-a) / b)
    }
}

/// Clamp `x` into `[lo, hi]`.
pub open spec fn clamp_spec(x: int, lo: int, hi: int) -> int {
    if x < lo {
        lo
    } else if x > hi {
        hi
    } else {
        x
    }
}

/// Reduce an angle in micro-radians into `[-PI_MICRO, PI_MICRO)`.
pub open spec fn wrap_angle_spec(x: int) -> int {
    (x + PI_MICRO) % (TAU_MICRO as int) - PI_MICRO
}

/// Convert micro-degrees to micro-radians with the `355/113` stand-in for pi,
/// rounding toward zero.
pub open spec fn deg_to_rad_spec(d: int) -> int {
    div_trunc(d * DEG_TO_RAD_NUM, DEG_TO_RAD_DEN as int)
}

/// The integer square root: the largest `r` with `r * r <= n`.
pub open spec fn sqrt_floor(n: nat) -> nat
    decreases n,
{
    if n == 0 {
        0
    } else {
        let r = sqrt_floor((n - 1) as nat);
        if (r + 1) * (r + 1) <= n {
            r + 1
        } else {
            r
        }
    }
}

/// `sqrt_floor(n)` is the floor of the square root of `n`.
pub proof fn lemma_sqrt_floor_bounds(n: nat)
    ensures
        sqrt_floor(n) * sqrt_floor(n) <= n,
        n < (sqrt_floor(n) + 1) * (sqrt_floor(n) + 1),
    decreases n,
{
    if n == 0 {
        assert(sqrt_floor(0) == 0);
        assert(n < (sqrt_floor(n) + 1) * (sqrt_floor(n) + 1)) by (nonlinear_arith)
            requires
                n == 0,
                sqrt_floor(n) == 0,
        ;
    } else {
        lemma_sqrt_floor_bounds((n - 1) as nat);
        let r = sqrt_floor((n - 1) as nat);
        if (r + 1) * (r + 1) <= n {
            assert(sqrt_floor(n) == r + 1);
            assert(n < ((r + 1) + 1) * ((r + 1) + 1)) by (nonlinear_arith)
                requires
                    (n - 1) < (r + 1) * (r + 1),
            ;
        } else {
            assert(sqrt_floor(n) == r);
        }
    }
}

/// Any `r` whose square brackets `n` is the integer square root of `n`.
pub proof fn lemma_sqrt_floor_unique(n: nat, r: nat)
    requires
        r * r <= n,
        n < (r + 1) * (r + 1),
    ensures
        r == sqrt_floor(n),
{
    lemma_sqrt_floor_bounds(n);
    let s = sqrt_floor(n);
    assert(r == s) by (nonlinear_arith)
        requires
            r * r <= n,
            n < (r + 1) * (r + 1),
            s * s <= n,
            n < (s + 1) * (s + 1),
    ;
}

/// Binary search for the integer square root of a 64-bit value.
pub fn isqrt64(n: u64) -> (r: u64)
    ensures
        r == sqrt_floor(n as nat),
        r * r <= n,
{
    let mut lo: u64 = 0;
    let mut hi: u64 = 4_294_967_296;
    assert((hi as nat) * (hi as nat) > n as nat) by (nonlinear_arith)
        requires
            hi == 4_294_967_296u64,
            n <= u64::MAX,
    ;
    while lo + 1 < hi
        invariant
            lo < hi,
            hi <= 4_294_967_296,
            (lo as nat) * (lo as nat) <= n as nat,
            (hi as nat) * (hi as nat) > n as nat,
        decreases hi - lo,
    {
        let mid: u64 = lo + (hi - lo) / 2;
        proof {
            lemma_mul_bound(mid as int, mid as int, 0x1_0000_0000, 0x1_0000_0000);
        }
        if (mid as u128) * (mid as u128) <= n as u128 {
            lo = mid;
        } else {
            hi = mid;
        }
    }
    proof {
        lemma_sqrt_floor_unique(n as nat, lo as nat);
    }
    lo
}

/// Truncating division of a 128-bit value by a positive divisor.
pub fn div_trunc_i128(a: i128, b: i128) -> (q: i128)
    requires
        b > 0,
        a > i128::MIN,
    ensures
        q == div_trunc(a as int, b as int),
        -(if a as int >= 0 { a as int } else { -(a as int) }) <= q <= (if a as int >= 0 { a as int } else { -(a as int) }),
{
    if a >= 0 {
        let q: u128 = (a as u128) / (b as u128);
        assert(q <= a) by {
            lemma_fundamental_div_mod(a as int, b as int);
            assert((a as int) / (b as int) * (b as int) <= a as int && 0 <= (a as int) / (
            b as int)) by (nonlinear_arith)
                requires
                    b as int > 0,
                    a as int >= 0,
                    a as int == (b as int) * ((a as int) / (b as int)) + (a as int) % (b as int),
                    0 <= (a as int) % (b as int) < b as int,
            ;
        }
        q as i128
    } else {
        let m: i128 = -a;
        let q: u128 = (m as u128) / (b as u128);
        assert(q <= m) by {
            lemma_fundamental_div_mod(m as int, b as int);
            assert((m as int) / (b as int) * (b as int) <= m as int && 0 <= (m as int) / (
            b as int)) by (nonlinear_arith)
                requires
                    b as int > 0,
                    m as int >= 0,
                    m as int == (b as int) * ((m as int) / (b as int)) + (m as int) % (b as int),
                    0 <= (m as int) % (b as int) < b as int,
            ;
        }
        -(q as i128)
    }
}

/// Euclidean remainder of a 128-bit value by a positive divisor: the result
/// is in `[0, m)` whatever the sign of `a`.
pub fn mod_euclid_i128(a: i128, m: i128) -> (r: i128)
    requires
        m > 0,
        a > i128::MIN,
    ensures
        r == (a as int) % (m as int),
        0 <= r < m,
{
    if a >= 0 {
        let r: u128 = (a as u128) % (m as u128);
        proof {
            lemma_fundamental_div_mod(a as int, m as int);
        }
        r as i128
    } else {
        let n: i128 = -a;
        let rn: u128 = (n as u128) % (m as u128);
        proof {
            lemma_fundamental_div_mod(n as int, m as int);
        }
        if rn == 0 {
            proof {
                let q = (n as int) / (m as int);
                assert(a as int == (-q) * (m as int) + 0) by (nonlinear_arith)
                    requires
                        n as int == (m as int) * ((n as int) / (m as int)),
                        q == (n as int) / (m as int),
                        a as int == -(n as int),
                ;
                lemma_fundamental_div_mod_converse(a as int, m as int, -q, 0);
            }
            0
        } else {
            proof {
                let q = (n as int) / (m as int);
                let rr = (n as int) % (m as int);
                assert(a as int == (-q - 1) * (m as int) + ((m as int) - rr)) by (nonlinear_arith)
                    requires
                        n as int == (m as int) * q + rr,
                        a as int == -(n as int),
                ;
                lemma_fundamental_div_mod_converse(
                    a as int,
                    m as int,
                    -q - 1,
                    (m as int) - rr,
                );
            }
            m - (rn as i128)
        }
    }
}

/// Wrap an angle in micro-radians into `[-PI_MICRO, PI_MICRO)`.
pub fn wrap_angle(x: i128) -> (r: i64)
    requires
        -100_000_000_000_000_000_000_000_000_000_000_000 <= x
            <= 100_000_000_000_000_000_000_000_000_000_000_000,
    ensures
        r == wrap_angle_spec(x as int),
        -PI_MICRO <= r < PI_MICRO,
{
    let shifted: i128 = x + (PI_MICRO as i128);
    let m: i128 = mod_euclid_i128(shifted, TAU_MICRO as i128);
    (m - (PI_MICRO as i128)) as i64
}

/// Convert a micro-degree count to micro-radians, rounding toward zero.
pub fn deg_to_rad(d: i128) -> (r: i128)
    requires
        -100_000_000_000_000_000_000_000_000_000_000_000 <= d
            <= 100_000_000_000_000_000_000_000_000_000_000_000,
    ensures
        r == deg_to_rad_spec(d as int),
        -(if d as int >= 0 { d as int } else { -(d as int) }) <= r <= (if d as int >= 0 { d as int } else { -(d as int) }),
{
    proof {
        lemma_mul_bound(
            d as int,
            DEG_TO_RAD_NUM as int,
            100_000_000_000_000_000_000_000_000_000_000_000,
            DEG_TO_RAD_NUM as int,
        );
    }
    let n: i128 = d * (DEG_TO_RAD_NUM as i128);
    let q: i128 = div_trunc_i128(n, DEG_TO_RAD_DEN as i128);
    proof {
        let a = if d as int >= 0 { d as int } else { -(d as int) };
        lemma_mul_bound(d as int, DEG_TO_RAD_NUM as int, a, DEG_TO_RAD_NUM as int);
        lemma_div_trunc_bound(n as int, DEG_TO_RAD_DEN as int, a);
    }
    q
}

/// Clamp a 128-bit value into an `i64` interval.
pub fn clamp_i128(x: i128, lo: i64, hi: i64) -> (r: i64)
    requires
        lo <= hi,
    ensures
        r == clamp_spec(x as int, lo as int, hi as int),
{
    if x < lo as i128 {
        lo
    } else if x > hi as i128 {
        hi
    } else {
        x as i64
    }
}

/// The truncated quotient times the divisor lands within one divisor of the
/// dividend, on the zero side of it.
pub proof fn lemma_div_trunc_close(a: int, b: int)
    requires
        b > 0,
    ensures
        a >= 0 ==> 0 <= a - div_trunc(a, b) * b < b,
        a < 0 ==> -b < a - div_trunc(a, b) * b <= 0,
        a * (a - div_trunc(a, b) * b) >= 0,
        -(if a >= 0 { a } else { -a }) <= div_trunc(a, b) * b <= (if a >= 0 { a } else { -a }),
{
    if a >= 0 {
        lemma_fundamental_div_mod(a, b);
        assert(a - (a / b) * b == a % b) by (nonlinear_arith)
            requires
                a == b * (a / b) + a % b,
        ;
        assert(a * (a % b) >= 0) by (nonlinear_arith)
            requires
                a >= 0,
                0 <= a % b,
        ;
    } else {
        let n = -a;
        lemma_fundamental_div_mod(n, b);
        assert(a - div_trunc(a, b) * b == -(n % b)) by (nonlinear_arith)
            requires
                n == b * (n / b) + n % b,
                a == -n,
                div_trunc(a, b) == -(n / b),
        ;
        assert(a * (-(n % b)) >= 0) by (nonlinear_arith)
            requires
                a < 0,
                0 <= n % b,
        ;
    }
}

/// Bound the magnitude of a product by the product of magnitude bounds.
pub proof fn lemma_mul_bound(a: int, b: int, aa: int, bb: int)
    by (nonlinear_arith)
    requires
        -aa <= a <= aa,
        -bb <= b <= bb,
    ensures
        -(aa * bb) <= a * b <= aa * bb,
{
}

/// A square is never negative.
pub proof fn lemma_sq_nonneg(a: int)
    by (nonlinear_arith)
    ensures
        a * a >= 0,
{
}

/// A value whose square is below `c * c` lies strictly between `-c` and `c`.
pub proof fn lemma_abs_lt_of_sq_lt(a: int, c: int)
    by (nonlinear_arith)
    requires
        a * a < c * c,
        c > 0,
    ensures
        -c < a < c,
{
}

/// Dividing both sides of `q * b <= k * b` by a positive `b` keeps the order.
pub proof fn lemma_div_trunc_bound(a: int, b: int, k: int)
    requires
        b > 0,
        k >= 0,
        -(k * b) <= a <= k * b,
    ensures
        -k <= div_trunc(a, b) <= k,
{
    lemma_div_trunc_close(a, b);
    assert(-k <= div_trunc(a, b) <= k) by (nonlinear_arith)
        requires
            b > 0,
            k >= 0,
            -(k * b) <= a <= k * b,
            a >= 0 ==> 0 <= a - div_trunc(a, b) * b < b,
            a < 0 ==> -b < a - div_trunc(a, b) * b <= 0,
    ;
}

} // verus!
