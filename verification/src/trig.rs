//! Fixed-point trigonometry in degrees.
//!
//! Angles are fixed-point degrees (`SCALE` units per degree).  An angle is
//! first wrapped into [0, 360), then folded onto the first quadrant, converted
//! to fixed-point radians, and evaluated by a truncated alternating series.
//! The specs `sin_deg` and `cos_deg` state that pipeline exactly; the
//! executable functions compute it and nothing else.

use vstd::prelude::*;

use crate::fixed::SCALE;
use crate::fixed::abs_i;
use crate::fixed::div_trunc;

verus! {

/// One full turn, half turn, and quarter turn in fixed-point degrees.
pub const DEG_FULL: i64 = 360_000_000;

pub const DEG_HALF: i64 = 180_000_000;

pub const DEG_QUARTER: i64 = 90_000_000;

/// The circle constant in fixed-point units.
pub const PI_FX: i64 = 3_141_593;

/// Angle wrapped into [0, 360) degrees: the Euclidean remainder.
pub open spec fn wrap_deg(d: int) -> int {
    d % (DEG_FULL as int)
}

/// Degrees to fixed-point radians, truncating toward zero.
pub open spec fn rad_spec(d: int) -> int {
    div_trunc(d * PI_FX, DEG_HALF as int)
}

/// Truncated sine series on a first-quadrant angle `x` in fixed-point
/// radians; every intermediate stays nonnegative, so `/` truncates downward.
pub open spec fn sin_q(x: int) -> int {
    let s = SCALE as int;
    let x2 = (x * x) / s;
    let x3 = (x2 * x) / s;
    let x5 = (x3 * x2) / s;
    let x7 = (x5 * x2) / s;
    let x9 = (x7 * x2) / s;
    x - x3 / 6 + x5 / 120 - x7 / 5040 + x9 / 362880
}

/// Truncated cosine series on a first-quadrant angle `x` in fixed-point
/// radians.
pub open spec fn cos_q(x: int) -> int {
    let s = SCALE as int;
    let x2 = (x * x) / s;
    let x4 = (x2 * x2) / s;
    let x6 = (x4 * x2) / s;
    let x8 = (x6 * x2) / s;
    s - x2 / 2 + x4 / 24 - x6 / 720 + x8 / 40320
}

/// Sine of a fixed-point angle in degrees: quadrant folding over `sin_q`.
pub open spec fn sin_deg(d: int) -> int {
    let a = wrap_deg(d);
    if a < DEG_QUARTER {
        sin_q(rad_spec(a))
    } else if a < DEG_HALF {
        sin_q(rad_spec(DEG_HALF - a))
    } else if a < DEG_HALF + DEG_QUARTER {
        -sin_q(rad_spec(a - DEG_HALF))
    } else {
        -sin_q(rad_spec(DEG_FULL - a))
    }
}

/// Cosine of a fixed-point angle in degrees: quadrant folding over `cos_q`.
pub open spec fn cos_deg(d: int) -> int {
    let a = wrap_deg(d);
    if a < DEG_QUARTER {
        cos_q(rad_spec(a))
    } else if a < DEG_HALF {
        -cos_q(rad_spec(DEG_HALF - a))
    } else if a < DEG_HALF + DEG_QUARTER {
        -cos_q(rad_spec(a - DEG_HALF))
    } else {
        cos_q(rad_spec(DEG_FULL - a))
    }
}

/// Degrees to radians, both in fixed point.
pub fn rad(angle_degrees: i64) -> (r: i64)
    requires
        abs_i(angle_degrees as int) <= 2_000_000_000_000,
    ensures
        r == rad_spec(angle_degrees as int),
{
    proof {
        crate::fixed::lemma_abs_mul(angle_degrees as int, PI_FX as int);
        assert(abs_i(angle_degrees as int) * (PI_FX as int) <= 2_000_000_000_000i64 * 3_141_593);
    }
    (angle_degrees * PI_FX) / DEG_HALF
}

/// Wrap an angle into [0, 360) fixed-point degrees.
fn wrap_angle(d: i64) -> (a: i64)
    ensures
        a == wrap_deg(d as int),
        0 <= a < DEG_FULL,
{
    let t = d % DEG_FULL;
    if t < 0 {
        proof {
            lemma_wrap_negative(d as int, t as int);
        }
        t + DEG_FULL
    } else {
        proof {
            lemma_wrap_nonnegative(d as int, t as int);
        }
        t
    }
}

/// Evaluate the sine series on a first-quadrant angle in fixed-point radians.
fn sin_quarter(x: i64) -> (r: i64)
    requires
        0 <= x <= 1_600_000,
    ensures
        r == sin_q(x as int),
        abs_i(r as int) <= 2 * SCALE,
{
    proof {
        assert(x * x <= 2_560_000 * 1_000_000) by (nonlinear_arith)
            requires
                0 <= x <= 1_600_000,
        ;
        crate::fixed::lemma_div_bound_nonneg(x * x, 1_000_000, 2_560_000);
    }
    let x2: i64 = (x * x) / SCALE;
    proof {
        assert(x2 * x <= 4_096_000 * 1_000_000) by (nonlinear_arith)
            requires
                0 <= x2 <= 2_560_000,
                0 <= x <= 1_600_000,
        ;
        crate::fixed::lemma_div_bound_nonneg(x2 * x, 1_000_000, 4_096_000);
    }
    let x3: i64 = (x2 * x) / SCALE;
    proof {
        assert(x3 * x2 <= 10_486_000 * 1_000_000) by (nonlinear_arith)
            requires
                0 <= x3 <= 4_096_000,
                0 <= x2 <= 2_560_000,
        ;
        crate::fixed::lemma_div_bound_nonneg(x3 * x2, 1_000_000, 10_486_000);
    }
    let x5: i64 = (x3 * x2) / SCALE;
    proof {
        assert(x5 * x2 <= 26_844_160 * 1_000_000) by (nonlinear_arith)
            requires
                0 <= x5 <= 10_486_000,
                0 <= x2 <= 2_560_000,
        ;
        crate::fixed::lemma_div_bound_nonneg(x5 * x2, 1_000_000, 26_844_160);
    }
    let x7: i64 = (x5 * x2) / SCALE;
    proof {
        assert(x7 * x2 <= 68_721_050 * 1_000_000) by (nonlinear_arith)
            requires
                0 <= x7 <= 26_844_160,
                0 <= x2 <= 2_560_000,
        ;
        crate::fixed::lemma_div_bound_nonneg(x7 * x2, 1_000_000, 68_721_050);
    }
    let x9: i64 = (x7 * x2) / SCALE;
    proof {
        crate::fixed::lemma_div_bound_nonneg(x3 as int, 6, 682_667);
        crate::fixed::lemma_div_bound_nonneg(x5 as int, 120, 87_384);
        crate::fixed::lemma_div_bound_nonneg(x7 as int, 5040, 5_327);
        crate::fixed::lemma_div_bound_nonneg(x9 as int, 362880, 190);
    }
    x - x3 / 6 + x5 / 120 - x7 / 5040 + x9 / 362880
}

/// Evaluate the cosine series on a first-quadrant angle in fixed-point
/// radians.
fn cos_quarter(x: i64) -> (r: i64)
    requires
        0 <= x <= 1_600_000,
    ensures
        r == cos_q(x as int),
        abs_i(r as int) <= 2 * SCALE,
{
    proof {
        assert(x * x <= 2_560_000 * 1_000_000) by (nonlinear_arith)
            requires
                0 <= x <= 1_600_000,
        ;
        crate::fixed::lemma_div_bound_nonneg(x * x, 1_000_000, 2_560_000);
    }
    let x2: i64 = (x * x) / SCALE;
    proof {
        assert(x2 * x2 <= 6_553_600 * 1_000_000) by (nonlinear_arith)
            requires
                0 <= x2 <= 2_560_000,
        ;
        crate::fixed::lemma_div_bound_nonneg(x2 * x2, 1_000_000, 6_553_600);
    }
    let x4: i64 = (x2 * x2) / SCALE;
    proof {
        assert(x4 * x2 <= 16_777_216 * 1_000_000) by (nonlinear_arith)
            requires
                0 <= x4 <= 6_553_600,
                0 <= x2 <= 2_560_000,
        ;
        crate::fixed::lemma_div_bound_nonneg(x4 * x2, 1_000_000, 16_777_216);
    }
    let x6: i64 = (x4 * x2) / SCALE;
    proof {
        assert(x6 * x2 <= 42_949_673 * 1_000_000) by (nonlinear_arith)
            requires
                0 <= x6 <= 16_777_216,
                0 <= x2 <= 2_560_000,
        ;
        crate::fixed::lemma_div_bound_nonneg(x6 * x2, 1_000_000, 42_949_673);
    }
    let x8: i64 = (x6 * x2) / SCALE;
    proof {
        crate::fixed::lemma_div_bound_nonneg(x2 as int, 2, 1_280_000);
        crate::fixed::lemma_div_bound_nonneg(x4 as int, 24, 273_067);
        crate::fixed::lemma_div_bound_nonneg(x6 as int, 720, 23_302);
        crate::fixed::lemma_div_bound_nonneg(x8 as int, 40320, 1_066);
    }
    SCALE - x2 / 2 + x4 / 24 - x6 / 720 + x8 / 40320
}

/// Sine of a fixed-point angle in degrees.
pub fn sin_fx(d: i64) -> (r: i64)
    ensures
        r == sin_deg(d as int),
        abs_i(r as int) <= 2 * SCALE,
{
    let a = wrap_angle(d);
    proof {
        lemma_quarter_rad_bounds();
    }
    if a < DEG_QUARTER {
        sin_quarter(rad(a))
    } else if a < DEG_HALF {
        sin_quarter(rad(DEG_HALF - a))
    } else if a < DEG_HALF + DEG_QUARTER {
        -sin_quarter(rad(a - DEG_HALF))
    } else {
        -sin_quarter(rad(DEG_FULL - a))
    }
}

/// Cosine of a fixed-point angle in degrees.
pub fn cos_fx(d: i64) -> (r: i64)
    ensures
        r == cos_deg(d as int),
        abs_i(r as int) <= 2 * SCALE,
{
    let a = wrap_angle(d);
    proof {
        lemma_quarter_rad_bounds();
    }
    if a < DEG_QUARTER {
        cos_quarter(rad(a))
    } else if a < DEG_HALF {
        -cos_quarter(rad(DEG_HALF - a))
    } else if a < DEG_HALF + DEG_QUARTER {
        -cos_quarter(rad(a - DEG_HALF))
    } else {
        cos_quarter(rad(DEG_FULL - a))
    }
}

/// A first-quadrant angle converts to at most a quarter turn of fixed-point
/// radians.
proof fn lemma_quarter_rad_bounds()
    ensures
        forall|a: int| 0 <= a <= DEG_QUARTER ==> 0 <= #[trigger] rad_spec(a) <= 1_570_797,
{
    assert forall|a: int| 0 <= a <= DEG_QUARTER implies 0 <= #[trigger] rad_spec(a)
        <= 1_570_797 by {
        assert(a * PI_FX <= 1_570_797 * 180_000_000) by (nonlinear_arith)
            requires
                0 <= a <= 90_000_000,
        ;
        assert(a * PI_FX >= 0) by (nonlinear_arith)
            requires
                a >= 0,
        ;
        crate::fixed::lemma_div_bound_nonneg(a * PI_FX, 180_000_000, 1_570_797);
    }
}

/// At angle zero the series collapse exactly: sine is zero and cosine is one
/// unit.
pub proof fn lemma_trig_at_zero()
    ensures
        sin_deg(0) == 0,
        cos_deg(0) == SCALE,
{
    let s = SCALE as int;
    vstd::arithmetic::div_mod::lemma_small_mod(0nat, 360_000_000nat);
    assert(wrap_deg(0) == 0);
    vstd::arithmetic::div_mod::lemma_div_of0(PI_FX as int);
    vstd::arithmetic::div_mod::lemma_div_of0(DEG_HALF as int);
    assert(rad_spec(0) == 0);
    vstd::arithmetic::div_mod::lemma_div_of0(s);
    vstd::arithmetic::div_mod::lemma_div_of0(6);
    vstd::arithmetic::div_mod::lemma_div_of0(120);
    vstd::arithmetic::div_mod::lemma_div_of0(5040);
    vstd::arithmetic::div_mod::lemma_div_of0(362880);
    assert(sin_q(0) == 0);
    vstd::arithmetic::div_mod::lemma_div_of0(2);
    vstd::arithmetic::div_mod::lemma_div_of0(24);
    vstd::arithmetic::div_mod::lemma_div_of0(720);
    vstd::arithmetic::div_mod::lemma_div_of0(40320);
    assert(cos_q(0) == s);
}

/// For a nonnegative truncated remainder, the Euclidean remainder is the same.
proof fn lemma_wrap_nonnegative(d: int, t: int)
    requires
        t == (if d >= 0 {
            d % (DEG_FULL as int)
        } else {
            -((-d) % (DEG_FULL as int))
        }),
        t >= 0,
    ensures
        t == wrap_deg(d),
        t < DEG_FULL,
{
    let c = DEG_FULL as int;
    if d >= 0 {
        vstd::arithmetic::div_mod::lemma_mod_bound(d, c);
    } else {
        vstd::arithmetic::div_mod::lemma_mod_bound(-d, c);
        assert((-d) % c == 0);
        vstd::arithmetic::div_mod::lemma_fundamental_div_mod(-d, c);
        let q = (-d) / c;
        assert(d == (-q) * c + 0) by (nonlinear_arith)
            requires
                -d == c * q,
        ;
        vstd::arithmetic::div_mod::lemma_fundamental_div_mod_converse(d, c, -q, 0);
    }
}

/// For a negative truncated remainder, adding one turn gives the Euclidean
/// remainder.
proof fn lemma_wrap_negative(d: int, t: int)
    requires
        t == (if d >= 0 {
            d % (DEG_FULL as int)
        } else {
            -((-d) % (DEG_FULL as int))
        }),
        t < 0,
    ensures
        t + DEG_FULL == wrap_deg(d),
        0 <= t + DEG_FULL < DEG_FULL,
{
    let c = DEG_FULL as int;
    if d >= 0 {
        vstd::arithmetic::div_mod::lemma_mod_bound(d, c);
    } else {
        vstd::arithmetic::div_mod::lemma_mod_bound(-d, c);
        vstd::arithmetic::div_mod::lemma_fundamental_div_mod(-d, c);
        let q = (-d) / c;
        let r = (-d) % c;
        assert(r == -t && 0 < r < c);
        assert(d == (-q - 1) * c + (c - r)) by (nonlinear_arith)
            requires
                -d == c * q + r,
        ;
        vstd::arithmetic::div_mod::lemma_fundamental_div_mod_converse(d, c, -q - 1, c - r);
    }
}


/// Magnitude bound for the sine series on a quarter-turn argument.
proof fn lemma_sin_q_range(x: int)
    requires
        0 <= x <= 1_600_000,
    ensures
        abs_i(sin_q(x)) <= 2 * SCALE,
{
    let s = SCALE as int;
    let x2 = (x * x) / s;
    assert(x * x <= 2_560_000 * 1_000_000) by (nonlinear_arith)
        requires
            0 <= x <= 1_600_000,
    ;
    crate::fixed::lemma_div_bound_nonneg(x * x, s, 2_560_000);
    let x3 = (x2 * x) / s;
    assert(x2 * x <= 4_096_000 * 1_000_000) by (nonlinear_arith)
        requires
            0 <= x2 <= 2_560_000,
            0 <= x <= 1_600_000,
    ;
    crate::fixed::lemma_div_bound_nonneg(x2 * x, s, 4_096_000);
    let x5 = (x3 * x2) / s;
    assert(x3 * x2 <= 10_486_000 * 1_000_000) by (nonlinear_arith)
        requires
            0 <= x3 <= 4_096_000,
            0 <= x2 <= 2_560_000,
    ;
    crate::fixed::lemma_div_bound_nonneg(x3 * x2, s, 10_486_000);
    let x7 = (x5 * x2) / s;
    assert(x5 * x2 <= 26_844_160 * 1_000_000) by (nonlinear_arith)
        requires
            0 <= x5 <= 10_486_000,
            0 <= x2 <= 2_560_000,
    ;
    crate::fixed::lemma_div_bound_nonneg(x5 * x2, s, 26_844_160);
    let x9 = (x7 * x2) / s;
    assert(x7 * x2 <= 68_721_050 * 1_000_000) by (nonlinear_arith)
        requires
            0 <= x7 <= 26_844_160,
            0 <= x2 <= 2_560_000,
    ;
    crate::fixed::lemma_div_bound_nonneg(x7 * x2, s, 68_721_050);
    crate::fixed::lemma_div_bound_nonneg(x3, 6, 682_667);
    crate::fixed::lemma_div_bound_nonneg(x5, 120, 87_384);
    crate::fixed::lemma_div_bound_nonneg(x7, 5040, 5_327);
    crate::fixed::lemma_div_bound_nonneg(x9, 362880, 190);
}

/// Magnitude bound for the cosine series on a quarter-turn argument.
proof fn lemma_cos_q_range(x: int)
    requires
        0 <= x <= 1_600_000,
    ensures
        abs_i(cos_q(x)) <= 2 * SCALE,
{
    let s = SCALE as int;
    let x2 = (x * x) / s;
    assert(x * x <= 2_560_000 * 1_000_000) by (nonlinear_arith)
        requires
            0 <= x <= 1_600_000,
    ;
    crate::fixed::lemma_div_bound_nonneg(x * x, s, 2_560_000);
    let x4 = (x2 * x2) / s;
    assert(x2 * x2 <= 6_553_600 * 1_000_000) by (nonlinear_arith)
        requires
            0 <= x2 <= 2_560_000,
    ;
    crate::fixed::lemma_div_bound_nonneg(x2 * x2, s, 6_553_600);
    let x6 = (x4 * x2) / s;
    assert(x4 * x2 <= 16_777_216 * 1_000_000) by (nonlinear_arith)
        requires
            0 <= x4 <= 6_553_600,
            0 <= x2 <= 2_560_000,
    ;
    crate::fixed::lemma_div_bound_nonneg(x4 * x2, s, 16_777_216);
    let x8 = (x6 * x2) / s;
    assert(x6 * x2 <= 42_949_673 * 1_000_000) by (nonlinear_arith)
        requires
            0 <= x6 <= 16_777_216,
            0 <= x2 <= 2_560_000,
    ;
    crate::fixed::lemma_div_bound_nonneg(x6 * x2, s, 42_949_673);
    crate::fixed::lemma_div_bound_nonneg(x2, 2, 1_280_000);
    crate::fixed::lemma_div_bound_nonneg(x4, 24, 273_067);
    crate::fixed::lemma_div_bound_nonneg(x6, 720, 23_302);
    crate::fixed::lemma_div_bound_nonneg(x8, 40320, 1_066);
}

/// Both trigonometric values are within two units for every angle.
pub proof fn lemma_trig_range(d: int)
    ensures
        abs_i(sin_deg(d)) <= 2 * SCALE,
        abs_i(cos_deg(d)) <= 2 * SCALE,
{
    vstd::arithmetic::div_mod::lemma_mod_bound(d, DEG_FULL as int);
    let a = wrap_deg(d);
    lemma_quarter_rad_bounds();
    if a < DEG_QUARTER {
        lemma_sin_q_range(rad_spec(a));
        lemma_cos_q_range(rad_spec(a));
    } else if a < DEG_HALF {
        lemma_sin_q_range(rad_spec(DEG_HALF - a));
        lemma_cos_q_range(rad_spec(DEG_HALF - a));
    } else if a < DEG_HALF + DEG_QUARTER {
        lemma_sin_q_range(rad_spec(a - DEG_HALF));
        lemma_cos_q_range(rad_spec(a - DEG_HALF));
    } else {
        lemma_sin_q_range(rad_spec(DEG_FULL - a));
        lemma_cos_q_range(rad_spec(DEG_FULL - a));
    }
}


/// On a quarter-turn argument at least one of the two series is at least
/// three tenths of a unit: below one radian the cosine stays large, above it
/// the sine does.
proof fn lemma_quarter_not_both_small(x: int)
    requires
        0 <= x <= 1_570_797,
    ensures
        sin_q(x) >= 300_000 || cos_q(x) >= 300_000,
{
    let s = SCALE as int;
    let x2 = (x * x) / s;
    assert(x * x <= 2_560_000 * 1_000_000) by (nonlinear_arith)
        requires
            0 <= x <= 1_600_000,
    ;
    crate::fixed::lemma_div_bound_nonneg(x * x, s, 2_560_000);
    if x <= 1_000_000 {
        assert(x * x <= 1_000_000 * 1_000_000) by (nonlinear_arith)
            requires
                0 <= x <= 1_000_000,
        ;
        crate::fixed::lemma_div_bound_nonneg(x * x, s, 1_000_000);
        let x4 = (x2 * x2) / s;
        assert(x2 * x2 <= 1_000_000 * 1_000_000) by (nonlinear_arith)
            requires
                0 <= x2 <= 1_000_000,
        ;
        crate::fixed::lemma_div_bound_nonneg(x2 * x2, s, 1_000_000);
        let x6 = (x4 * x2) / s;
        assert(x4 * x2 <= 1_000_000 * 1_000_000) by (nonlinear_arith)
            requires
                0 <= x4 <= 1_000_000,
                0 <= x2 <= 1_000_000,
        ;
        crate::fixed::lemma_div_bound_nonneg(x4 * x2, s, 1_000_000);
        let x8 = (x6 * x2) / s;
        assert(x6 * x2 <= 1_000_000 * 1_000_000) by (nonlinear_arith)
            requires
                0 <= x6 <= 1_000_000,
                0 <= x2 <= 1_000_000,
        ;
        crate::fixed::lemma_div_bound_nonneg(x6 * x2, s, 1_000_000);
        crate::fixed::lemma_div_bound_nonneg(x2, 2, 500_000);
        vstd::arithmetic::div_mod::lemma_div_pos_is_pos(x4, 24);
        crate::fixed::lemma_div_bound_nonneg(x6, 720, 1_389);
        vstd::arithmetic::div_mod::lemma_div_pos_is_pos(x8, 40320);
        assert(cos_q(x) >= 300_000);
    } else {
        let x3 = (x2 * x) / s;
        assert(x2 * x <= 4_096_000 * 1_000_000) by (nonlinear_arith)
            requires
                0 <= x2 <= 2_560_000,
                0 <= x <= 1_600_000,
        ;
        crate::fixed::lemma_div_bound_nonneg(x2 * x, s, 4_096_000);
        let x5 = (x3 * x2) / s;
        assert(x3 * x2 <= 10_486_000 * 1_000_000) by (nonlinear_arith)
            requires
                0 <= x3 <= 4_096_000,
                0 <= x2 <= 2_560_000,
        ;
        crate::fixed::lemma_div_bound_nonneg(x3 * x2, s, 10_486_000);
        let x7 = (x5 * x2) / s;
        assert(x5 * x2 <= 26_844_160 * 1_000_000) by (nonlinear_arith)
            requires
                0 <= x5 <= 10_486_000,
                0 <= x2 <= 2_560_000,
        ;
        crate::fixed::lemma_div_bound_nonneg(x5 * x2, s, 26_844_160);
        let x9 = (x7 * x2) / s;
        assert(x7 * x2 <= 68_721_050 * 1_000_000) by (nonlinear_arith)
            requires
                0 <= x7 <= 26_844_160,
                0 <= x2 <= 2_560_000,
        ;
        crate::fixed::lemma_div_bound_nonneg(x7 * x2, s, 68_721_050);
        crate::fixed::lemma_div_bound_nonneg(x3, 6, 682_667);
        vstd::arithmetic::div_mod::lemma_div_pos_is_pos(x5, 120);
        crate::fixed::lemma_div_bound_nonneg(x7, 5040, 5_327);
        vstd::arithmetic::div_mod::lemma_div_pos_is_pos(x9, 362880);
        assert(sin_q(x) >= 300_000);
    }
}

/// For every angle at least one of sine and cosine is at least three tenths
/// of a unit in magnitude.
pub proof fn lemma_trig_not_both_small(d: int)
    ensures
        abs_i(sin_deg(d)) >= 300_000 || abs_i(cos_deg(d)) >= 300_000,
{
    vstd::arithmetic::div_mod::lemma_mod_bound(d, DEG_FULL as int);
    let a = wrap_deg(d);
    lemma_quarter_rad_bounds();
    if a < DEG_QUARTER {
        lemma_quarter_not_both_small(rad_spec(a));
    } else if a < DEG_HALF {
        lemma_quarter_not_both_small(rad_spec(DEG_HALF - a));
    } else if a < DEG_HALF + DEG_QUARTER {
        lemma_quarter_not_both_small(rad_spec(a - DEG_HALF));
    } else {
        lemma_quarter_not_both_small(rad_spec(DEG_FULL - a));
    }
}

} // verus!
