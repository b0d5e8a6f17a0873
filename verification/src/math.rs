//! Three-component vectors and 4x4 matrices over fixed-point scalars.
//!
//! A component holds `SCALE` raw units per 1.0.  The cross product rescales
//! each of its six partial products, so chained operations stay on the same
//! scale; normalization divides by the integer square root of the squared
//! magnitude.  Normalizing the zero vector returns the zero vector: that is
//! this library's guard policy for the degenerate input.

use vstd::prelude::*;

use crate::fixed::SCALE;
use crate::fixed::abs_i;
use crate::fixed::div_trunc;
use crate::fixed::isqrt;
use crate::fixed::lemma_abs_mul;
use crate::fixed::lemma_div_trunc_rem;
use crate::fixed::lemma_div_trunc_small;
use crate::fixed::lemma_sqrt_floor;
use crate::fixed::mul_fx;
use crate::fixed::sqrt_floor;

verus! {

/// Largest component magnitude accepted by the vector operations; keeps every
/// intermediate product inside `i64`.
pub const COMP_LIMIT: i64 = 1_500_000_000;

#[derive(Clone, Copy, Debug, PartialEq, Eq, Structural)]
pub struct Vec3 {
    pub x: i64,
    pub y: i64,
    pub z: i64,
}

/// Dot product on raw components (no rescale).
pub open spec fn dot(a: Vec3, b: Vec3) -> int {
    a.x * b.x + a.y * b.y + a.z * b.z
}

/// Sum of the component magnitudes.
pub open spec fn abs_sum(v: Vec3) -> int {
    abs_i(v.x as int) + abs_i(v.y as int) + abs_i(v.z as int)
}

/// All three components within `b` in magnitude.
pub open spec fn comps_within(v: Vec3, b: int) -> bool {
    abs_i(v.x as int) <= b && abs_i(v.y as int) <= b && abs_i(v.z as int) <= b
}

/// Components of the fixed-point cross product: each partial product is
/// rescaled by `SCALE`, truncating toward zero.
pub open spec fn cross_x(a: Vec3, b: Vec3) -> int {
    div_trunc(a.y * b.z, SCALE as int) - div_trunc(a.z * b.y, SCALE as int)
}

pub open spec fn cross_y(a: Vec3, b: Vec3) -> int {
    div_trunc(a.z * b.x, SCALE as int) - div_trunc(a.x * b.z, SCALE as int)
}

pub open spec fn cross_z(a: Vec3, b: Vec3) -> int {
    div_trunc(a.x * b.y, SCALE as int) - div_trunc(a.y * b.x, SCALE as int)
}

/// Componentwise sum, as a vector (meaningful while the sums stay in range).
pub open spec fn vadd(a: Vec3, b: Vec3) -> Vec3 {
    Vec3 { x: (a.x + b.x) as i64, y: (a.y + b.y) as i64, z: (a.z + b.z) as i64 }
}

/// Componentwise difference, as a vector.
pub open spec fn vsub(a: Vec3, b: Vec3) -> Vec3 {
    Vec3 { x: (a.x - b.x) as i64, y: (a.y - b.y) as i64, z: (a.z - b.z) as i64 }
}

/// The fixed-point cross product, as a vector.
pub open spec fn cross_of(a: Vec3, b: Vec3) -> Vec3 {
    Vec3 { x: cross_x(a, b) as i64, y: cross_y(a, b) as i64, z: cross_z(a, b) as i64 }
}

/// The normalization of `v`, as a vector: zero stays zero, anything else is
/// scaled by `SCALE` over the integer square root of its squared magnitude.
pub open spec fn norm_of(v: Vec3) -> Vec3 {
    if dot(v, v) == 0 {
        Vec3 { x: 0, y: 0, z: 0 }
    } else {
        {
            let m = sqrt_floor(dot(v, v));
            Vec3 {
                x: div_trunc(v.x * SCALE, m) as i64,
                y: div_trunc(v.y * SCALE, m) as i64,
                z: div_trunc(v.z * SCALE, m) as i64,
            }
        }
    }
}

/// `v` scaled by the fixed-point factor `k`, as a vector.
pub open spec fn vscale(v: Vec3, k: int) -> Vec3 {
    Vec3 {
        x: div_trunc(v.x * k, SCALE as int) as i64,
        y: div_trunc(v.y * k, SCALE as int) as i64,
        z: div_trunc(v.z * k, SCALE as int) as i64,
    }
}

/// Fixed-point dot product: each product rescaled by `SCALE`.
pub open spec fn dot_fx(a: Vec3, b: Vec3) -> int {
    div_trunc(a.x * b.x, SCALE as int) + div_trunc(a.y * b.y, SCALE as int) + div_trunc(
        a.z * b.z,
        SCALE as int,
    )
}

/// `r` is the fixed-point cross product of `a` and `b`.
pub open spec fn is_cross(r: Vec3, a: Vec3, b: Vec3) -> bool {
    r.x == cross_x(a, b) && r.y == cross_y(a, b) && r.z == cross_z(a, b)
}

/// `r` is `v` scaled to unit magnitude (fixed-point), or zero if `v` is zero.
pub open spec fn is_normalized_of(r: Vec3, v: Vec3) -> bool {
    if dot(v, v) == 0 {
        r.x == 0 && r.y == 0 && r.z == 0
    } else {
        {
            let m = sqrt_floor(dot(v, v));
            r.x == div_trunc(v.x * SCALE, m) && r.y == div_trunc(v.y * SCALE, m) && r.z
                == div_trunc(v.z * SCALE, m)
        }
    }
}

impl Vec3 {
    pub fn new(x: i64, y: i64, z: i64) -> (r: Vec3)
        ensures
            r.x == x && r.y == y && r.z == z,
    {
        Vec3 { x, y, z }
    }

    /// Componentwise sum.
    pub fn add(&self, other: &Vec3) -> (r: Vec3)
        requires
            i64::MIN <= self.x + other.x <= i64::MAX,
            i64::MIN <= self.y + other.y <= i64::MAX,
            i64::MIN <= self.z + other.z <= i64::MAX,
        ensures
            r.x == self.x + other.x,
            r.y == self.y + other.y,
            r.z == self.z + other.z,
            r == vadd(*self, *other),
    {
        Vec3 { x: self.x + other.x, y: self.y + other.y, z: self.z + other.z }
    }

    /// Componentwise difference.
    pub fn sub(&self, other: &Vec3) -> (r: Vec3)
        requires
            i64::MIN <= self.x - other.x <= i64::MAX,
            i64::MIN <= self.y - other.y <= i64::MAX,
            i64::MIN <= self.z - other.z <= i64::MAX,
        ensures
            r.x == self.x - other.x,
            r.y == self.y - other.y,
            r.z == self.z - other.z,
            r == vsub(*self, *other),
    {
        Vec3 { x: self.x - other.x, y: self.y - other.y, z: self.z - other.z }
    }

    /// Scale by a fixed-point factor.
    pub fn mul(vec: &Vec3, val: i64) -> (r: Vec3)
        requires
            abs_i(vec.x as int) * abs_i(val as int) <= i64::MAX,
            abs_i(vec.y as int) * abs_i(val as int) <= i64::MAX,
            abs_i(vec.z as int) * abs_i(val as int) <= i64::MAX,
        ensures
            r.x == div_trunc(vec.x * val, SCALE as int),
            r.y == div_trunc(vec.y * val, SCALE as int),
            r.z == div_trunc(vec.z * val, SCALE as int),
            r == vscale(*vec, val as int),
            abs_i(r.x as int) * SCALE <= abs_i(vec.x as int) * abs_i(val as int),
            abs_i(r.y as int) * SCALE <= abs_i(vec.y as int) * abs_i(val as int),
            abs_i(r.z as int) * SCALE <= abs_i(vec.z as int) * abs_i(val as int),
    {
        Vec3 { x: mul_fx(vec.x, val), y: mul_fx(vec.y, val), z: mul_fx(vec.z, val) }
    }

    /// Right-handed cross product of `first` and `second`.
    pub fn cross(first: &Vec3, second: &Vec3) -> (r: Vec3)
        requires
            comps_within(*first, COMP_LIMIT as int),
            comps_within(*second, COMP_LIMIT as int),
        ensures
            is_cross(r, *first, *second),
            r == cross_of(*first, *second),
            comps_within(r, 4_500_000_000_000int),
    {
        proof {
            lemma_cross_products_bounded(*first, *second);
        }
        let px = mul_fx(first.y, second.z) - mul_fx(first.z, second.y);
        let py = mul_fx(first.z, second.x) - mul_fx(first.x, second.z);
        let pz = mul_fx(first.x, second.y) - mul_fx(first.y, second.x);
        Vec3 { x: px, y: py, z: pz }
    }

    /// Scale to unit magnitude; the zero vector is returned unchanged.
    pub fn normalize(&self) -> (r: Vec3)
        requires
            comps_within(*self, COMP_LIMIT as int),
        ensures
            is_normalized_of(r, *self),
            r == norm_of(*self),
            comps_within(r, SCALE as int),
    {
        proof {
            lemma_norm_sq_bounded(*self);
        }
        let nsq: i64 = self.x * self.x + self.y * self.y + self.z * self.z;
        if nsq == 0 {
            proof {
                lemma_zero_norm_sq_means_zero(*self);
            }
            Vec3 { x: 0, y: 0, z: 0 }
        } else {
            let mr: u64 = isqrt(nsq as u64);
            proof {
                lemma_normalize_division_facts(*self, mr as int);
            }
            let m: i64 = mr as i64;
            Vec3 {
                x: (self.x * SCALE) / m,
                y: (self.y * SCALE) / m,
                z: (self.z * SCALE) / m,
            }
        }
    }
}

/// Law: the cross product reverses sign when its arguments swap,
/// component for component and exactly.
pub proof fn lemma_cross_antisymmetric(a: Vec3, b: Vec3, c1: Vec3, c2: Vec3)
    requires
        is_cross(c1, a, b),
        is_cross(c2, b, a),
    ensures
        c1.x == -c2.x,
        c1.y == -c2.y,
        c1.z == -c2.z,
{
    vstd::arithmetic::mul::lemma_mul_is_commutative(a.y as int, b.z as int);
    vstd::arithmetic::mul::lemma_mul_is_commutative(a.z as int, b.y as int);
    vstd::arithmetic::mul::lemma_mul_is_commutative(a.z as int, b.x as int);
    vstd::arithmetic::mul::lemma_mul_is_commutative(a.x as int, b.z as int);
    vstd::arithmetic::mul::lemma_mul_is_commutative(a.x as int, b.y as int);
    vstd::arithmetic::mul::lemma_mul_is_commutative(a.y as int, b.x as int);
}

/// Law: the cross product is orthogonal to both factors up to rounding.  Each
/// of its components carries a truncation error below one unit, so the raw
/// dot product with either factor is at most twice that factor's component
/// magnitudes; the exact real-valued cross product would give zero.
pub proof fn lemma_cross_orthogonal(a: Vec3, b: Vec3, c: Vec3)
    requires
        is_cross(c, a, b),
    ensures
        abs_i(dot(c, a)) <= 2 * abs_sum(a),
        abs_i(dot(c, b)) <= 2 * abs_sum(b),
{
    let s = SCALE as int;
    let p1 = a.y * b.z;
    let p2 = a.z * b.y;
    let p3 = a.z * b.x;
    let p4 = a.x * b.z;
    let p5 = a.x * b.y;
    let p6 = a.y * b.x;
    let t1 = div_trunc(p1, s);
    let t2 = div_trunc(p2, s);
    let t3 = div_trunc(p3, s);
    let t4 = div_trunc(p4, s);
    let t5 = div_trunc(p5, s);
    let t6 = div_trunc(p6, s);
    let r1 = p1 - s * t1;
    let r2 = p2 - s * t2;
    let r3 = p3 - s * t3;
    let r4 = p4 - s * t4;
    let r5 = p5 - s * t5;
    let r6 = p6 - s * t6;
    lemma_div_trunc_rem(p1, s);
    lemma_div_trunc_rem(p2, s);
    lemma_div_trunc_rem(p3, s);
    lemma_div_trunc_rem(p4, s);
    lemma_div_trunc_rem(p5, s);
    lemma_div_trunc_rem(p6, s);
    lemma_cross_dot_bound(
        s,
        a.x as int,
        a.y as int,
        a.z as int,
        b.x as int,
        b.y as int,
        b.z as int,
        t1,
        t2,
        t3,
        t4,
        t5,
        t6,
        r1,
        r2,
        r3,
        r4,
        r5,
        r6,
        dot(c, a),
        dot(c, b),
    );
}

/// Arithmetic core of `lemma_cross_orthogonal`, stated over plain integers:
/// the exact triple products cancel, so only the six rounding remainders are
/// left in the scaled dot product.
#[verifier::spinoff_prover]
proof fn lemma_cross_dot_bound(
    s: int,
    ax: int,
    ay: int,
    az: int,
    bx: int,
    by: int,
    bz: int,
    t1: int,
    t2: int,
    t3: int,
    t4: int,
    t5: int,
    t6: int,
    r1: int,
    r2: int,
    r3: int,
    r4: int,
    r5: int,
    r6: int,
    da: int,
    db: int,
)
    requires
        s >= 2,
        ay * bz == s * t1 + r1,
        az * by == s * t2 + r2,
        az * bx == s * t3 + r3,
        ax * bz == s * t4 + r4,
        ax * by == s * t5 + r5,
        ay * bx == s * t6 + r6,
        abs_i(r1) <= s - 1,
        abs_i(r2) <= s - 1,
        abs_i(r3) <= s - 1,
        abs_i(r4) <= s - 1,
        abs_i(r5) <= s - 1,
        abs_i(r6) <= s - 1,
        da == (t1 - t2) * ax + (t3 - t4) * ay + (t5 - t6) * az,
        db == (t1 - t2) * bx + (t3 - t4) * by + (t5 - t6) * bz,
    ensures
        abs_i(da) <= 2 * (abs_i(ax) + abs_i(ay) + abs_i(az)),
        abs_i(db) <= 2 * (abs_i(bx) + abs_i(by) + abs_i(bz)),
{
    let p1 = ay * bz;
    let p2 = az * by;
    let p3 = az * bx;
    let p4 = ax * bz;
    let p5 = ax * by;
    let p6 = ay * bx;
    assert(s * ((t1 - t2) * ax) == (p1 - p2) * ax + (r2 - r1) * ax) by (nonlinear_arith)
        requires
            p1 == s * t1 + r1,
            p2 == s * t2 + r2,
    ;
    assert(s * ((t3 - t4) * ay) == (p3 - p4) * ay + (r4 - r3) * ay) by (nonlinear_arith)
        requires
            p3 == s * t3 + r3,
            p4 == s * t4 + r4,
    ;
    assert(s * ((t5 - t6) * az) == (p5 - p6) * az + (r6 - r5) * az) by (nonlinear_arith)
        requires
            p5 == s * t5 + r5,
            p6 == s * t6 + r6,
    ;
    assert((p1 - p2) * ax + (p3 - p4) * ay + (p5 - p6) * az == 0) by (nonlinear_arith)
        requires
            p1 == ay * bz,
            p2 == az * by,
            p3 == az * bx,
            p4 == ax * bz,
            p5 == ax * by,
            p6 == ay * bx,
    ;
    assert(s * da == s * ((t1 - t2) * ax) + s * ((t3 - t4) * ay) + s * ((t5 - t6) * az))
        by (nonlinear_arith)
        requires
            da == (t1 - t2) * ax + (t3 - t4) * ay + (t5 - t6) * az,
    ;
    assert(s * da == (r2 - r1) * ax + (r4 - r3) * ay + (r6 - r5) * az);
    assert(s * ((t1 - t2) * bx) == (p1 - p2) * bx + (r2 - r1) * bx) by (nonlinear_arith)
        requires
            p1 == s * t1 + r1,
            p2 == s * t2 + r2,
    ;
    assert(s * ((t3 - t4) * by) == (p3 - p4) * by + (r4 - r3) * by) by (nonlinear_arith)
        requires
            p3 == s * t3 + r3,
            p4 == s * t4 + r4,
    ;
    assert(s * ((t5 - t6) * bz) == (p5 - p6) * bz + (r6 - r5) * bz) by (nonlinear_arith)
        requires
            p5 == s * t5 + r5,
            p6 == s * t6 + r6,
    ;
    assert((p1 - p2) * bx + (p3 - p4) * by + (p5 - p6) * bz == 0) by (nonlinear_arith)
        requires
            p1 == ay * bz,
            p2 == az * by,
            p3 == az * bx,
            p4 == ax * bz,
            p5 == ax * by,
            p6 == ay * bx,
    ;
    assert(s * db == s * ((t1 - t2) * bx) + s * ((t3 - t4) * by) + s * ((t5 - t6) * bz))
        by (nonlinear_arith)
        requires
            db == (t1 - t2) * bx + (t3 - t4) * by + (t5 - t6) * bz,
    ;
    assert(s * db == (r2 - r1) * bx + (r4 - r3) * by + (r6 - r5) * bz);
    lemma_remainder_combination(s, ax, ay, az, r2 - r1, r4 - r3, r6 - r5, da);
    lemma_remainder_combination(s, bx, by, bz, r2 - r1, r4 - r3, r6 - r5, db);
}

/// A combination of rounding remainders, each below `s` in magnitude, weighted
/// by three coefficients is at most twice the coefficients' magnitudes once
/// the scale `s` is divided back out.
proof fn lemma_remainder_combination(
    s: int,
    wx: int,
    wy: int,
    wz: int,
    e1: int,
    e2: int,
    e3: int,
    d: int,
)
    requires
        s >= 2,
        abs_i(e1) <= 2 * (s - 1),
        abs_i(e2) <= 2 * (s - 1),
        abs_i(e3) <= 2 * (s - 1),
        s * d == e1 * wx + e2 * wy + e3 * wz,
    ensures
        abs_i(d) <= 2 * (abs_i(wx) + abs_i(wy) + abs_i(wz)),
{
    assert(abs_i(e1 * wx) <= 2 * (s - 1) * abs_i(wx)) by (nonlinear_arith)
        requires
            abs_i(e1) <= 2 * (s - 1),
            s >= 2,
    ;
    assert(abs_i(e2 * wy) <= 2 * (s - 1) * abs_i(wy)) by (nonlinear_arith)
        requires
            abs_i(e2) <= 2 * (s - 1),
            s >= 2,
    ;
    assert(abs_i(e3 * wz) <= 2 * (s - 1) * abs_i(wz)) by (nonlinear_arith)
        requires
            abs_i(e3) <= 2 * (s - 1),
            s >= 2,
    ;
    let w = abs_i(wx) + abs_i(wy) + abs_i(wz);
    assert(abs_i(s * d) <= 2 * (s - 1) * abs_i(wx) + 2 * (s - 1) * abs_i(wy) + 2 * (s - 1) * abs_i(
        wz,
    ));
    assert(2 * (s - 1) * abs_i(wx) + 2 * (s - 1) * abs_i(wy) + 2 * (s - 1) * abs_i(wz) == 2 * (s
        - 1) * w) by (nonlinear_arith)
        requires
            w == abs_i(wx) + abs_i(wy) + abs_i(wz),
    ;
    assert(abs_i(s * d) == s * abs_i(d)) by (nonlinear_arith)
        requires
            s >= 2,
    ;
    assert(abs_i(d) <= 2 * w) by (nonlinear_arith)
        requires
            s * abs_i(d) <= 2 * (s - 1) * w,
            s >= 2,
            w >= 0,
            abs_i(d) >= 0,
    ;
}

/// Law: normalization yields unit magnitude up to rounding.  For any vector
/// of at least one sixteenth of a unit, the squared magnitude of the
/// normalized vector is within 48 rounding units of one (`SCALE * SCALE`).
/// Smaller vectors are excluded: their quotients are dominated by truncation.
pub proof fn lemma_normalize_unit(v: Vec3, r: Vec3)
    requires
        comps_within(v, COMP_LIMIT as int),
        dot(v, v) >= 3_906_250_000,
        is_normalized_of(r, v),
    ensures
        SCALE * SCALE - 6 * SCALE <= dot(r, r) <= SCALE * SCALE + 48 * SCALE,
{
    let s = SCALE as int;
    let n = dot(v, v);
    lemma_norm_sq_bounded(v);
    lemma_sqrt_floor(n);
    let m = sqrt_floor(n);
    assert(m >= 62_500) by {
        if m <= 62_499 {
            assert((m + 1) * (m + 1) <= 62_500 * 62_500) by (nonlinear_arith)
                requires
                    0 <= m <= 62_499,
            ;
        }
    }
    lemma_comp_le_sqrt(v.x as int, n, m);
    lemma_comp_le_sqrt(v.y as int, n, m);
    lemma_comp_le_sqrt(v.z as int, n, m);
    let ax = v.x * s;
    let ay = v.y * s;
    let az = v.z * s;
    lemma_scaled_quotient_sq(ax, m, r.x as int);
    lemma_scaled_quotient_sq(ay, m, r.y as int);
    lemma_scaled_quotient_sq(az, m, r.z as int);
    let x2 = r.x * r.x;
    let y2 = r.y * r.y;
    let z2 = r.z * r.z;
    assert((m * r.x) * (m * r.x) == (m * m) * x2) by (nonlinear_arith)
        requires
            x2 == r.x * r.x,
    ;
    assert((m * r.y) * (m * r.y) == (m * m) * y2) by (nonlinear_arith)
        requires
            y2 == r.y * r.y,
    ;
    assert((m * r.z) * (m * r.z) == (m * m) * z2) by (nonlinear_arith)
        requires
            z2 == r.z * r.z,
    ;
    assert(ax * ax == (v.x * v.x) * (s * s)) by (nonlinear_arith)
        requires
            ax == v.x * s,
    ;
    assert(ay * ay == (v.y * v.y) * (s * s)) by (nonlinear_arith)
        requires
            ay == v.y * s,
    ;
    assert(az * az == (v.z * v.z) * (s * s)) by (nonlinear_arith)
        requires
            az == v.z * s,
    ;
    assert((v.x * v.x) * (s * s) + (v.y * v.y) * (s * s) + (v.z * v.z) * (s * s) == n * (s * s))
        by (nonlinear_arith)
        requires
            n == v.x * v.x + v.y * v.y + v.z * v.z,
    ;
    let x = x2 + y2 + z2;
    assert((m * m) * x == (m * m) * x2 + (m * m) * y2 + (m * m) * z2) by (nonlinear_arith)
        requires
            x == x2 + y2 + z2,
    ;
    assert((m * m) * x <= n * (s * s));
    assert(x <= s * s + 48 * s) by (nonlinear_arith)
        requires
            (m * m) * x <= n * (s * s),
            n < (m + 1) * (m + 1),
            m >= 62_500,
            s == 1_000_000,
    ;
    assert(abs_i(ax) == abs_i(v.x as int) * s) by {
        lemma_abs_mul(v.x as int, s);
    }
    assert(abs_i(ay) == abs_i(v.y as int) * s) by {
        lemma_abs_mul(v.y as int, s);
    }
    assert(abs_i(az) == abs_i(v.z as int) * s) by {
        lemma_abs_mul(v.z as int, s);
    }
    assert(abs_i(v.x as int) * s + abs_i(v.y as int) * s + abs_i(v.z as int) * s <= 3 * (m * s))
        by (nonlinear_arith)
        requires
            abs_i(v.x as int) <= m,
            abs_i(v.y as int) <= m,
            abs_i(v.z as int) <= m,
            s >= 1,
    ;
    assert(2 * abs_i(ax) * m + 2 * abs_i(ay) * m + 2 * abs_i(az) * m <= 6 * ((m * s) * m))
        by (nonlinear_arith)
        requires
            abs_i(ax) + abs_i(ay) + abs_i(az) <= 3 * (m * s),
            abs_i(ax) >= 0,
            abs_i(ay) >= 0,
            abs_i(az) >= 0,
            m >= 1,
    ;
    assert((m * m) * x >= n * (s * s) - 6 * ((m * s) * m));
    assert(x >= s * s - 6 * s) by (nonlinear_arith)
        requires
            (m * m) * x >= n * (s * s) - 6 * ((m * s) * m),
            n >= m * m,
            m >= 1,
            s >= 1,
    ;
}

/// For a quotient `ri` of `ai` by a positive `m`, the square of `m * ri`
/// undershoots the square of `ai` by at most `2 * |ai| * m`.
proof fn lemma_scaled_quotient_sq(ai: int, m: int, ri: int)
    requires
        m >= 1,
        ri == div_trunc(ai, m),
    ensures
        (m * ri) * (m * ri) <= ai * ai,
        (m * ri) * (m * ri) >= ai * ai - 2 * abs_i(ai) * m,
{
    lemma_div_trunc_rem(ai, m);
    let q = m * ri;
    let e = ai - q;
    if ai >= 0 {
        assert(ri >= 0 && 0 <= e <= m - 1);
        assert(q >= 0) by (nonlinear_arith)
            requires
                q == m * ri,
                m >= 1,
                ri >= 0,
        ;
        assert(q * q <= ai * ai) by (nonlinear_arith)
            requires
                0 <= q <= ai,
        ;
        if ai >= m {
            assert(q * q >= ai * ai - 2 * ai * m) by (nonlinear_arith)
                requires
                    q > ai - m,
                    ai >= m,
                    q >= 0,
            ;
        } else {
            assert(q * q >= ai * ai - 2 * ai * m) by (nonlinear_arith)
                requires
                    0 <= ai < m,
                    q >= 0,
            ;
        }
    } else {
        assert(ri <= 0 && 1 - m <= e <= 0);
        assert(q <= 0) by (nonlinear_arith)
            requires
                q == m * ri,
                m >= 1,
                ri <= 0,
        ;
        let aa = -ai;
        let qq = -q;
        assert(0 <= qq <= aa);
        assert(qq * qq <= aa * aa) by (nonlinear_arith)
            requires
                0 <= qq <= aa,
        ;
        assert(q * q == qq * qq && ai * ai == aa * aa) by (nonlinear_arith)
            requires
                qq == -q,
                aa == -ai,
        ;
        if aa >= m {
            assert(qq * qq >= aa * aa - 2 * aa * m) by (nonlinear_arith)
                requires
                    qq > aa - m,
                    aa >= m,
                    qq >= 0,
            ;
        } else {
            assert(qq * qq >= aa * aa - 2 * aa * m) by (nonlinear_arith)
                requires
                    0 <= aa < m,
                    qq >= 0,
            ;
        }
    }
}

/// The functional normalization meets the relational characterization.
pub proof fn lemma_norm_of_is_normalized(v: Vec3)
    requires
        comps_within(v, COMP_LIMIT as int),
    ensures
        is_normalized_of(norm_of(v), v),
{
    lemma_norm_sq_bounded(v);
    if dot(v, v) != 0 {
        lemma_normalize_division_facts(v, sqrt_floor(dot(v, v)));
    }
}

/// The normalization of a bounded vector stays within one unit per
/// component.
pub proof fn lemma_norm_of_within(v: Vec3)
    requires
        comps_within(v, COMP_LIMIT as int),
    ensures
        comps_within(norm_of(v), SCALE as int),
{
    lemma_norm_sq_bounded(v);
    if dot(v, v) != 0 {
        lemma_normalize_division_facts(v, sqrt_floor(dot(v, v)));
    }
}

/// The six partial products of a bounded cross product fit in `i64`.
proof fn lemma_cross_products_bounded(a: Vec3, b: Vec3)
    requires
        comps_within(a, COMP_LIMIT as int),
        comps_within(b, COMP_LIMIT as int),
    ensures
        abs_i(a.y as int) * abs_i(b.z as int) <= 2_250_000_000_000_000_000int,
        abs_i(a.z as int) * abs_i(b.y as int) <= 2_250_000_000_000_000_000int,
        abs_i(a.z as int) * abs_i(b.x as int) <= 2_250_000_000_000_000_000int,
        abs_i(a.x as int) * abs_i(b.z as int) <= 2_250_000_000_000_000_000int,
        abs_i(a.x as int) * abs_i(b.y as int) <= 2_250_000_000_000_000_000int,
        abs_i(a.y as int) * abs_i(b.x as int) <= 2_250_000_000_000_000_000int,
{
    assert forall|p: int, q: int|
        0 <= p <= COMP_LIMIT as int && 0 <= q <= COMP_LIMIT as int implies #[trigger] (p * q)
        <= 2_250_000_000_000_000_000int by {
        assert(p * q <= 2_250_000_000_000_000_000int) by (nonlinear_arith)
            requires
                0 <= p <= 1_500_000_000int,
                0 <= q <= 1_500_000_000int,
        ;
    }
}

/// The squared magnitude of a bounded vector fits in `i64` and is nonnegative.
proof fn lemma_norm_sq_bounded(v: Vec3)
    requires
        comps_within(v, COMP_LIMIT as int),
    ensures
        0 <= v.x * v.x + v.y * v.y + v.z * v.z <= 6_750_000_000_000_000_000int,
        v.x * v.x >= 0 && v.y * v.y >= 0 && v.z * v.z >= 0,
        dot(v, v) == v.x * v.x + v.y * v.y + v.z * v.z,
{
    assert forall|p: int| 0 <= abs_i(p) <= COMP_LIMIT as int implies 0 <= #[trigger] (p * p)
        <= 2_250_000_000_000_000_000int by {
        assert(0 <= p * p <= 2_250_000_000_000_000_000int) by (nonlinear_arith)
            requires
                abs_i(p) <= 1_500_000_000int,
        ;
    }
}

/// Zero squared magnitude forces every component to zero.
proof fn lemma_zero_norm_sq_means_zero(v: Vec3)
    requires
        v.x * v.x + v.y * v.y + v.z * v.z == 0,
    ensures
        v.x == 0 && v.y == 0 && v.z == 0,
{
    assert(v.x * v.x >= 0 && v.y * v.y >= 0 && v.z * v.z >= 0) by (nonlinear_arith);
    assert(v.x == 0) by (nonlinear_arith)
        requires
            v.x * v.x == 0,
    ;
    assert(v.y == 0) by (nonlinear_arith)
        requires
            v.y * v.y == 0,
    ;
    assert(v.z == 0) by (nonlinear_arith)
        requires
            v.z * v.z == 0,
    ;
}

/// Division facts used by `normalize`: the divisor is positive, each scaled
/// component fits in `i64`, and each quotient stays within one unit.
proof fn lemma_normalize_division_facts(v: Vec3, m: int)
    requires
        comps_within(v, COMP_LIMIT as int),
        dot(v, v) > 0,
        m == sqrt_floor(dot(v, v)),
    ensures
        1 <= m <= 3_000_000_000int,
        abs_i(v.x * SCALE) <= i64::MAX,
        abs_i(v.y * SCALE) <= i64::MAX,
        abs_i(v.z * SCALE) <= i64::MAX,
        abs_i(div_trunc(v.x * SCALE, m)) <= SCALE as int,
        abs_i(div_trunc(v.y * SCALE, m)) <= SCALE as int,
        abs_i(div_trunc(v.z * SCALE, m)) <= SCALE as int,
{
    lemma_norm_sq_bounded(v);
    lemma_sqrt_floor(dot(v, v));
    assert(m >= 1) by {
        if m == 0 {
            assert(dot(v, v) < (0 + 1) * (0 + 1));
        }
    }
    assert(m <= 3_000_000_000int) by {
        if m > 3_000_000_000int {
            assert(m * m > 6_750_000_000_000_000_000int) by (nonlinear_arith)
                requires
                    m > 3_000_000_000int,
            ;
        }
    }
    lemma_comp_le_sqrt(v.x as int, dot(v, v), m);
    lemma_comp_le_sqrt(v.y as int, dot(v, v), m);
    lemma_comp_le_sqrt(v.z as int, dot(v, v), m);
    lemma_unit_quotient(v.x as int, m);
    lemma_unit_quotient(v.y as int, m);
    lemma_unit_quotient(v.z as int, m);
}

/// A component's magnitude never exceeds the integer square root of the
/// squared magnitude.
proof fn lemma_comp_le_sqrt(p: int, nsq: int, m: int)
    requires
        m >= 0,
        nsq < (m + 1) * (m + 1),
        p * p <= nsq,
    ensures
        abs_i(p) <= m,
{
    if abs_i(p) > m {
        assert(p * p >= (m + 1) * (m + 1)) by (nonlinear_arith)
            requires
                abs_i(p) >= m + 1,
                m >= 0,
        ;
    }
}

/// Dividing `p * SCALE` by `m >= |p|` stays within one unit.
proof fn lemma_unit_quotient(p: int, m: int)
    requires
        1 <= m,
        abs_i(p) <= m,
    ensures
        abs_i(p * SCALE) <= m * SCALE,
        abs_i(div_trunc(p * SCALE, m)) <= SCALE as int,
{
    lemma_abs_mul(p, SCALE as int);
    assert(abs_i(p) * SCALE <= m * SCALE) by (nonlinear_arith)
        requires
            abs_i(p) <= m,
    ;
    let q = div_trunc(p * SCALE, m);
    lemma_div_trunc_rem(p * SCALE, m);
    assert(abs_i(q) <= SCALE as int) by {
        if abs_i(q) > SCALE as int {
            assert(abs_i(m * q) >= m * (SCALE as int + 1)) by (nonlinear_arith)
                requires
                    abs_i(q) >= SCALE as int + 1,
                    m >= 1,
        ;
            assert(abs_i(p * SCALE) >= abs_i(m * q) - abs_i(p * SCALE - m * q));
            assert(m * (SCALE as int + 1) - (m - 1) > m * SCALE) by (nonlinear_arith)
                requires
                    m >= 1,
            ;
        }
    }
}


/// Bound limit for `look_at` arguments: keeps the eye-target difference
/// inside the range the vector operations accept.
pub const LOOK_LIMIT: i64 = 750_000_000;

/// One `SCALE`-rescaled product, as `mul_fx` computes it.
pub open spec fn mul_fx_spec(a: int, b: int) -> int {
    div_trunc(a * b, SCALE as int)
}

/// The doubly rescaled product `t * a * b` of the rotation formula.
pub open spec fn rot_term(t: int, a: int, b: int) -> int {
    mul_fx_spec(mul_fx_spec(t, a), b)
}

/// `SCALE` minus the cosine: the `1 - cos` factor of the rotation formula.
pub open spec fn rot_t(angle: int) -> int {
    SCALE - crate::trig::cos_deg(angle)
}

/// Forward axis of a look-at view: the normalized eye-to-target offset,
/// pointing from the target toward the eye.
pub open spec fn look_dir(pos: Vec3, target: Vec3) -> Vec3 {
    norm_of(vsub(pos, target))
}

/// Right axis of a look-at view: world up crossed with the forward axis, then
/// normalized.  The operand order fixes the sign and is part of the contract.
pub open spec fn look_right(pos: Vec3, target: Vec3, world_up: Vec3) -> Vec3 {
    norm_of(cross_of(world_up, look_dir(pos, target)))
}

/// Up axis of a look-at view: forward crossed with right, normalized.
pub open spec fn look_up_vec(pos: Vec3, target: Vec3, world_up: Vec3) -> Vec3 {
    norm_of(cross_of(look_dir(pos, target), look_right(pos, target, world_up)))
}

/// Column-major 4x4 matrix of fixed-point values.
pub struct Mat4 {
    pub mat: [i64; 16],
}

impl Mat4 {
    /// Uniform-scale matrix: `value` on the three scale slots, one unit in
    /// the homogeneous corner, zero elsewhere.
    pub fn new(value: i64) -> (r: Mat4)
        ensures
            r.mat@.len() == 16,
            r.mat@[0] == value && r.mat@[5] == value && r.mat@[10] == value,
            r.mat@[15] == SCALE,
            forall|i: int|
                0 <= i < 16 && i != 0 && i != 5 && i != 10 && i != 15 ==> r.mat@[i] == 0,
    {
        Mat4 {
            mat: [value, 0, 0, 0, 0, value, 0, 0, 0, 0, value, 0, 0, 0, 0, SCALE],
        }
    }

    /// Overwrite the translation column with `vec`.
    pub fn translate(&mut self, vec: Vec3)
        ensures
            final(self).mat@.len() == 16,
            final(self).mat@[12] == vec.x,
            final(self).mat@[13] == vec.y,
            final(self).mat@[14] == vec.z,
            forall|i: int|
                0 <= i < 16 && i != 12 && i != 13 && i != 14 ==> final(self).mat@[i]
                    == old(self).mat@[i],
    {
        self.mat[12] = vec.x;
        self.mat[13] = vec.y;
        self.mat[14] = vec.z;
    }

    /// Build the Rodrigues rotation block for `axis_normalized` and
    /// `angle_degrees` into the upper-left 3x3 entries.  The caller must
    /// normalize the axis first; a non-unit axis yields a scaling transform,
    /// which is accepted.  A zero angle writes the identity block exactly.
    pub fn rotate(&mut self, axis_normalized: Vec3, angle_degrees: i64)
        requires
            comps_within(axis_normalized, COMP_LIMIT as int),
        ensures
            final(self).mat@.len() == 16,
            final(self).mat@[0] == rot_term(
                rot_t(angle_degrees as int),
                axis_normalized.x as int,
                axis_normalized.x as int,
            ) + crate::trig::cos_deg(angle_degrees as int),
            final(self).mat@[1] == rot_term(
                rot_t(angle_degrees as int),
                axis_normalized.x as int,
                axis_normalized.y as int,
            ) + mul_fx_spec(crate::trig::sin_deg(angle_degrees as int), axis_normalized.z as int),
            final(self).mat@[2] == rot_term(
                rot_t(angle_degrees as int),
                axis_normalized.x as int,
                axis_normalized.z as int,
            ) - mul_fx_spec(crate::trig::sin_deg(angle_degrees as int), axis_normalized.y as int),
            final(self).mat@[4] == rot_term(
                rot_t(angle_degrees as int),
                axis_normalized.x as int,
                axis_normalized.y as int,
            ) - mul_fx_spec(crate::trig::sin_deg(angle_degrees as int), axis_normalized.z as int),
            final(self).mat@[5] == rot_term(
                rot_t(angle_degrees as int),
                axis_normalized.y as int,
                axis_normalized.y as int,
            ) + crate::trig::cos_deg(angle_degrees as int),
            final(self).mat@[6] == rot_term(
                rot_t(angle_degrees as int),
                axis_normalized.y as int,
                axis_normalized.z as int,
            ) + mul_fx_spec(crate::trig::sin_deg(angle_degrees as int), axis_normalized.x as int),
            final(self).mat@[8] == rot_term(
                rot_t(angle_degrees as int),
                axis_normalized.x as int,
                axis_normalized.z as int,
            ) + mul_fx_spec(crate::trig::sin_deg(angle_degrees as int), axis_normalized.y as int),
            final(self).mat@[9] == rot_term(
                rot_t(angle_degrees as int),
                axis_normalized.y as int,
                axis_normalized.z as int,
            ) - mul_fx_spec(crate::trig::sin_deg(angle_degrees as int), axis_normalized.x as int),
            final(self).mat@[10] == rot_term(
                rot_t(angle_degrees as int),
                axis_normalized.z as int,
                axis_normalized.z as int,
            ) + crate::trig::cos_deg(angle_degrees as int),
            forall|i: int|
                0 <= i < 16 && i != 0 && i != 1 && i != 2 && i != 4 && i != 5 && i != 6 && i != 8
                    && i != 9 && i != 10 ==> final(self).mat@[i] == old(self).mat@[i],
            angle_degrees == 0 ==> final(self).mat@[0] == SCALE && final(self).mat@[5] == SCALE
                && final(self).mat@[10] == SCALE && final(self).mat@[1] == 0
                && final(self).mat@[2] == 0 && final(self).mat@[4] == 0
                && final(self).mat@[6] == 0 && final(self).mat@[8] == 0
                && final(self).mat@[9] == 0,
    {
        let c = crate::trig::cos_fx(angle_degrees);
        let s = crate::trig::sin_fx(angle_degrees);
        let t = SCALE - c;
        let x = axis_normalized.x;
        let y = axis_normalized.y;
        let z = axis_normalized.z;
        proof {
            lemma_sin_products_fit(s as int, x as int, y as int, z as int);
        }
        self.mat[0] = rot_term_exec(t, x, x) + c;
        self.mat[1] = rot_term_exec(t, x, y) + mul_fx(s, z);
        self.mat[2] = rot_term_exec(t, x, z) - mul_fx(s, y);
        self.mat[4] = rot_term_exec(t, x, y) - mul_fx(s, z);
        self.mat[5] = rot_term_exec(t, y, y) + c;
        self.mat[6] = rot_term_exec(t, y, z) + mul_fx(s, x);
        self.mat[8] = rot_term_exec(t, x, z) + mul_fx(s, y);
        self.mat[9] = rot_term_exec(t, y, z) - mul_fx(s, x);
        self.mat[10] = rot_term_exec(t, z, z) + c;
        proof {
            if angle_degrees == 0 {
                lemma_rotate_zero_angle(axis_normalized);
            }
        }
    }

    /// Build a right-handed view matrix from the eye position, a target, and
    /// a world-up hint: the three axes fill the rotation rows and the
    /// translation column holds the eye expressed in that basis, negated.
    pub fn look_at(&mut self, pos: &Vec3, target: &Vec3, world_up: &Vec3)
        requires
            comps_within(*pos, LOOK_LIMIT as int),
            comps_within(*target, LOOK_LIMIT as int),
            comps_within(*world_up, LOOK_LIMIT as int),
        ensures
            final(self).mat@.len() == 16,
            final(self).mat@[0] == look_right(*pos, *target, *world_up).x,
            final(self).mat@[4] == look_right(*pos, *target, *world_up).y,
            final(self).mat@[8] == look_right(*pos, *target, *world_up).z,
            final(self).mat@[1] == look_up_vec(*pos, *target, *world_up).x,
            final(self).mat@[5] == look_up_vec(*pos, *target, *world_up).y,
            final(self).mat@[9] == look_up_vec(*pos, *target, *world_up).z,
            final(self).mat@[2] == look_dir(*pos, *target).x,
            final(self).mat@[6] == look_dir(*pos, *target).y,
            final(self).mat@[10] == look_dir(*pos, *target).z,
            final(self).mat@[12] == -dot_fx(look_right(*pos, *target, *world_up), *pos),
            final(self).mat@[13] == -dot_fx(look_up_vec(*pos, *target, *world_up), *pos),
            final(self).mat@[14] == -dot_fx(look_dir(*pos, *target), *pos),
            forall|i: int|
                0 <= i < 16 && i != 0 && i != 1 && i != 2 && i != 4 && i != 5 && i != 6 && i != 8
                    && i != 9 && i != 10 && i != 12 && i != 13 && i != 14 ==> final(self).mat@[i]
                    == old(self).mat@[i],
    {
        let diff = pos.sub(target);
        let dir = diff.normalize();
        proof {
            lemma_cross_comps_small(*world_up, dir, LOOK_LIMIT as int, SCALE as int, LOOK_LIMIT as int);
        }
        let right = Vec3::cross(world_up, &dir).normalize();
        proof {
            lemma_cross_comps_small(dir, right, SCALE as int, SCALE as int, SCALE as int);
        }
        let up = Vec3::cross(&dir, &right).normalize();

        self.mat[0] = right.x;
        self.mat[4] = right.y;
        self.mat[8] = right.z;
        self.mat[1] = up.x;
        self.mat[5] = up.y;
        self.mat[9] = up.z;
        self.mat[2] = dir.x;
        self.mat[6] = dir.y;
        self.mat[10] = dir.z;

        self.mat[12] = -dot_fx_exec(&right, pos);
        self.mat[13] = -dot_fx_exec(&up, pos);
        self.mat[14] = -dot_fx_exec(&dir, pos);
    }
}

/// The doubly rescaled rotation product, with its magnitude bound.
fn rot_term_exec(t: i64, a: i64, b: i64) -> (r: i64)
    requires
        abs_i(t as int) <= 3 * SCALE,
        abs_i(a as int) <= COMP_LIMIT as int,
        abs_i(b as int) <= COMP_LIMIT as int,
    ensures
        r == rot_term(t as int, a as int, b as int),
        abs_i(r as int) <= 7_000_000_000_000int,
{
    proof {
        assert(abs_i(t as int) * abs_i(a as int) <= 4_500_000_000_000_000int) by (nonlinear_arith)
            requires
                abs_i(t as int) <= 3_000_000,
                abs_i(a as int) <= 1_500_000_000,
                abs_i(t as int) >= 0,
                abs_i(a as int) >= 0,
        ;
    }
    let ta = mul_fx(t, a);
    proof {
        assert(abs_i(ta as int) <= 4_500_000_000int);
        assert(abs_i(ta as int) * abs_i(b as int) <= 6_750_000_000_000_000_000int)
            by (nonlinear_arith)
            requires
                abs_i(ta as int) <= 4_500_000_000int,
                abs_i(b as int) <= 1_500_000_000,
                abs_i(ta as int) >= 0,
                abs_i(b as int) >= 0,
        ;
    }
    mul_fx(ta, b)
}

/// The three sine-axis products of the rotation formula fit in `i64`.
proof fn lemma_sin_products_fit(s: int, x: int, y: int, z: int)
    requires
        abs_i(s) <= 2 * SCALE,
        abs_i(x) <= COMP_LIMIT as int,
        abs_i(y) <= COMP_LIMIT as int,
        abs_i(z) <= COMP_LIMIT as int,
    ensures
        abs_i(s) * abs_i(x) <= i64::MAX,
        abs_i(s) * abs_i(y) <= i64::MAX,
        abs_i(s) * abs_i(z) <= i64::MAX,
{
    assert forall|p: int| 0 <= p <= COMP_LIMIT as int implies #[trigger] (abs_i(s) * p)
        <= 3_000_000_000_000_000int by {
        assert(abs_i(s) * p <= 3_000_000_000_000_000int) by (nonlinear_arith)
            requires
                0 <= abs_i(s) <= 2_000_000,
                0 <= p <= 1_500_000_000,
        ;
    }
}

/// At a zero angle the rotation terms vanish and the block is the identity.
proof fn lemma_rotate_zero_angle(axis: Vec3)
    ensures
        crate::trig::cos_deg(0) == SCALE,
        crate::trig::sin_deg(0) == 0,
        forall|a: int, b: int| #[trigger] rot_term(rot_t(0), a, b) == 0,
        forall|a: int| #[trigger] mul_fx_spec(crate::trig::sin_deg(0), a) == 0,
{
    crate::trig::lemma_trig_at_zero();
    let s = SCALE as int;
    vstd::arithmetic::div_mod::lemma_div_of0(s);
    assert forall|a: int, b: int| #[trigger] rot_term(rot_t(0), a, b) == 0 by {
        assert(rot_t(0) == 0);
        assert(0 * a == 0) by (nonlinear_arith);
        assert(mul_fx_spec(0, a) == 0);
        assert(0 * b == 0) by (nonlinear_arith);
        assert(mul_fx_spec(0, b) == 0);
    }
    assert forall|a: int| #[trigger] mul_fx_spec(crate::trig::sin_deg(0), a) == 0 by {
        assert(0 * a == 0) by (nonlinear_arith);
    }
}

/// Componentwise bound for the cross product: with `|a| <= ba`, `|b| <= bb`
/// and `ba * bb <= q * SCALE`, every component is within `2 * q`.
pub proof fn lemma_cross_comps_small(a: Vec3, b: Vec3, ba: int, bb: int, q: int)
    requires
        comps_within(a, ba),
        comps_within(b, bb),
        0 <= ba,
        0 <= bb,
        0 <= q,
        ba * bb <= q * SCALE,
    ensures
        comps_within(cross_of(a, b), 2 * q),
        abs_i(cross_x(a, b)) <= 2 * q,
        abs_i(cross_y(a, b)) <= 2 * q,
        abs_i(cross_z(a, b)) <= 2 * q,
{
    let s = SCALE as int;
    assert forall|p1: int, p2: int|
        abs_i(p1) <= ba && abs_i(p2) <= bb implies abs_i(
        #[trigger] div_trunc(p1 * p2, s)) <= q by {
        lemma_abs_mul(p1, p2);
        assert(abs_i(p1) * abs_i(p2) <= ba * bb) by (nonlinear_arith)
            requires
                0 <= abs_i(p1) <= ba,
                0 <= abs_i(p2) <= bb,
        ;
        lemma_div_trunc_small(p1 * p2, s);
        let t = div_trunc(p1 * p2, s);
        assert(abs_i(t) <= q) by (nonlinear_arith)
            requires
                abs_i(t) * s <= q * s,
                s >= 1,
        ;
    }
}

/// Fixed-point dot product of two bounded vectors.
fn dot_fx_exec(a: &Vec3, b: &Vec3) -> (r: i64)
    requires
        comps_within(*a, SCALE as int),
        comps_within(*b, LOOK_LIMIT as int),
    ensures
        r == dot_fx(*a, *b),
        abs_i(r as int) <= 3 * LOOK_LIMIT,
{
    proof {
        lemma_sin_products_fit(a.x as int, b.x as int, b.y as int, b.z as int);
        lemma_sin_products_fit(a.y as int, b.x as int, b.y as int, b.z as int);
        lemma_sin_products_fit(a.z as int, b.x as int, b.y as int, b.z as int);
    }
    let tx = mul_fx(a.x, b.x);
    let ty = mul_fx(a.y, b.y);
    let tz = mul_fx(a.z, b.z);
    proof {
        lemma_term_within(a.x as int, b.x as int, tx as int);
        lemma_term_within(a.y as int, b.y as int, ty as int);
        lemma_term_within(a.z as int, b.z as int, tz as int);
    }
    tx + ty + tz
}

/// A rescaled product of a unit-bounded factor and a position-bounded factor
/// stays within the position bound.
proof fn lemma_term_within(p: int, q: int, t: int)
    requires
        abs_i(p) <= SCALE as int,
        abs_i(q) <= LOOK_LIMIT as int,
        t == div_trunc(p * q, SCALE as int),
    ensures
        abs_i(t) <= LOOK_LIMIT as int,
{
    let s = SCALE as int;
    lemma_abs_mul(p, q);
    assert(abs_i(p) * abs_i(q) <= 750_000_000_000_000int) by (nonlinear_arith)
        requires
            0 <= abs_i(p) <= 1_000_000,
            0 <= abs_i(q) <= 750_000_000,
    ;
    lemma_div_trunc_small(p * q, s);
    assert(abs_i(t) <= 750_000_000int) by (nonlinear_arith)
        requires
            abs_i(t) * s <= 750_000_000_000_000int,
            s == 1_000_000,
    ;
}

} // verus!
