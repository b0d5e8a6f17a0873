//! Fixed-point scalar arithmetic.
//!
//! A scalar is an `i64` holding `SCALE` units per 1.0.  Multiplication of two
//! scalars therefore rescales the raw product by `SCALE`, truncating toward
//! zero, exactly as `div_trunc` describes.

use vstd::prelude::*;

verus! {

/// Number of raw units per 1.0.
pub const SCALE: i64 = 1_000_000;

/// Absolute value, as a mathematical integer.
pub open spec fn abs_i(x: int) -> int {
    if x < 0 {
        -x
    } else {
        x
    }
}

/// Quotient of `n` by `d`, truncated toward zero: the semantics of `/` on
/// Rust's signed integers (`/` on `int` is Euclidean, hence the sign split).
pub open spec fn div_trunc(n: int, d: int) -> int {
    if n >= 0 {
        n / d
    } else {
        -((-n) / d)
    }
}

/// The truncated quotient leaves a remainder smaller than the divisor, with
/// the sign of the dividend.
pub proof fn lemma_div_trunc_rem(n: int, d: int)
    requires
        d > 0,
    ensures
        n == d * div_trunc(n, d) + (n - d * div_trunc(n, d)),
        abs_i(n - d * div_trunc(n, d)) <= d - 1,
        n >= 0 ==> 0 <= n - d * div_trunc(n, d) && div_trunc(n, d) >= 0,
        n <= 0 ==> n - d * div_trunc(n, d) <= 0 && div_trunc(n, d) <= 0,
{
    if n >= 0 {
        vstd::arithmetic::div_mod::lemma_remainder(n, d);
        vstd::arithmetic::div_mod::lemma_div_pos_is_pos(n, d);
        let t = n / d;
        assert(0 <= n - t * d < d);
        assert(d * t == t * d) by (nonlinear_arith);
    } else {
        vstd::arithmetic::div_mod::lemma_remainder(-n, d);
        vstd::arithmetic::div_mod::lemma_div_pos_is_pos(-n, d);
        let t = (-n) / d;
        assert(0 <= (-n) - t * d < d);
        assert(div_trunc(n, d) == -t);
        assert(d * (-t) == -(t * d)) by (nonlinear_arith);
        assert(n - d * (-t) == -((-n) - t * d));
    }
}

/// Truncated division by a positive divisor never grows the magnitude of a
/// quotient: `|n / d| <= |n|`.
pub proof fn lemma_div_trunc_abs_le(n: int, d: int)
    requires
        d > 0,
    ensures
        abs_i(div_trunc(n, d)) <= abs_i(n),
{
    if n >= 0 {
        vstd::arithmetic::div_mod::lemma_div_pos_is_pos(n, d);
        vstd::arithmetic::div_mod::lemma_div_nonincreasing(n, d);
    } else {
        vstd::arithmetic::div_mod::lemma_div_pos_is_pos(-n, d);
        vstd::arithmetic::div_mod::lemma_div_nonincreasing(-n, d);
    }
}

/// The magnitude of a product is the product of the magnitudes.
pub proof fn lemma_abs_mul(a: int, b: int)
    by (nonlinear_arith)
    ensures
        abs_i(a * b) == abs_i(a) * abs_i(b),
{
}

/// Fixed-point product: `a * b` rescaled by `SCALE`, truncating toward zero.
pub fn mul_fx(a: i64, b: i64) -> (r: i64)
    requires
        abs_i(a as int) * abs_i(b as int) <= i64::MAX as int,
    ensures
        r == div_trunc(a as int * b as int, SCALE as int),
        abs_i(r as int) * (SCALE as int) <= abs_i(a as int) * abs_i(b as int),
{
    proof {
        lemma_abs_mul(a as int, b as int);
        lemma_div_trunc_rem(a as int * b as int, SCALE as int);
        lemma_div_trunc_abs_le(a as int * b as int, SCALE as int);
        let p = a as int * b as int;
        let q = div_trunc(p, SCALE as int);
        assert(abs_i(q) * SCALE as int <= abs_i(p)) by (nonlinear_arith)
            requires
                p == SCALE as int * q + (p - SCALE as int * q),
                abs_i(p - SCALE as int * q) <= SCALE as int - 1,
                p >= 0 ==> 0 <= p - SCALE as int * q && q >= 0,
                p <= 0 ==> p - SCALE as int * q <= 0 && q <= 0,
        ;
    }
    (a * b) / SCALE
}

/// Scaling a truncated quotient back by the divisor never exceeds the
/// dividend's magnitude.
pub proof fn lemma_div_trunc_small(n: int, d: int)
    requires
        d > 0,
    ensures
        abs_i(div_trunc(n, d)) * d <= abs_i(n),
{
    lemma_div_trunc_rem(n, d);
    let q = div_trunc(n, d);
    assert(abs_i(q) * d <= abs_i(n)) by (nonlinear_arith)
        requires
            n == d * q + (n - d * q),
            abs_i(n - d * q) <= d - 1,
            n >= 0 ==> 0 <= n - d * q && q >= 0,
            n <= 0 ==> n - d * q <= 0 && q <= 0,
            d > 0,
    ;
}

/// Scaling a truncated quotient back by the divisor loses at most one
/// divisor's worth of the dividend's magnitude.
pub proof fn lemma_div_trunc_lower(n: int, d: int)
    requires
        d > 0,
    ensures
        abs_i(div_trunc(n, d)) * d >= abs_i(n) - (d - 1),
{
    lemma_div_trunc_rem(n, d);
    let q = div_trunc(n, d);
    assert(abs_i(q) * d >= abs_i(n) - (d - 1)) by (nonlinear_arith)
        requires
            n == d * q + (n - d * q),
            abs_i(n - d * q) <= d - 1,
            n >= 0 ==> 0 <= n - d * q && q >= 0,
            n <= 0 ==> n - d * q <= 0 && q <= 0,
            d > 0,
    ;
}

/// A rescaled product with a zero factor is zero.
pub proof fn lemma_mul_fx_zero(a: int, b: int)
    requires
        b == 0,
    ensures
        div_trunc(a * b, SCALE as int) == 0,
{
    assert(a * b == 0) by (nonlinear_arith)
        requires
            b == 0,
    ;
    vstd::arithmetic::div_mod::lemma_div_of0(SCALE as int);
}

/// A nonnegative dividend below `b * d` has a quotient below `b`.
pub proof fn lemma_div_bound_nonneg(n: int, d: int, b: int)
    requires
        0 <= n,
        0 < d,
        0 <= b,
        n <= b * d,
    ensures
        0 <= n / d <= b,
{
    vstd::arithmetic::div_mod::lemma_div_pos_is_pos(n, d);
    if n / d > b {
        vstd::arithmetic::div_mod::lemma_fundamental_div_mod(n, d);
        vstd::arithmetic::div_mod::lemma_mod_bound(n, d);
        assert(d * (n / d) >= d * (b + 1)) by (nonlinear_arith)
            requires
                n / d >= b + 1,
                d > 0,
        ;
        assert(d * (b + 1) > b * d) by (nonlinear_arith)
            requires
                d > 0,
        ;
    }
}

/// Floor of the square root: the unique `r >= 0` with `r * r <= n < (r + 1) * (r + 1)`.
pub closed spec fn sqrt_floor(n: int) -> int {
    choose|r: int| r >= 0 && (#[trigger] (r * r)) <= n && n < (r + 1) * (r + 1)
}

proof fn lemma_sqrt_exists(n: int)
    requires
        n >= 0,
    ensures
        exists|r: int| r >= 0 && (#[trigger] (r * r)) <= n && n < (r + 1) * (r + 1),
    decreases n,
{
    if n == 0 {
        let w: int = 0;
        assert(w >= 0 && w * w <= n && n < (w + 1) * (w + 1)) by (nonlinear_arith)
            requires
                n == 0,
                w == 0,
        ;
    } else {
        lemma_sqrt_exists(n - 1);
        let p = choose|r: int| r >= 0 && (#[trigger] (r * r)) <= n - 1 && n - 1 < (r + 1) * (r + 1);
        if (p + 1) * (p + 1) <= n {
            assert(n - 1 < (p + 1) * (p + 1));
            assert(n == (p + 1) * (p + 1));
            assert((p + 1) * (p + 1) < (p + 2) * (p + 2)) by (nonlinear_arith)
                requires
                    p >= 0,
            ;
            assert(p + 1 >= 0 && (p + 1) * (p + 1) <= n < (p + 2) * (p + 2));
        } else {
            assert(p >= 0 && p * p <= n < (p + 1) * (p + 1));
        }
    }
}

/// Any `r` meeting the square-root characterization is `sqrt_floor(n)`.
pub proof fn lemma_sqrt_floor_unique(n: int, r: int)
    requires
        r >= 0,
        r * r <= n,
        n < (r + 1) * (r + 1),
    ensures
        r == sqrt_floor(n),
{
    assert(r * r >= 0) by (nonlinear_arith)
        requires
            r >= 0,
    ;
    lemma_sqrt_exists(n);
    let s = sqrt_floor(n);
    assert(s >= 0 && s * s <= n < (s + 1) * (s + 1));
    if r < s {
        assert((r + 1) * (r + 1) <= s * s) by (nonlinear_arith)
            requires
                0 <= r < s,
        ;
    } else if s < r {
        assert((s + 1) * (s + 1) <= r * r) by (nonlinear_arith)
            requires
                0 <= s < r,
        ;
    }
}

/// `sqrt_floor` keeps its characterization on every nonnegative argument.
pub proof fn lemma_sqrt_floor(n: int)
    requires
        n >= 0,
    ensures
        sqrt_floor(n) >= 0,
        sqrt_floor(n) * sqrt_floor(n) <= n,
        n < (sqrt_floor(n) + 1) * (sqrt_floor(n) + 1),
{
    lemma_sqrt_exists(n);
}

/// Integer square root by bisection.
pub fn isqrt(n: u64) -> (r: u64)
    requires
        n <= 9_000_000_000_000_000_000,
    ensures
        r as int == sqrt_floor(n as int),
        r * r <= n,
        n < (r as int + 1) * (r as int + 1),
{
    let mut lo: u64 = 0;
    let mut hi: u64 = 3_000_000_000;
    proof {
        assert((3_000_000_000 + 1) * (3_000_000_000 + 1) > 9_000_000_000_000_000_000int)
            by (nonlinear_arith);
    }
    while lo < hi
        invariant
            lo <= hi <= 3_000_000_000,
            lo as int * lo as int <= n as int,
            (n as int) < (hi as int + 1) * (hi as int + 1),
        decreases hi - lo,
    {
        let mid: u64 = lo + (hi - lo + 1) / 2;
        proof {
            assert(lo < mid <= hi);
            assert(mid as int * mid as int <= 3_000_000_000 * 3_000_000_000)
                by (nonlinear_arith)
                requires
                    0 <= mid <= 3_000_000_000,
            ;
        }
        if mid * mid <= n {
            lo = mid;
        } else {
            hi = mid - 1;
        }
    }
    proof {
        lemma_sqrt_floor_unique(n as int, lo as int);
    }
    lo
}

} // verus!
