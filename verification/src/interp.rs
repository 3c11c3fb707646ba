//! Linear interpolation primitives for the meter layout.
//!
//! Levels are fixed-point values: a normalized level of 1.0 is
//! `LEVEL_SCALE` steps, so a threshold such as 0.7 is exactly `7000`.
//! `interp_f` interpolates pixel coordinates by such a level with rounding
//! to the nearest pixel; `interp_i` splits a pixel range into equal-width
//! channel slots with floor division, so that adjacent slots share exactly
//! their boundary pixel.

use vstd::prelude::*;
use vstd::arithmetic::div_mod::lemma_div_is_ordered;

verus! {

/// Number of fixed-point steps that stand for a normalized level of 1.0.
pub const LEVEL_SCALE: u32 = 10000;

/// Largest pixel coordinate the interpolation functions accept; keeps all
/// intermediate products comfortably inside `u64`.
pub const COORD_LIMIT: u32 = 65536;

/// Integer-weighted interpolation from `a` (at `pos == 0`) to `b`
/// (at `pos == n`), with floor division.
pub open spec fn interp_i_spec(a: int, b: int, pos: int, n: int) -> int {
    (a * (n - pos) + b * pos) / n
}

/// Fixed-point interpolation from `a` (at `t == 0`) to `b`
/// (at `t == LEVEL_SCALE`), rounded to the nearest integer
/// (halves round up).
pub open spec fn interp_f_spec(a: int, b: int, t: int) -> int {
    (a * (LEVEL_SCALE - t) + b * t + (LEVEL_SCALE / 2)) / (LEVEL_SCALE as int)
}

/// The interpolated value never leaves the closed interval spanned by the
/// endpoints.
pub proof fn lemma_interp_f_between(a: int, b: int, t: int)
    requires
        0 <= a,
        0 <= b,
        0 <= t <= LEVEL_SCALE,
    ensures
        a <= b ==> a <= interp_f_spec(a, b, t) <= b,
        b <= a ==> b <= interp_f_spec(a, b, t) <= a,
{
    let s = LEVEL_SCALE as int;
    let num = a * (s - t) + b * t + s / 2;
    let lo = if a <= b { a } else { b };
    let hi = if a <= b { b } else { a };
    assert(lo * s <= a * (s - t) + b * t <= hi * s) by (nonlinear_arith)
        requires
            0 <= t <= s,
            lo <= a <= hi,
            lo <= b <= hi,
    ;
    lemma_div_is_ordered(lo * s, num, s);
    assert(lo * s / s == lo) by (nonlinear_arith)
        requires
            s == 10000,
    ;
    lemma_div_is_ordered(num, hi * s + s / 2, s);
    assert((hi * s + s / 2) / s == hi) by (nonlinear_arith)
        requires
            s == 10000,
    ;
}

/// Interpolation is monotonic in the level: increasing toward `b` when
/// `a <= b`, decreasing toward `b` when `b <= a`.
pub proof fn lemma_interp_f_monotone(a: int, b: int, t1: int, t2: int)
    requires
        0 <= a,
        0 <= b,
        0 <= t1 <= t2 <= LEVEL_SCALE,
    ensures
        a <= b ==> interp_f_spec(a, b, t1) <= interp_f_spec(a, b, t2),
        b <= a ==> interp_f_spec(a, b, t2) <= interp_f_spec(a, b, t1),
{
    let s = LEVEL_SCALE as int;
    if a <= b {
        assert(a * (s - t1) + b * t1 <= a * (s - t2) + b * t2) by (nonlinear_arith)
            requires
                t1 <= t2,
                a <= b,
        ;
        lemma_div_is_ordered(a * (s - t1) + b * t1 + s / 2, a * (s - t2) + b * t2 + s / 2, s);
    }
    if b <= a {
        assert(a * (s - t2) + b * t2 <= a * (s - t1) + b * t1) by (nonlinear_arith)
            requires
                t1 <= t2,
                b <= a,
        ;
        lemma_div_is_ordered(a * (s - t2) + b * t2 + s / 2, a * (s - t1) + b * t1 + s / 2, s);
    }
}

/// At level 0 the interpolation returns `a` exactly; at full scale it
/// returns `b` exactly.
pub proof fn lemma_interp_f_endpoints(a: int, b: int)
    requires
        0 <= a,
        0 <= b,
    ensures
        interp_f_spec(a, b, 0) == a,
        interp_f_spec(a, b, LEVEL_SCALE as int) == b,
{
    let s = LEVEL_SCALE as int;
    assert((a * s + s / 2) / s == a) by (nonlinear_arith)
        requires
            s == 10000,
    ;
    assert((b * s + s / 2) / s == b) by (nonlinear_arith)
        requires
            s == 10000,
    ;
}

/// Fixed-point linear interpolation from `a` (at `t == 0`) to `b`
/// (at `t == LEVEL_SCALE`), rounded to the nearest integer.
pub fn interp_f(a: u32, b: u32, t: u32) -> (r: u32)
    requires
        a <= COORD_LIMIT,
        b <= COORD_LIMIT,
        t <= LEVEL_SCALE,
    ensures
        r == interp_f_spec(a as int, b as int, t as int),
{
    proof {
        lemma_interp_f_between(a as int, b as int, t as int);
    }
    let num: u64 = a as u64 * (LEVEL_SCALE - t) as u64 + b as u64 * t as u64
        + (LEVEL_SCALE / 2) as u64;
    (num / LEVEL_SCALE as u64) as u32
}

/// The slot breakpoints are ordered like the endpoints and never leave the
/// interval they span.
pub proof fn lemma_interp_i_between(a: int, b: int, pos: int, n: int)
    requires
        0 <= a <= b,
        0 < n,
        0 <= pos <= n,
    ensures
        a <= interp_i_spec(a, b, pos, n) <= b,
{
    let num = a * (n - pos) + b * pos;
    assert(a * n <= a * (n - pos) + b * pos <= b * n) by (nonlinear_arith)
        requires
            0 <= pos <= n,
            0 <= a <= b,
    ;
    lemma_div_is_ordered(a * n, num, n);
    assert(a * n / n == a) by (nonlinear_arith)
        requires
            n > 0,
    ;
    lemma_div_is_ordered(num, b * n, n);
    assert(b * n / n == b) by (nonlinear_arith)
        requires
            n > 0,
    ;
}

/// Consecutive slot breakpoints never decrease, the first is `a` and the
/// last is `b`: the `n` slots tile the pixel range `[a, b]` without gaps.
pub proof fn lemma_interp_i_partition(a: int, b: int, pos1: int, pos2: int, n: int)
    requires
        0 <= a <= b,
        0 < n,
        0 <= pos1 <= pos2 <= n,
    ensures
        interp_i_spec(a, b, pos1, n) <= interp_i_spec(a, b, pos2, n),
        interp_i_spec(a, b, 0, n) == a,
        interp_i_spec(a, b, n, n) == b,
{
    assert(a * (n - pos1) + b * pos1 <= a * (n - pos2) + b * pos2) by (nonlinear_arith)
        requires
            pos1 <= pos2,
            a <= b,
    ;
    lemma_div_is_ordered(a * (n - pos1) + b * pos1, a * (n - pos2) + b * pos2, n);
    assert(a * n / n == a) by (nonlinear_arith)
        requires
            n > 0,
    ;
    assert(b * n / n == b) by (nonlinear_arith)
        requires
            n > 0,
    ;
}

/// Integer-weighted linear interpolation from `a` (at `pos == 0`) to `b`
/// (at `pos == n`): the breakpoint between channel slots `pos - 1` and
/// `pos` when a pixel range `[a, b]` is split into `n` slots.
pub fn interp_i(a: u32, b: u32, pos: usize, n: usize) -> (r: u32)
    requires
        0 < n <= u32::MAX,
        pos <= n,
        a <= b <= COORD_LIMIT,
    ensures
        r == interp_i_spec(a as int, b as int, pos as int, n as int),
{
    proof {
        lemma_interp_i_between(a as int, b as int, pos as int, n as int);
        assert(a as u64 * (n - pos) as u64 + b as u64 * pos as u64 <= 0x1_0000_0000_0000u64 * 2)
            by (nonlinear_arith)
            requires
                a <= 65536,
                b <= 65536,
                pos <= n <= 0xFFFF_FFFFu64,
        ;
    }
    let num: u64 = a as u64 * (n - pos) as u64 + b as u64 * pos as u64;
    (num / n as u64) as u32
}

} // verus!
