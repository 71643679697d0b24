//! The logistic activation over raw fixed-point values.
//!
//! `sigmoid_raw` is `SCALE / (1 + e^-x)` computed entirely in integers:
//! a truncated power series gives `e^f` on `[0, 1]`, four squarings extend
//! it to `[0, 16]`, and the argument is clipped beyond `16`, where the
//! result is within one raw unit of its bound.  The executable code is
//! proved equal to the spec-level mirror, and the mirror itself is proved
//! to sit strictly inside `(0, SCALE)`, to be monotone, and to map `0`
//! to exactly `SCALE / 2`.

use vstd::prelude::*;

use crate::fixed::{
    lemma_tdiv_denom, lemma_tdiv_exact, lemma_tdiv_lower, lemma_tdiv_mono, lemma_tdiv_nonneg,
    lemma_tdiv_upper, muldiv64, tdiv, SCALE,
};

verus! {

/// Truncated power series for `e^f * SCALE`, `0 <= f <= SCALE`, built
/// from the innermost factor outward: `e^f = 1 + f(1 + f/2(1 + ... f/13))`.
pub open spec fn exp_series(f: int, k: int) -> int
    decreases 14 - k,
{
    if k >= 14 {
        SCALE as int
    } else {
        SCALE + tdiv(f * exp_series(f, k + 1), k * (SCALE as int))
    }
}

/// `e^f * SCALE` for a fractional argument `0 <= f <= SCALE`.
pub open spec fn exp_frac(f: int) -> int {
    exp_series(f, 1)
}

/// `SCALE^2 / d`: the reciprocal of `d / SCALE`, in raw units.
pub open spec fn recip_s(d: int) -> int {
    tdiv((SCALE as int) * (SCALE as int), d)
}

/// The square of a raw value, rescaled.
pub open spec fn fx_sq(t: int) -> int {
    tdiv(t * t, SCALE as int)
}

/// `e^-u * SCALE` for `0 <= u <= 16 * SCALE`: the reciprocal of
/// `e^(u/16)`, squared four times.
pub open spec fn exp_neg16(u: int) -> int {
    fx_sq(fx_sq(fx_sq(fx_sq(recip_s(exp_frac(tdiv(u, 16)))))))
}

/// Clip an argument to the band where the series is computed.
pub open spec fn clip(x: int) -> int {
    if x > 16 * (SCALE as int) {
        16 * (SCALE as int)
    } else {
        x
    }
}

/// The logistic value for a nonnegative raw argument.
pub open spec fn sig_pos(u: int) -> int {
    recip_s(SCALE + exp_neg16(clip(u)))
}

/// The logistic function on raw values: `SCALE / (1 + e^-x)`.
pub open spec fn sigmoid_raw(x: int) -> int {
    if x >= 0 {
        sig_pos(x)
    } else {
        (SCALE as int) - sig_pos(-x)
    }
}

/// The series stays within `[SCALE, 3 * SCALE]`.
pub proof fn lemma_exp_series_bounds(f: int, k: int)
    requires
        0 <= f <= SCALE,
        1 <= k,
    ensures
        SCALE <= exp_series(f, k) <= 3 * (SCALE as int),
        k >= 2 ==> exp_series(f, k) <= 2 * (SCALE as int),
    decreases 14 - k,
{
    let s = SCALE as int;
    if k >= 14 {
    } else {
        lemma_exp_series_bounds(f, k + 1);
        let h = exp_series(f, k + 1);
        assert(f * h >= 0) by (nonlinear_arith)
            requires
                f >= 0,
                h >= 0,
        ;
        lemma_tdiv_nonneg(f * h, k * s);
        if k >= 2 {
            assert(f * h < (s + 1) * (k * s)) by (nonlinear_arith)
                requires
                    0 <= f <= s,
                    0 <= h <= 2 * s,
                    k >= 2,
                    s >= 1,
            ;
            lemma_tdiv_upper(f * h, k * s, s);
        } else {
            assert(f * h < (2 * s + 1) * (k * s)) by (nonlinear_arith)
                requires
                    0 <= f <= s,
                    0 <= h <= 2 * s,
                    k == 1,
                    s >= 1,
            ;
            lemma_tdiv_upper(f * h, k * s, 2 * s);
        }
    }
}

/// The series is monotone in its fractional argument.
pub proof fn lemma_exp_series_mono(f1: int, f2: int, k: int)
    requires
        0 <= f1 <= f2 <= SCALE,
        1 <= k,
    ensures
        exp_series(f1, k) <= exp_series(f2, k),
    decreases 14 - k,
{
    if k >= 14 {
    } else {
        lemma_exp_series_mono(f1, f2, k + 1);
        lemma_exp_series_bounds(f1, k + 1);
        lemma_exp_series_bounds(f2, k + 1);
        let h1 = exp_series(f1, k + 1);
        let h2 = exp_series(f2, k + 1);
        assert(f1 * h1 <= f2 * h2) by (nonlinear_arith)
            requires
                0 <= f1 <= f2,
                0 <= h1 <= h2,
        ;
        lemma_tdiv_mono(f1 * h1, f2 * h2, k * (SCALE as int));
    }
}

/// At zero the series is exactly `SCALE`.
pub proof fn lemma_exp_series_zero(k: int)
    requires
        1 <= k,
    ensures
        exp_series(0, k) == SCALE,
    decreases 14 - k,
{
    if k >= 14 {
    } else {
        lemma_exp_series_zero(k + 1);
        let h = exp_series(0, k + 1);
        assert(0 * h == 0);
        lemma_tdiv_exact(0, k * (SCALE as int));
        assert(0 * (k * (SCALE as int)) == 0);
    }
}

/// Squaring keeps `[0, SCALE]` and is monotone there.
pub proof fn lemma_sq_props(t1: int, t2: int)
    requires
        0 <= t1 <= t2 <= SCALE,
    ensures
        0 <= fx_sq(t1) <= fx_sq(t2) <= SCALE,
{
    let s = SCALE as int;
    assert(0 <= t1 * t1 <= t2 * t2 <= s * s) by (nonlinear_arith)
        requires
            0 <= t1 <= t2 <= s,
    ;
    lemma_tdiv_nonneg(t1 * t1, s);
    lemma_tdiv_mono(t1 * t1, t2 * t2, s);
    lemma_tdiv_mono(t2 * t2, s * s, s);
    lemma_tdiv_exact(s, s);
}

/// Bounds for the negative exponential: one raw unit up to one.
pub proof fn lemma_exp_neg16_bounds(u: int)
    requires
        0 <= u <= 16 * (SCALE as int),
    ensures
        1 <= exp_neg16(u) <= SCALE,
{
    let s = SCALE as int;
    let f = tdiv(u, 16);
    lemma_tdiv_nonneg(u, 16);
    lemma_tdiv_mono(u, 16 * s, 16);
    lemma_tdiv_exact(s, 16);
    assert(s * 16 == 16 * s);
    assert(0 <= f <= s);
    lemma_exp_series_bounds(f, 1);
    let ef = exp_frac(f);
    let t0 = recip_s(ef);
    // reciprocal of a value in [SCALE, 3 * SCALE]
    lemma_tdiv_nonneg(s * s, ef);
    lemma_tdiv_denom(s * s, s, ef);
    lemma_tdiv_exact(s, s);
    assert(t0 <= s);
    assert(333_333_333 * ef <= s * s);
    lemma_tdiv_lower(s * s, ef, 333_333_333);
    assert(t0 >= 333_333_333);
    // chain the squarings downward from the concrete floor
    lemma_sq_props(333_333_333, t0);
    assert(fx_sq(333_333_333) == 111_111_110) by {
        crate::fixed::lemma_tdiv_concrete((333_333_333 as int) * (333_333_333 as int), s, 111_111_110);
    };
    let t1 = fx_sq(t0);
    lemma_sq_props(111_111_110, t1);
    assert(fx_sq(111_111_110) == 12_345_678) by {
        crate::fixed::lemma_tdiv_concrete((111_111_110 as int) * (111_111_110 as int), s, 12_345_678);
    };
    let t2 = fx_sq(t1);
    lemma_sq_props(12_345_678, t2);
    assert(fx_sq(12_345_678) == 152_415) by {
        crate::fixed::lemma_tdiv_concrete((12_345_678 as int) * (12_345_678 as int), s, 152_415);
    };
    let t3 = fx_sq(t2);
    lemma_sq_props(152_415, t3);
    assert(fx_sq(152_415) == 23) by {
        crate::fixed::lemma_tdiv_concrete((152_415 as int) * (152_415 as int), s, 23);
    };
}

/// The negative exponential is antitone in its argument.
pub proof fn lemma_exp_neg16_antitone(u1: int, u2: int)
    requires
        0 <= u1 <= u2 <= 16 * (SCALE as int),
    ensures
        exp_neg16(u2) <= exp_neg16(u1),
{
    let s = SCALE as int;
    let f1 = tdiv(u1, 16);
    let f2 = tdiv(u2, 16);
    lemma_tdiv_mono(u1, u2, 16);
    lemma_tdiv_nonneg(u1, 16);
    lemma_tdiv_mono(u2, 16 * s, 16);
    lemma_tdiv_exact(s, 16);
    assert(s * 16 == 16 * s);
    lemma_exp_series_mono(f1, f2, 1);
    lemma_exp_series_bounds(f1, 1);
    lemma_exp_series_bounds(f2, 1);
    // reciprocal flips the order
    lemma_tdiv_denom(s * s, exp_frac(f1), exp_frac(f2));
    let t0a = recip_s(exp_frac(f2));
    let t0b = recip_s(exp_frac(f1));
    lemma_tdiv_nonneg(s * s, exp_frac(f2));
    lemma_tdiv_denom(s * s, s, exp_frac(f1));
    lemma_tdiv_exact(s, s);
    lemma_sq_props(t0a, t0b);
    lemma_sq_props(fx_sq(t0a), fx_sq(t0b));
    lemma_sq_props(fx_sq(fx_sq(t0a)), fx_sq(fx_sq(t0b)));
    lemma_sq_props(fx_sq(fx_sq(fx_sq(t0a))), fx_sq(fx_sq(fx_sq(t0b))));
}

/// For nonnegative arguments the logistic sits in `[SCALE/2, SCALE - 1]`.
pub proof fn lemma_sig_pos_bounds(u: int)
    requires
        0 <= u,
    ensures
        500_000_000 <= sig_pos(u) <= (SCALE as int) - 1,
{
    let s = SCALE as int;
    let c = clip(u);
    assert(0 <= c <= 16 * s);
    lemma_exp_neg16_bounds(c);
    let e = exp_neg16(c);
    // the denominator is in [SCALE + 1, 2 * SCALE]
    lemma_tdiv_denom(s * s, s + 1, s + e);
    lemma_tdiv_denom(s * s, s + e, 2 * s);
    lemma_tdiv_exact(500_000_000, 2 * s);
    assert(500_000_000 * (2 * s) == s * s);
    lemma_tdiv_upper(s * s, s + 1, s - 1);
    assert(s * s < ((s - 1) + 1) * (s + 1));
}

/// For nonnegative arguments the logistic is monotone.
pub proof fn lemma_sig_pos_mono(u1: int, u2: int)
    requires
        0 <= u1 <= u2,
    ensures
        sig_pos(u1) <= sig_pos(u2),
{
    let s = SCALE as int;
    let c1 = clip(u1);
    let c2 = clip(u2);
    assert(0 <= c1 <= c2 <= 16 * s);
    lemma_exp_neg16_antitone(c1, c2);
    lemma_exp_neg16_bounds(c1);
    lemma_exp_neg16_bounds(c2);
    lemma_tdiv_denom(s * s, s + exp_neg16(c2), s + exp_neg16(c1));
}

/// The logistic of zero is exactly one half.
pub proof fn lemma_sigmoid_at_zero()
    ensures
        sigmoid_raw(0) == 500_000_000,
{
    let s = SCALE as int;
    lemma_tdiv_exact(0, 16);
    assert(0 * 16 == 0);
    lemma_exp_series_zero(1);
    lemma_tdiv_exact(s, s);
    assert(recip_s(exp_frac(0)) == s);
    assert(fx_sq(s) == s) by {
        lemma_tdiv_exact(s, s);
    };
    assert(exp_neg16(0) == s);
    lemma_tdiv_exact(500_000_000, 2 * s);
    assert(500_000_000 * (2 * s) == s * s);
    assert(sig_pos(0) == 500_000_000);
}

/// The logistic stays strictly between zero and one.
pub proof fn lemma_sigmoid_bounds(x: int)
    ensures
        1 <= sigmoid_raw(x) <= (SCALE as int) - 1,
{
    if x >= 0 {
        lemma_sig_pos_bounds(x);
    } else {
        lemma_sig_pos_bounds(-x);
    }
}

/// The logistic is monotone over all raw arguments.
pub proof fn lemma_sigmoid_monotone(x1: int, x2: int)
    requires
        x1 <= x2,
    ensures
        sigmoid_raw(x1) <= sigmoid_raw(x2),
{
    if 0 <= x1 {
        lemma_sig_pos_mono(x1, x2);
    } else if x2 < 0 {
        lemma_sig_pos_mono(-x2, -x1);
    } else {
        lemma_sig_pos_bounds(-x1);
        lemma_sig_pos_bounds(x2);
    }
}

/// Run the series loop for `e^f * SCALE`.
fn exp_frac_exec(f: i64) -> (r: i64)
    requires
        0 <= f <= SCALE,
    ensures
        r as int == exp_frac(f as int),
{
    let mut k: i64 = 13;
    let mut h: i64 = SCALE;
    assert(exp_series(f as int, 14) == SCALE);
    while k >= 1
        invariant
            0 <= f <= SCALE,
            0 <= k <= 13,
            h as int == exp_series(f as int, k as int + 1),
            SCALE <= h <= 3 * (SCALE as int),
        decreases k,
    {
        proof {
            lemma_exp_series_bounds(f as int, k as int + 1);
            assert(f as int * h as int >= 0) by (nonlinear_arith)
                requires
                    f as int >= 0,
                    h as int >= 0,
            ;
            assert(f as int * h as int <= 3_000_000_000_000_000_000) by (nonlinear_arith)
                requires
                    0 <= f as int <= 1_000_000_000,
                    0 <= h as int <= 3_000_000_000,
            ;
            lemma_tdiv_nonneg(f as int * h as int, k as int * (SCALE as int));
        }
        let t: i64 = muldiv64(f, h, k * SCALE);
        proof {
            lemma_exp_series_bounds(f as int, k as int);
        }
        h = SCALE + t;
        k = k - 1;
    }
    h
}

/// `SCALE^2 / d` for a denominator of at least `SCALE`.
fn recip_s_exec(d: i64) -> (r: i64)
    requires
        d >= SCALE,
    ensures
        r as int == recip_s(d as int),
        0 <= r <= SCALE,
{
    let n: u64 = 1_000_000_000_000_000_000;
    let q: u64 = n / (d as u64);
    proof {
        let s = SCALE as int;
        lemma_tdiv_nonneg(s * s, d as int);
        lemma_tdiv_denom(s * s, s, d as int);
        lemma_tdiv_exact(s, s);
    }
    q as i64
}

/// The rescaled square of a raw value in `[0, SCALE]`.
fn sq_exec(t: i64) -> (r: i64)
    requires
        0 <= t <= SCALE,
    ensures
        r as int == fx_sq(t as int),
        0 <= r <= SCALE,
{
    proof {
        lemma_sq_props(t as int, t as int);
        lemma_sq_props(t as int, SCALE as int);
    }
    muldiv64(t, t, SCALE)
}

/// `e^-u * SCALE` for `0 <= u <= 16 * SCALE`.
fn exp_neg16_exec(u: i64) -> (r: i64)
    requires
        0 <= u <= 16 * (SCALE as int),
    ensures
        r as int == exp_neg16(u as int),
        1 <= r <= SCALE,
{
    proof {
        lemma_exp_neg16_bounds(u as int);
    }
    let f: i64 = ((u as u64) / 16) as i64;
    proof {
        let s = SCALE as int;
        lemma_tdiv_nonneg(u as int, 16);
        lemma_tdiv_mono(u as int, 16 * s, 16);
        lemma_tdiv_exact(s, 16);
        assert(s * 16 == 16 * s);
        lemma_exp_series_bounds(f as int, 1);
    }
    let ef: i64 = exp_frac_exec(f);
    let t0: i64 = recip_s_exec(ef);
    let t1: i64 = sq_exec(t0);
    let t2: i64 = sq_exec(t1);
    let t3: i64 = sq_exec(t2);
    let t4: i64 = sq_exec(t3);
    t4
}

/// The logistic for a nonnegative raw argument.
fn sig_pos_exec(u: i64) -> (r: i64)
    requires
        u >= 0,
    ensures
        r as int == sig_pos(u as int),
        500_000_000 <= r <= SCALE - 1,
{
    proof {
        lemma_sig_pos_bounds(u as int);
    }
    let uc: i64 = if u > 16 * SCALE {
        16 * SCALE
    } else {
        u
    };
    assert(uc as int == clip(u as int));
    let e: i64 = exp_neg16_exec(uc);
    let r: i64 = recip_s_exec(SCALE + e);
    r
}

/// The logistic on raw values, total over all of `i64`.
pub(crate) fn sigmoid_exec(x: i64) -> (r: i64)
    ensures
        r as int == sigmoid_raw(x as int),
        1 <= r <= SCALE - 1,
{
    proof {
        lemma_sigmoid_bounds(x as int);
    }
    if x >= 0 {
        sig_pos_exec(x)
    } else {
        let m: i64 = if x < -(16 * SCALE) {
            16 * SCALE
        } else {
            -x
        };
        assert(clip(m as int) == clip(-(x as int)));
        let s: i64 = sig_pos_exec(m);
        SCALE - s
    }
}

} // verus!
