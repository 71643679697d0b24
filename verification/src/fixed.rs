//! The fixed-point scalar `Fx` and its exact arithmetic.
//!
//! An `Fx` stands for the real number `raw / SCALE`.  All operations are
//! total: results outside `[-MAX_RAW, MAX_RAW]` saturate to the nearest
//! bound, and products are rescaled with division truncating toward zero.

use vstd::prelude::*;

verus! {

/// Number of raw units in 1.0.
pub const SCALE: i64 = 1_000_000_000;

/// Largest raw magnitude a value may hold; arithmetic saturates here.
pub const MAX_RAW: i64 = i64::MAX;

/// Clamp an unbounded integer into the representable raw range.
pub open spec fn sat(x: int) -> int {
    if x > MAX_RAW as int {
        MAX_RAW as int
    } else if x < -(MAX_RAW as int) {
        -(MAX_RAW as int)
    } else {
        x
    }
}

/// Division truncating toward zero (spec `/` is Euclidean).
pub open spec fn tdiv(n: int, d: int) -> int {
    if n >= 0 {
        n / d
    } else {
        -((-n) / d)
    }
}

/// Exact saturating sum of two raw values.
pub open spec fn fx_add(a: int, b: int) -> int {
    sat(a + b)
}

/// Exact saturating difference of two raw values.
pub open spec fn fx_sub(a: int, b: int) -> int {
    sat(a - b)
}

/// Saturating product of two raw values, rescaled by `SCALE` with
/// truncation toward zero.
pub open spec fn fx_mul(a: int, b: int) -> int {
    sat(tdiv(a * b, SCALE as int))
}

/// Raw value standing for the integer `x`.
pub open spec fn fx_of_int(x: int) -> int {
    sat(x * (SCALE as int))
}

/// A fixed-point number: the real value `raw / SCALE`.
#[derive(Clone, Copy, PartialEq, Eq, Structural, Debug)]
pub struct Fx {
    raw: i64,
}

impl View for Fx {
    type V = int;

    closed spec fn view(&self) -> int {
        self.raw as int
    }
}

impl Fx {
    /// The value holding exactly `raw` units of `1 / SCALE`.
    pub fn from_raw(raw: i64) -> (r: Fx)
        ensures
            r@ == sat(raw as int),
    {
        if raw < -MAX_RAW {
            Fx { raw: -MAX_RAW }
        } else {
            Fx { raw }
        }
    }

    /// The value standing for the integer `x`.
    pub fn from_int(x: i32) -> (r: Fx)
        ensures
            r@ == fx_of_int(x as int),
    {
        assert(-0x8000_0000_0000_0000_0000 <= (x as int) * (SCALE as int) <= 0x8000_0000_0000_0000_0000)
            by (nonlinear_arith)
            requires
                -0x8000_0000 <= x as int <= 0x7fff_ffff,
        ;
        let wide: i128 = (x as i128) * (SCALE as i128);
        Fx { raw: clamp_wide(wide) }
    }

    /// Zero.
    pub fn zero() -> (r: Fx)
        ensures
            r@ == 0,
    {
        Fx { raw: 0 }
    }

    /// One, that is `SCALE` raw units.
    pub fn one() -> (r: Fx)
        ensures
            r@ == SCALE as int,
    {
        Fx { raw: SCALE }
    }

    /// The number of `1 / SCALE` units this value holds.
    pub fn raw(self) -> (r: i64)
        ensures
            r as int == self@,
    {
        self.raw
    }

    /// Saturating addition.
    pub fn add(self, other: Fx) -> (r: Fx)
        ensures
            r@ == fx_add(self@, other@),
    {
        let wide: i128 = (self.raw as i128) + (other.raw as i128);
        Fx { raw: clamp_wide(wide) }
    }

    /// Saturating subtraction.
    pub fn sub(self, other: Fx) -> (r: Fx)
        ensures
            r@ == fx_sub(self@, other@),
    {
        let wide: i128 = (self.raw as i128) - (other.raw as i128);
        Fx { raw: clamp_wide(wide) }
    }

    /// Saturating product, rescaled by `SCALE`.
    pub fn mul(self, other: Fx) -> (r: Fx)
        ensures
            r@ == fx_mul(self@, other@),
    {
        let q = mul_div_wide(self.raw as i128, other.raw as i128, SCALE as i128);
        Fx { raw: clamp_wide(q) }
    }
}

/// Clamp a wide intermediate into the raw range.
fn clamp_wide(x: i128) -> (r: i64)
    ensures
        r as int == sat(x as int),
{
    if x > MAX_RAW as i128 {
        MAX_RAW
    } else if x < -(MAX_RAW as i128) {
        -MAX_RAW
    } else {
        x as i64
    }
}

/// `tdiv(a * b, d)` for operands no wider than one raw value each.
fn mul_div_wide(a: i128, b: i128, d: i128) -> (q: i128)
    requires
        d > 0,
        i64::MIN as int <= a <= i64::MAX as int,
        i64::MIN as int <= b <= i64::MAX as int,
        d <= i64::MAX as int,
    ensures
        q as int == tdiv(a as int * b as int, d as int),
{
    let neg = (a < 0) != (b < 0);
    let ma: u128 = if a < 0 { (-a) as u128 } else { a as u128 };
    let mb: u128 = if b < 0 { (-b) as u128 } else { b as u128 };
    assert(ma <= 0x8000_0000_0000_0000 && mb <= 0x8000_0000_0000_0000);
    assert(ma * mb <= 0x4000_0000_0000_0000_0000_0000_0000_0000) by (nonlinear_arith)
        requires
            ma <= 0x8000_0000_0000_0000,
            mb <= 0x8000_0000_0000_0000,
    ;
    let prod: u128 = ma * mb;
    let quot: u128 = prod / (d as u128);
    proof {
        lemma_abs_mul(a as int, b as int, ma as int, mb as int);
        vstd::arithmetic::div_mod::lemma_div_nonincreasing(prod as int, d as int);
    }
    if neg {
        assert(a as int * b as int == -(prod as int));
        assert(tdiv(a as int * b as int, d as int) == -(quot as int));
        -(quot as i128)
    } else {
        assert(a as int * b as int == prod as int);
        quot as i128
    }
}

/// `tdiv(a * b, d)` on raw values; the caller bounds the quotient.
pub(crate) fn muldiv64(a: i64, b: i64, d: i64) -> (q: i64)
    requires
        d > 0,
        -(MAX_RAW as int) <= tdiv(a as int * b as int, d as int) <= MAX_RAW as int,
    ensures
        q as int == tdiv(a as int * b as int, d as int),
{
    let q = mul_div_wide(a as i128, b as i128, d as i128);
    q as i64
}

/// `tdiv` of a nonnegative numerator lies between 0 and the numerator.
pub proof fn lemma_tdiv_nonneg(n: int, d: int)
    requires
        0 <= n,
        0 < d,
    ensures
        0 <= tdiv(n, d) <= n,
{
    vstd::arithmetic::div_mod::lemma_div_pos_is_pos(n, d);
    vstd::arithmetic::div_mod::lemma_div_nonincreasing(n, d);
}

/// `tdiv` is monotone in the numerator.
pub proof fn lemma_tdiv_mono(n1: int, n2: int, d: int)
    requires
        n1 <= n2,
        0 < d,
    ensures
        tdiv(n1, d) <= tdiv(n2, d),
{
    if n1 >= 0 {
        vstd::arithmetic::div_mod::lemma_div_is_ordered(n1, n2, d);
    } else if n2 < 0 {
        vstd::arithmetic::div_mod::lemma_div_is_ordered(-n2, -n1, d);
    } else {
        vstd::arithmetic::div_mod::lemma_div_pos_is_pos(-n1, d);
        vstd::arithmetic::div_mod::lemma_div_pos_is_pos(n2, d);
    }
}

/// For a nonnegative numerator, `tdiv` is antitone in the denominator.
pub proof fn lemma_tdiv_denom(n: int, d1: int, d2: int)
    requires
        0 <= n,
        0 < d1 <= d2,
    ensures
        tdiv(n, d2) <= tdiv(n, d1),
{
    vstd::arithmetic::div_mod::lemma_div_is_ordered_by_denominator(n, d1, d2);
}

/// A strict multiple above the numerator bounds the quotient.
pub proof fn lemma_tdiv_upper(n: int, d: int, b: int)
    requires
        0 <= n,
        0 < d,
        n < (b + 1) * d,
    ensures
        tdiv(n, d) <= b,
{
    let q = n / d;
    vstd::arithmetic::div_mod::lemma_fundamental_div_mod(n, d);
    vstd::arithmetic::div_mod::lemma_mod_division_less_than_divisor(n, d);
    if q > b {
        assert(d * q >= (b + 1) * d) by (nonlinear_arith)
            requires
                q >= b + 1,
                d > 0,
        ;
        assert(false);
    }
}

/// A multiple below the numerator bounds the quotient from below.
pub proof fn lemma_tdiv_lower(n: int, d: int, b: int)
    requires
        0 <= n,
        0 < d,
        b * d <= n,
    ensures
        b <= tdiv(n, d),
{
    let q = n / d;
    vstd::arithmetic::div_mod::lemma_fundamental_div_mod(n, d);
    vstd::arithmetic::div_mod::lemma_mod_division_less_than_divisor(n, d);
    if q < b {
        assert(d * q + d <= b * d) by (nonlinear_arith)
            requires
                q <= b - 1,
                d > 0,
        ;
        assert(false);
    }
}

/// A quotient pinned by bracketing multiples.
pub proof fn lemma_tdiv_concrete(n: int, d: int, q: int)
    requires
        0 <= n,
        0 < d,
        q * d <= n,
        n < (q + 1) * d,
    ensures
        tdiv(n, d) == q,
{
    lemma_tdiv_lower(n, d, q);
    lemma_tdiv_upper(n, d, q);
}

/// Dividing an exact multiple recovers the factor.
pub proof fn lemma_tdiv_exact(m: int, d: int)
    requires
        0 < d,
    ensures
        tdiv(m * d, d) == m,
{
    if m >= 0 {
        assert(m * d >= 0) by (nonlinear_arith)
            requires
                m >= 0,
                d > 0,
        ;
        vstd::arithmetic::div_mod::lemma_div_multiples_vanish(m, d);
        assert(m * d == d * m);
    } else {
        assert(m * d < 0) by (nonlinear_arith)
            requires
                m < 0,
                d > 0,
        ;
        assert(-(m * d) == (-m) * d) by (nonlinear_arith);
        vstd::arithmetic::div_mod::lemma_div_multiples_vanish(-m, d);
        assert((-m) * d == d * (-m));
    }
}

/// The magnitude of a product is the product of the magnitudes.
proof fn lemma_abs_mul(a: int, b: int, ma: int, mb: int)
    requires
        ma == if a < 0 { -a } else { a },
        mb == if b < 0 { -b } else { b },
    ensures
        ma >= 0,
        mb >= 0,
        a * b == if (a < 0) != (b < 0) { -(ma * mb) } else { ma * mb },
{
    assert(a * b == if (a < 0) != (b < 0) { -(ma * mb) } else { ma * mb })
        by (nonlinear_arith)
        requires
            ma == if a < 0 { -a } else { a },
            mb == if b < 0 { -b } else { b },
    ;
}

} // verus!
