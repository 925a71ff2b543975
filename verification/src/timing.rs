//! Exact rational arithmetic on timestamps.

use vstd::prelude::*;

verus! {

/// The magnitude of an integer.
pub open spec fn magnitude(x: int) -> int {
    if x < 0 {
        -x
    } else {
        x
    }
}

/// The quotient `n / d` rounded to the nearest integer, a tie going away
/// from zero.
pub open spec fn round_div(n: int, d: int) -> int
    recommends
        d != 0,
{
    let q = (2 * magnitude(n) + magnitude(d)) / (2 * magnitude(d));
    if (n < 0) != (d < 0) {
        -q
    } else {
        q
    }
}

/// The value of `x` limited to what a signed 64-bit integer holds.
pub open spec fn clamp_i64(x: int) -> int {
    if x < i64::MIN {
        i64::MIN as int
    } else if x > i64::MAX {
        i64::MAX as int
    } else {
        x
    }
}

/// `round_div(n, d)` is an integer nearest to the exact quotient: it lies
/// within one half of `n / d`.
pub proof fn lemma_round_div_is_nearest(n: int, d: int)
    requires
        d != 0,
    ensures
        magnitude(2 * (round_div(n, d) * d) - 2 * n) <= magnitude(d),
{
    let a = magnitude(n);
    let b = magnitude(d);
    let q = (2 * a + b) / (2 * b);
    lemma_floor_bounds(2 * a + b, 2 * b);
    assert(q * (2 * b) == 2 * (q * b)) by (nonlinear_arith);
    let r = round_div(n, d);
    assert(r * d == if n < 0 { -(q * b) } else { q * b }) by (nonlinear_arith)
        requires
            b == magnitude(d),
            d != 0,
            r == (if (n < 0) != (d < 0) { -q } else { q }),
    ;
}

/// Floor division brackets its dividend.
pub proof fn lemma_floor_bounds(x: int, m: int)
    requires
        m > 0,
    ensures
        (x / m) * m <= x < (x / m) * m + m,
{
    vstd::arithmetic::div_mod::lemma_fundamental_div_mod(x, m);
    vstd::arithmetic::div_mod::lemma_mod_bound(x, m);
    assert((x / m) * m == m * (x / m)) by (nonlinear_arith);
}

/// For a positive divisor, rounding keeps the order of the dividends.
pub proof fn lemma_round_div_monotonic(n1: int, n2: int, d: int)
    requires
        n1 <= n2,
        d > 0,
    ensures
        round_div(n1, d) <= round_div(n2, d),
{
    let q1 = (2 * magnitude(n1) + d) / (2 * d);
    let q2 = (2 * magnitude(n2) + d) / (2 * d);
    vstd::arithmetic::div_mod::lemma_div_pos_is_pos(2 * magnitude(n1) + d, 2 * d);
    vstd::arithmetic::div_mod::lemma_div_pos_is_pos(2 * magnitude(n2) + d, 2 * d);
    if n1 >= 0 {
        vstd::arithmetic::div_mod::lemma_div_is_ordered(2 * n1 + d, 2 * n2 + d, 2 * d);
    } else if n2 < 0 {
        vstd::arithmetic::div_mod::lemma_div_is_ordered(2 * (-n2) + d, 2 * (-n1) + d, 2 * d);
    }
}

/// A dividend that is an exact multiple of the divisor is not moved by
/// rounding.
pub proof fn lemma_round_div_exact(k: int, d: int)
    requires
        d != 0,
    ensures
        round_div(k * d, d) == k,
{
    let a = magnitude(k * d);
    let b = magnitude(d);
    let m = magnitude(k);
    assert(a == m * b) by (nonlinear_arith)
        requires
            a == magnitude(k * d),
            b == magnitude(d),
            m == magnitude(k),
    ;
    assert(2 * a + b == m * (2 * b) + b) by (nonlinear_arith)
        requires
            a == m * b,
    ;
    vstd::arithmetic::div_mod::lemma_fundamental_div_mod_converse(2 * a + b, 2 * b, m, b);
    assert(((k * d) < 0) == ((k < 0) != (d < 0)) || k == 0) by (nonlinear_arith)
        requires
            d != 0,
    ;
}

/// A rational number as the codec library writes it: a numerator over a
/// denominator.
#[derive(Clone, Copy, Debug, PartialEq, Eq, Structural)]
pub struct Rational {
    pub num: i32,
    pub den: i32,
}

impl Rational {
    /// Both terms are positive: the only rationals that can be a time base.
    pub open spec fn is_positive(self) -> bool {
        self.num > 0 && self.den > 0
    }

    /// Whether this rational can serve as a time base.
    pub fn positive(&self) -> (r: bool)
        ensures
            r == self.is_positive(),
    {
        self.num > 0 && self.den > 0
    }
}

/// The tick count `ts` of time base `from` expressed in time base `to`:
/// `ts * from / to`, rounded to the nearest tick, a tie going away from zero.
pub open spec fn rescaled(ts: int, from: Rational, to: Rational) -> int
    recommends
        from.is_positive(),
        to.is_positive(),
{
    round_div(ts * (from.num * to.den), from.den * to.num)
}

/// What [`rescale`] returns: the rescaled tick count where both time bases
/// are positive and the result fits in 64 bits, nothing otherwise.
pub open spec fn spec_rescale(ts: i64, from: Rational, to: Rational) -> Option<i64> {
    let r = rescaled(ts as int, from, to);
    if from.is_positive() && to.is_positive() && i64::MIN <= r <= i64::MAX {
        Some(r as i64)
    } else {
        None
    }
}

/// `(2 * a + b) / (2 * b)`, the rounded quotient of two magnitudes.
pub(crate) fn rounded_quotient(a: u128, b: u128) -> (q: u128)
    requires
        0 < b <= 0x8000_0000_0000_0000,
        a <= 0x4000_0000_0000_0000_0000_0000_0000_0000,
    ensures
        q == (2 * a + b) / (2 * b),
{
    (2 * a + b) / (2 * b)
}

/// Moves a timestamp from one time base to another.
///
/// Returns `None` when either time base is not positive or the result does
/// not fit in a signed 64-bit integer.
pub fn rescale(ts: i64, from: Rational, to: Rational) -> (out: Option<i64>)
    ensures
        out == spec_rescale(ts, from, to),
{
    if !from.positive() || !to.positive() {
        return None;
    }
    assert(0 < from.num * to.den <= 0x4000_0000_0000_0000 && 0 < from.den * to.num
        <= 0x4000_0000_0000_0000) by (nonlinear_arith)
        requires
            0 < from.num <= 0x7fff_ffff,
            0 < from.den <= 0x7fff_ffff,
            0 < to.num <= 0x7fff_ffff,
            0 < to.den <= 0x7fff_ffff,
    ;
    let scale: i128 = (from.num as i128) * (to.den as i128);
    let divisor: i128 = (from.den as i128) * (to.num as i128);
    assert(-0x2000_0000_0000_0000_0000_0000_0000_0000 <= ts * scale
        <= 0x2000_0000_0000_0000_0000_0000_0000_0000) by (nonlinear_arith)
        requires
            0 < scale <= 0x4000_0000_0000_0000,
            -0x8000_0000_0000_0000 <= ts <= 0x7fff_ffff_ffff_ffff,
    ;
    let dividend: i128 = (ts as i128) * scale;
    let negative = dividend < 0;
    let a: u128 = if negative {
        (-dividend) as u128
    } else {
        dividend as u128
    };
    let q = rounded_quotient(a, divisor as u128);
    if negative {
        if q > 0x8000_0000_0000_0000 {
            None
        } else {
            Some((-(q as i128)) as i64)
        }
    } else {
        if q > 0x7fff_ffff_ffff_ffff {
            None
        } else {
            Some(q as i64)
        }
    }
}

/// Rescaling between positive time bases keeps the order of timestamps.
pub proof fn lemma_rescaled_monotonic(a: int, b: int, from: Rational, to: Rational)
    requires
        a <= b,
        from.is_positive(),
        to.is_positive(),
    ensures
        rescaled(a, from, to) <= rescaled(b, from, to),
{
    let scale = from.num * to.den;
    let divisor = from.den * to.num;
    assert(scale > 0 && divisor > 0) by (nonlinear_arith)
        requires
            scale == from.num * to.den,
            divisor == from.den * to.num,
            from.num > 0,
            from.den > 0,
            to.num > 0,
            to.den > 0,
    ;
    assert(a * scale <= b * scale) by (nonlinear_arith)
        requires
            a <= b,
            scale > 0,
    ;
    lemma_round_div_monotonic(a * scale, b * scale, divisor);
}

/// Rescaling into the same time base changes nothing.
pub proof fn lemma_rescaled_identity(ts: int, base: Rational)
    requires
        base.is_positive(),
    ensures
        rescaled(ts, base, base) == ts,
{
    assert(base.den * base.num != 0) by (nonlinear_arith)
        requires
            base.num > 0,
            base.den > 0,
    ;
    lemma_round_div_exact(ts, base.den * base.num);
}

/// Where two timestamps in one time base are both moved into another, they
/// keep their order.
pub proof fn lemma_rescale_keeps_order(a: i64, b: i64, from: Rational, to: Rational)
    requires
        a <= b,
    ensures
        spec_rescale(a, from, to) matches Some(x) ==> (spec_rescale(b, from, to) matches Some(y)
            ==> x <= y),
{
    if from.is_positive() && to.is_positive() {
        lemma_rescaled_monotonic(a as int, b as int, from, to);
    }
}

} // verus!
