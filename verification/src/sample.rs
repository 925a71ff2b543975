//! Audio samples as the codec takes them: the host's 32-bit samples brought
//! into the range from -1 to 1, in single precision.
//!
//! A sample is divided by the largest sample, both in single precision.
//! There the largest sample, 2 to the 31st less 1, is 2 to the 31st, so the
//! division only moves the exponent, and what is left to do is to round the
//! sample to the 24 significant bits of single precision. The result stands
//! here as the 32 bits of its single-precision number, so that every step
//! is integer arithmetic; whoever wants the number reads the bits as one.

use crate::timing::magnitude;
use vstd::arithmetic::power2::{
    lemma2_to64, lemma_pow2_pos, lemma_pow2_strictly_increases, lemma_pow2_subtracts,
    lemma_pow2_unfold, pow2,
};
use vstd::prelude::*;

verus! {

/// The bits of the fraction of a single-precision number.
pub const FRACTION_BITS: u32 = 23;

/// The smallest significand with its leading bit in place: 2 to the 23rd.
pub const HIDDEN_BIT: u64 = 0x80_0000;

/// The sign bit of a single-precision number.
pub const SIGN_BIT: u32 = 0x8000_0000;

/// The bits of the single-precision number 1.
pub const ONE_BITS: u32 = 0x3f80_0000;

/// What is added to the binary exponent of a sample's magnitude to give the
/// exponent field of the sample over 2 to the 31st: the bias of 127 less 31.
pub const EXPONENT_OFFSET: u64 = 96;

/// The place of the highest set bit of `a`: the largest `e` for which 2 to
/// the `e` is at most `a`.
pub open spec fn log2_floor(a: nat) -> nat
    decreases a,
{
    if a < 2 {
        0
    } else {
        1 + log2_floor(a / 2)
    }
}

/// `a` rounded to the nearest multiple of `unit`, a tie going to the even
/// multiple.
pub open spec fn round_half_even(a: nat, unit: nat) -> nat
    recommends
        unit > 0,
{
    let q = a / unit;
    let rest = a % unit;
    if 2 * rest > unit || (2 * rest == unit && q % 2 == 1) {
        (q + 1) * unit
    } else {
        q * unit
    }
}

/// The distance between neighbouring single-precision numbers at `a`: they
/// have 24 significant bits, so above 2 to the 24th not every integer is
/// one.
pub open spec fn spacing(a: nat) -> nat {
    let e = log2_floor(a);
    if e > FRACTION_BITS {
        pow2((e - FRACTION_BITS) as nat)
    } else {
        1
    }
}

/// The single-precision number nearest to the integer `a`, which is an
/// integer too.
pub open spec fn nearest_single(a: nat) -> nat {
    round_half_even(a, spacing(a))
}

/// The bits of the positive single-precision number `value` over 2 to the
/// 31st, for a `value` of at most 24 significant bits: the exponent field
/// above the 23 bits that follow the leading bit of `value`.
pub open spec fn scaled_bits(value: nat) -> nat
    recommends
        value > 0,
{
    let e = log2_floor(value);
    let significand = if e >= FRACTION_BITS {
        value / pow2((e - FRACTION_BITS) as nat)
    } else {
        value * pow2((FRACTION_BITS - e) as nat)
    };
    ((e + EXPONENT_OFFSET) * HIDDEN_BIT + (significand - HIDDEN_BIT)) as nat
}

/// The bits of the single-precision number nearest to `sample`, a tie going
/// to the even significand, over 2 to the 31st. The smallest sample gives
/// -1 and the largest 1.
pub open spec fn spec_pcm_to_float_bits(sample: i32) -> u32 {
    if sample == 0 {
        0
    } else {
        let bits = scaled_bits(nearest_single(magnitude(sample as int) as nat));
        if sample < 0 {
            (SIGN_BIT + bits) as u32
        } else {
            bits as u32
        }
    }
}

/// A number between 2 to the `e` and 2 to the `e + 1` has its highest bit
/// at place `e`.
pub proof fn lemma_log2_floor(a: nat, e: nat)
    requires
        pow2(e) <= a < pow2(e + 1),
    ensures
        log2_floor(a) == e,
    decreases e,
{
    lemma2_to64();
    if e == 0 {
        assert(a == 1);
    } else {
        lemma_pow2_unfold(e);
        lemma_pow2_unfold(e + 1);
        lemma_pow2_pos((e - 1) as nat);
        lemma_log2_floor(a / 2, (e - 1) as nat);
    }
}

/// Rounding moves a number by at most half a unit, and not out of the span
/// between the two multiples of the unit around it.
pub proof fn lemma_round_half_even(a: nat, unit: nat)
    requires
        unit > 0,
    ensures
        (a / unit) * unit <= round_half_even(a, unit) <= (a / unit) * unit + unit,
        2 * magnitude(round_half_even(a, unit) - a) <= unit,
        round_half_even(a, unit) % unit == 0,
{
    let q = a / unit;
    vstd::arithmetic::div_mod::lemma_fundamental_div_mod(a as int, unit as int);
    vstd::arithmetic::div_mod::lemma_mod_bound(a as int, unit as int);
    assert(unit * q == q * unit) by (nonlinear_arith);
    assert((q + 1) * unit == q * unit + unit) by (nonlinear_arith);
    vstd::arithmetic::div_mod::lemma_mod_multiples_basic(q as int, unit as int);
    vstd::arithmetic::div_mod::lemma_mod_multiples_basic(q as int + 1, unit as int);
}

/// Dividing a number between `k` units and twice as much by the unit gives
/// a quotient between `k` and twice `k`.
proof fn lemma_quotient_span(x: int, k: int, unit: int)
    requires
        unit > 0,
        k * unit <= x < 2 * (k * unit),
    ensures
        k <= x / unit < 2 * k,
{
    vstd::arithmetic::div_mod::lemma_fundamental_div_mod(x, unit);
    vstd::arithmetic::div_mod::lemma_mod_bound(x, unit);
    let q = x / unit;
    assert(k <= q) by (nonlinear_arith)
        requires
            unit > 0,
            k * unit <= x,
            x == unit * q + x % unit,
            0 <= x % unit < unit,
    ;
    assert(q < 2 * k) by (nonlinear_arith)
        requires
            unit > 0,
            x < 2 * (k * unit),
            x == unit * q + x % unit,
            0 <= x % unit < unit,
    ;
}

/// The highest power of two that is at most `a`, and its exponent.
fn top_bit(a: u64) -> (r: (u64, u32))
    requires
        0 < a <= 0x8000_0000,
    ensures
        r.0 == pow2(r.1 as nat),
        r.0 <= a < 2 * r.0,
        r.1 == log2_floor(a as nat),
        r.1 <= 31,
{
    let mut top: u64 = 1;
    let mut e: u32 = 0;
    proof {
        lemma2_to64();
    }
    while top * 2 <= a
        invariant
            top == pow2(e as nat),
            0 < top <= a <= 0x8000_0000,
            e <= 31,
        decreases a - top,
    {
        proof {
            lemma2_to64();
            lemma_pow2_unfold((e + 1) as nat);
            if e + 1 > 31 {
                lemma_pow2_strictly_increases(31, (e + 1) as nat);
            }
        }
        top = top * 2;
        e = e + 1;
    }
    proof {
        lemma_pow2_unfold((e + 1) as nat);
        lemma_log2_floor(a as nat, e as nat);
    }
    (top, e)
}

/// A power of two with at least 23 places is that many units of the power
/// that lies 23 places below it.
proof fn lemma_unit(top: u64, e: u32)
    requires
        top == pow2(e as nat),
        FRACTION_BITS <= e <= 32,
    ensures
        top / HIDDEN_BIT == pow2((e - FRACTION_BITS) as nat),
        top / HIDDEN_BIT > 0,
        top == HIDDEN_BIT * (top / HIDDEN_BIT),
{
    lemma2_to64();
    lemma_pow2_subtracts(23, e as nat);
    vstd::arithmetic::power2::lemma_pow2_adds((e - 23) as nat, 23);
    vstd::arithmetic::div_mod::lemma_mod_multiples_basic(
        pow2((e - 23) as nat) as int,
        HIDDEN_BIT as int,
    );
    vstd::arithmetic::div_mod::lemma_fundamental_div_mod(top as int, HIDDEN_BIT as int);
}

/// Rounds a magnitude to the nearest single-precision number.
fn round_to_single(a: u64, top: u64, e: u32) -> (rounded: u64)
    requires
        top == pow2(e as nat),
        0 < top <= a < 2 * top,
        a <= 0x8000_0000,
        e == log2_floor(a as nat),
        e <= 31,
    ensures
        rounded == nearest_single(a as nat),
        top <= rounded <= 2 * top,
        a == top ==> rounded == top,
{
    if e <= FRACTION_BITS {
        assert(round_half_even(a as nat, 1) == a) by {
            assert(a as nat / 1 == a && a as nat % 1 == 0);
            assert(a as nat * 1 == a) by (nonlinear_arith);
        }
        return a;
    }
    let unit = top / HIDDEN_BIT;
    proof {
        lemma_unit(top, e);
        lemma_round_half_even(a as nat, unit as nat);
        lemma_quotient_span(a as int, HIDDEN_BIT as int, unit as int);
        assert((a / unit) * unit >= HIDDEN_BIT * unit) by (nonlinear_arith)
            requires
                a / unit >= HIDDEN_BIT,
                unit > 0,
        ;
        assert((a / unit) * unit + unit <= 2 * (HIDDEN_BIT * unit)) by (nonlinear_arith)
            requires
                a / unit < 2 * HIDDEN_BIT,
                unit > 0,
        ;
        if a == top {
            assert(a % unit == 0 && a / unit == HIDDEN_BIT) by (nonlinear_arith)
                requires
                    a == HIDDEN_BIT * unit,
                    unit > 0,
            ;
        }
    }
    let q = a / unit;
    let rest = a % unit;
    assert((q + 1) * unit == q * unit + unit) by (nonlinear_arith);
    if 2 * rest > unit || (2 * rest == unit && q % 2 == 1) {
        (q + 1) * unit
    } else {
        q * unit
    }
}

/// Puts together the bits of a single-precision number over 2 to the 31st.
fn scale_to_bits(value: u64, top: u64, e: u32) -> (bits: u64)
    requires
        top == pow2(e as nat),
        0 < top <= value < 2 * top,
        e <= 31,
        e == 31 ==> value == top,
    ensures
        bits == scaled_bits(value as nat),
        bits <= ONE_BITS,
{
    proof {
        lemma2_to64();
        lemma_pow2_unfold((e + 1) as nat);
        lemma_log2_floor(value as nat, e as nat);
    }
    let significand: u64 = if e >= FRACTION_BITS {
        let unit = top / HIDDEN_BIT;
        proof {
            lemma_unit(top, e);
            lemma_quotient_span(value as int, HIDDEN_BIT as int, unit as int);
            if e == 31 {
                assert(value / unit == HIDDEN_BIT) by (nonlinear_arith)
                    requires
                        value == HIDDEN_BIT * unit,
                        unit > 0,
                ;
            }
        }
        value / unit
    } else {
        let scale = HIDDEN_BIT / top;
        proof {
            lemma_pow2_subtracts(e as nat, 23);
            vstd::arithmetic::power2::lemma_pow2_adds((23 - e) as nat, e as nat);
            assert(scale * top == HIDDEN_BIT);
            assert(HIDDEN_BIT <= value * scale < 2 * HIDDEN_BIT) by (nonlinear_arith)
                requires
                    top <= value < 2 * top,
                    scale * top == HIDDEN_BIT,
                    scale > 0,
            ;
        }
        value * scale
    };
    (e as u64 + EXPONENT_OFFSET) * HIDDEN_BIT + (significand - HIDDEN_BIT)
}

/// Brings a sample into the range from -1 to 1: gives the bits of the
/// sample over the largest sample, in single precision.
///
/// The number has the sign of the sample, and its magnitude is never above
/// 1: no sample leaves the range.
pub fn pcm_to_float_bits(sample: i32) -> (bits: u32)
    ensures
        bits == spec_pcm_to_float_bits(sample),
        bits >= SIGN_BIT <==> sample < 0,
        bits % SIGN_BIT <= ONE_BITS,
{
    if sample == 0 {
        return 0;
    }
    let a: u64 = if sample < 0 {
        (-(sample as i64)) as u64
    } else {
        sample as u64
    };
    let (top, e) = top_bit(a);
    let rounded = round_to_single(a, top, e);
    let bumped = rounded >= 2 * top;
    proof {
        lemma2_to64();
        lemma_pow2_unfold((e + 1) as nat);
    }
    let bits = if bumped {
        scale_to_bits(rounded, 2 * top, e + 1)
    } else {
        scale_to_bits(rounded, top, e)
    };
    if sample < 0 {
        (SIGN_BIT as u64 + bits) as u32
    } else {
        bits as u32
    }
}

/// Brings a block of samples into the range from -1 to 1, each as
/// [`pcm_to_float_bits`] does, in their order.
pub fn pcm_block_to_float_bits(samples: &[i32]) -> (bits: Vec<u32>)
    ensures
        bits@.len() == samples@.len(),
        forall|i: int|
            0 <= i < samples@.len() ==> bits@[i] == spec_pcm_to_float_bits(#[trigger] samples@[i]),
{
    let n = samples.len();
    let mut bits: Vec<u32> = Vec::new();
    let mut i: usize = 0;
    while i < n
        invariant
            i <= n,
            n == samples@.len(),
            bits@.len() == i,
            forall|j: int|
                0 <= j < i ==> bits@[j] == spec_pcm_to_float_bits(#[trigger] samples@[j]),
        decreases n - i,
    {
        bits.push(pcm_to_float_bits(samples[i]));
        i += 1;
    }
    bits
}

/// Full scale comes out as full scale: the smallest sample is exactly -1,
/// the largest exactly 1, and silence is 0.
pub proof fn lemma_full_scale()
    ensures
        spec_pcm_to_float_bits(i32::MIN) == SIGN_BIT + ONE_BITS,
        spec_pcm_to_float_bits(i32::MAX) == ONE_BITS,
        spec_pcm_to_float_bits(0) == 0,
{
    lemma2_to64();
    lemma_log2_floor(0x8000_0000, 31);
    lemma_log2_floor(0x7fff_ffff, 30);
    assert(pow2(8) == 256 && pow2(7) == 128);
    assert(0x8000_0000nat / 256 == 0x80_0000 && 0x8000_0000nat % 256 == 0) by (nonlinear_arith);
    assert(0x80_0000nat * 256 == 0x8000_0000) by (nonlinear_arith);
    assert(round_half_even(0x8000_0000, 256) == 0x8000_0000);
    assert(0x7fff_ffffnat / 128 == 0xff_ffff && 0x7fff_ffffnat % 128 == 127) by (nonlinear_arith);
    assert((0xff_ffffnat + 1) * 128 == 0x8000_0000) by (nonlinear_arith);
    assert(round_half_even(0x7fff_ffff, 128) == 0x8000_0000);
    assert((31 + 96) * 0x80_0000 == 0x3f80_0000int) by (nonlinear_arith);
}

/// The exponent field of the single-precision number of 2 to the 31st
/// times its smallest significand: from this field on, the number times 2
/// to the 31st is a whole multiple of its significand.
pub const INTEGER_FIELD: u64 = 119;

/// What the bits of a positive single-precision number stand for, times 2
/// to the 31st and cut to a whole number: the significand, which is the
/// fraction with the hidden bit before it, moved by as many places as the
/// exponent field says.
pub open spec fn scaled_value(bits: nat) -> nat {
    let field = bits / (HIDDEN_BIT as nat);
    let significand = (HIDDEN_BIT + bits % (HIDDEN_BIT as nat)) as nat;
    if field >= INTEGER_FIELD {
        significand * pow2((field - INTEGER_FIELD) as nat)
    } else {
        significand / pow2((INTEGER_FIELD - field) as nat)
    }
}

/// A number has its highest bit where [`log2_floor`] says.
pub proof fn lemma_log2_floor_bounds(a: nat)
    requires
        a > 0,
    ensures
        pow2(log2_floor(a)) <= a < pow2(log2_floor(a) + 1),
    decreases a,
{
    lemma2_to64();
    if a >= 2 {
        lemma_log2_floor_bounds(a / 2);
        lemma_pow2_unfold(log2_floor(a));
        lemma_pow2_unfold(log2_floor(a) + 1);
    }
}

/// A number of at most 32 bits has its highest bit at one of the places
/// from 0 to 31.
proof fn lemma_highest_bit(value: nat)
    requires
        0 < value <= 0x8000_0000,
    ensures
        log2_floor(value) <= 31,
        pow2(log2_floor(value)) <= value < 2 * pow2(log2_floor(value)),
        pow2(log2_floor(value) + 1) == 2 * pow2(log2_floor(value)),
        log2_floor(value) == 31 ==> value == pow2(31) == 0x8000_0000,
{
    lemma2_to64();
    lemma_log2_floor_bounds(value);
    let e = log2_floor(value);
    if e > 31 {
        lemma_pow2_strictly_increases(31, e);
    }
    lemma_pow2_unfold(e + 1);
}

/// A number whose highest bit is at place 23 or above holds between 2 to
/// the 23rd and 2 to the 24th of the units that lie 23 places below that
/// bit: cut to whole units, it is a significand.
proof fn lemma_wide_significand(value: nat, e: nat)
    requires
        FRACTION_BITS <= e,
        pow2(e) <= value < 2 * pow2(e),
    ensures
        pow2((e - FRACTION_BITS) as nat) > 0,
        pow2(e) == HIDDEN_BIT * pow2((e - FRACTION_BITS) as nat),
        HIDDEN_BIT <= value / pow2((e - FRACTION_BITS) as nat) < 2 * HIDDEN_BIT,
{
    lemma2_to64();
    let unit = pow2((e - FRACTION_BITS) as nat);
    lemma_pow2_pos((e - FRACTION_BITS) as nat);
    vstd::arithmetic::power2::lemma_pow2_adds((e - 23) as nat, 23);
    assert(pow2(e) == HIDDEN_BIT * unit) by (nonlinear_arith)
        requires
            pow2(e) == unit * pow2(23),
            pow2(23) == HIDDEN_BIT,
    ;
    lemma_quotient_span(value as int, HIDDEN_BIT as int, unit as int);
}

/// A number whose highest bit is below place 23 becomes a significand when
/// that bit is moved up to place 23.
proof fn lemma_narrow_significand(value: nat, e: nat)
    requires
        e < FRACTION_BITS,
        pow2(e) <= value < 2 * pow2(e),
    ensures
        pow2((FRACTION_BITS - e) as nat) > 0,
        pow2((FRACTION_BITS - e) as nat) * pow2(e) == HIDDEN_BIT,
        HIDDEN_BIT <= value * pow2((FRACTION_BITS - e) as nat) < 2 * HIDDEN_BIT,
{
    lemma2_to64();
    let scale = pow2((FRACTION_BITS - e) as nat);
    let top = pow2(e);
    lemma_pow2_pos((FRACTION_BITS - e) as nat);
    vstd::arithmetic::power2::lemma_pow2_adds((23 - e) as nat, e);
    assert(HIDDEN_BIT <= value * scale < 2 * HIDDEN_BIT) by (nonlinear_arith)
        requires
            top <= value < 2 * top,
            scale * top == HIDDEN_BIT,
            scale > 0,
    ;
}

/// The bits stand for the number that they were made from: a number of at
/// most 24 significant bits is what [`scaled_value`] reads out of its
/// [`scaled_bits`].
pub proof fn lemma_bits_denote(value: nat)
    requires
        0 < value <= 0x8000_0000,
        value % spacing(value) == 0,
    ensures
        scaled_value(scaled_bits(value)) == value,
{
    lemma2_to64();
    lemma_highest_bit(value);
    let e = log2_floor(value);
    let top = pow2(e);
    if e >= FRACTION_BITS {
        let unit = pow2((e - FRACTION_BITS) as nat);
        lemma_wide_significand(value, e);
        let significand = value / unit;
        let bits = scaled_bits(value);
        assert(bits == (e + EXPONENT_OFFSET) * HIDDEN_BIT + (significand - HIDDEN_BIT));
        vstd::arithmetic::div_mod::lemma_fundamental_div_mod_converse(
            bits as int,
            HIDDEN_BIT as int,
            (e + EXPONENT_OFFSET) as int,
            significand - HIDDEN_BIT,
        );
        vstd::arithmetic::div_mod::lemma_fundamental_div_mod(value as int, unit as int);
        if e > FRACTION_BITS {
            assert(value % unit == 0);
        } else {
            assert(unit == 1);
            assert(value % 1 == 0);
        }
        assert(significand * unit == value) by (nonlinear_arith)
            requires
                value == unit * significand + value % unit,
                value % unit == 0,
        ;
    } else {
        let scale = pow2((FRACTION_BITS - e) as nat);
        lemma_narrow_significand(value, e);
        let significand = value * scale;
        let bits = scaled_bits(value);
        assert(bits == (e + EXPONENT_OFFSET) * HIDDEN_BIT + (significand - HIDDEN_BIT));
        vstd::arithmetic::div_mod::lemma_fundamental_div_mod_converse(
            bits as int,
            HIDDEN_BIT as int,
            (e + EXPONENT_OFFSET) as int,
            significand - HIDDEN_BIT,
        );
        assert(INTEGER_FIELD - (e + EXPONENT_OFFSET) == FRACTION_BITS - e);
        vstd::arithmetic::div_mod::lemma_div_multiples_vanish(value as int, scale as int);
        assert(value * scale == scale * value) by (nonlinear_arith);
    }
}

/// The nearest single-precision number is at most half a spacing away, has
/// no more than 24 significant bits, and is no larger than 2 to the 31st
/// where the number is not.
pub proof fn lemma_nearest_single(a: nat)
    requires
        0 < a <= 0x8000_0000,
    ensures
        2 * magnitude(nearest_single(a) - a) <= spacing(a),
        0 < nearest_single(a) <= 0x8000_0000,
        nearest_single(a) % spacing(nearest_single(a)) == 0,
        a % spacing(a) == 0 ==> nearest_single(a) == a,
{
    lemma2_to64();
    lemma_highest_bit(a);
    let e = log2_floor(a);
    let top = pow2(e);
    let rounded = nearest_single(a);
    if e <= FRACTION_BITS {
        assert(a / 1 == a && a % 1 == 0);
        assert(a * 1 == a) by (nonlinear_arith);
        assert(rounded == a);
        assert(rounded % 1 == 0);
    } else {
        let unit = pow2((e - FRACTION_BITS) as nat);
        lemma_wide_significand(a, e);
        lemma_round_half_even(a, unit);
        assert((a / unit) * unit >= HIDDEN_BIT * unit) by (nonlinear_arith)
            requires
                a / unit >= HIDDEN_BIT,
                unit > 0,
        ;
        assert((a / unit) * unit + unit <= 2 * (HIDDEN_BIT * unit)) by (nonlinear_arith)
            requires
                a / unit < 2 * HIDDEN_BIT,
                unit > 0,
        ;
        assert(top <= rounded <= 2 * top);
        if a % unit == 0 {
            vstd::arithmetic::div_mod::lemma_fundamental_div_mod(a as int, unit as int);
            assert((a / unit) * unit == unit * (a / unit)) by (nonlinear_arith);
        }
        if e == 31 {
            assert(a == top);
            assert(a % unit == 0 && a / unit == HIDDEN_BIT) by (nonlinear_arith)
                requires
                    a == HIDDEN_BIT * unit,
                    unit > 0,
            ;
            assert(rounded == a);
        }
        if rounded < 2 * top {
            lemma_log2_floor(rounded, e);
        } else {
            lemma_pow2_unfold(e + 2);
            lemma_log2_floor(rounded, e + 1);
            lemma_pow2_unfold((e + 1 - FRACTION_BITS) as nat);
            assert(rounded == HIDDEN_BIT * (2 * unit)) by (nonlinear_arith)
                requires
                    rounded == 2 * top,
                    top == HIDDEN_BIT * unit,
            ;
            vstd::arithmetic::div_mod::lemma_mod_multiples_basic(HIDDEN_BIT as int, (2 * unit) as int);
            assert(HIDDEN_BIT * (2 * unit) == (HIDDEN_BIT as int) * (2 * unit));
        }
    }
}

/// The bits of a number that is no larger than 2 to the 31st are no larger
/// than those of 1.
pub proof fn lemma_scaled_bits_bound(value: nat)
    requires
        0 < value <= 0x8000_0000,
    ensures
        scaled_bits(value) <= ONE_BITS,
{
    lemma_highest_bit(value);
    let e = log2_floor(value);
    let top = pow2(e);
    if e >= FRACTION_BITS {
        let unit = pow2((e - FRACTION_BITS) as nat);
        lemma_wide_significand(value, e);
        if e == 31 {
            assert(value / unit == HIDDEN_BIT) by (nonlinear_arith)
                requires
                    value == HIDDEN_BIT * unit,
                    unit > 0,
            ;
        }
    } else {
        lemma_narrow_significand(value, e);
    }
}

/// The sample that the bits of a single-precision number between -1 and 1
/// stand for: the number times 2 to the 31st, cut to a whole number and
/// held to the range of the samples.
pub open spec fn requantized(bits: u32) -> i32 {
    let value = scaled_value((bits % SIGN_BIT) as nat);
    if bits >= SIGN_BIT {
        if value > 0x8000_0000 {
            i32::MIN
        } else {
            (-value) as i32
        }
    } else {
        if value > i32::MAX {
            i32::MAX
        } else {
            value as i32
        }
    }
}

/// Bringing a sample into the range from -1 to 1 and back gives the sample
/// again wherever the sample is a single-precision number, and else a
/// sample at most half a spacing away. Full scale comes back as full scale:
/// the largest sample, which goes to exactly 1, comes back as the largest
/// sample and not as one beyond the range.
pub proof fn lemma_round_trip(sample: i32)
    requires
        sample != 0,
    ensures
        2 * magnitude(requantized(spec_pcm_to_float_bits(sample)) - sample) <= spacing(
            magnitude(sample as int) as nat,
        ),
        magnitude(sample as int) % (spacing(magnitude(sample as int) as nat) as int) == 0
            ==> requantized(spec_pcm_to_float_bits(sample)) == sample,
        sample == i32::MAX ==> requantized(spec_pcm_to_float_bits(sample)) == i32::MAX,
        sample == i32::MIN ==> requantized(spec_pcm_to_float_bits(sample)) == i32::MIN,
{
    let a = magnitude(sample as int) as nat;
    let rounded = nearest_single(a);
    lemma_nearest_single(a);
    lemma_scaled_bits_bound(rounded);
    lemma_bits_denote(rounded);
    let bits = scaled_bits(rounded);
    assert(spec_pcm_to_float_bits(sample) % SIGN_BIT == bits);
    lemma2_to64();
    lemma_pow2_pos((log2_floor(a) - FRACTION_BITS) as nat);
    if sample == i32::MAX {
        lemma_full_scale();
        assert(rounded > i32::MAX) by {
            lemma_log2_floor(0x7fff_ffff, 30);
            assert(0x7fff_ffffnat / 128 == 0xff_ffff && 0x7fff_ffffnat % 128 == 127)
                by (nonlinear_arith);
            assert((0xff_ffffnat + 1) * 128 == 0x8000_0000) by (nonlinear_arith);
        }
    }
    if sample == i32::MIN {
        lemma_log2_floor(0x8000_0000, 31);
        assert(0x8000_0000nat % 256 == 0) by (nonlinear_arith);
    }
}

} // verus!
