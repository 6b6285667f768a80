//! Measurements are floating-point numbers.  The library carries each one as
//! its IEEE-754 binary64 bit pattern (the value that `f64::to_bits` returns)
//! and compares patterns here with the meaning of the floating-point
//! comparison operators: a NaN compares false with everything, `-0.0` equals
//! `+0.0`, and every other pair is ordered by sign and magnitude.
use vstd::prelude::*;

use vstd::arithmetic::power2::{lemma2_to64, lemma2_to64_rest, lemma_pow2_adds, lemma_pow2_pos, lemma_pow2_strictly_increases, lemma_pow2_unfold, pow2};

verus! {

/// 2^63: the sign bit of a binary64 pattern.
pub const SIGN_BIT: u64 = 0x8000_0000_0000_0000;

/// The pattern of positive infinity; every larger magnitude is a NaN.
pub const INFINITY_MAGNITUDE: u64 = 0x7ff0_0000_0000_0000;

/// Whether the sign bit of the pattern is set.
pub open spec fn sign_set(bits: u64) -> bool {
    bits >= SIGN_BIT
}

/// The pattern without its sign bit.
pub open spec fn magnitude(bits: u64) -> int {
    if sign_set(bits) {
        bits - SIGN_BIT
    } else {
        bits as int
    }
}

/// A NaN has an all-ones exponent and a non-zero fraction.
pub open spec fn is_nan_bits(bits: u64) -> bool {
    magnitude(bits) > INFINITY_MAGNITUDE
}

/// A finite value has an exponent that is not all ones.
pub open spec fn is_finite_bits(bits: u64) -> bool {
    magnitude(bits) < INFINITY_MAGNITUDE
}

/// Position of a non-NaN value on the number line: binary64 magnitudes grow
/// with their bit patterns, and both zeros share the key 0.
pub open spec fn order_key(bits: u64) -> int {
    if sign_set(bits) {
        -magnitude(bits)
    } else {
        magnitude(bits)
    }
}

/// `a >= b` on the values the patterns encode.
pub open spec fn float_ge(a: u64, b: u64) -> bool {
    !is_nan_bits(a) && !is_nan_bits(b) && order_key(a) >= order_key(b)
}

/// `a > b` on the values the patterns encode.
pub open spec fn float_gt(a: u64, b: u64) -> bool {
    !is_nan_bits(a) && !is_nan_bits(b) && order_key(a) > order_key(b)
}

/// `a <= b` on the values the patterns encode.
pub open spec fn float_le(a: u64, b: u64) -> bool {
    float_ge(b, a)
}

/// `a == b` on the values the patterns encode.
pub open spec fn float_eq(a: u64, b: u64) -> bool {
    !is_nan_bits(a) && !is_nan_bits(b) && order_key(a) == order_key(b)
}

/// `a != b` on optional values, as `Option<f64>` compares them.
pub open spec fn option_float_ne(a: Option<u64>, b: Option<u64>) -> bool {
    match (a, b) {
        (Some(x), Some(y)) => !float_eq(x, y),
        (None, None) => false,
        _ => true,
    }
}

fn magnitude_of(bits: u64) -> (m: u64)
    ensures
        m == magnitude(bits),
        m < SIGN_BIT,
{
    if bits >= SIGN_BIT {
        bits - SIGN_BIT
    } else {
        bits
    }
}

/// `f64::is_finite` on a bit pattern.
pub fn is_finite_value(bits: u64) -> (finite: bool)
    ensures
        finite == is_finite_bits(bits),
{
    magnitude_of(bits) < INFINITY_MAGNITUDE
}

fn is_nan_value(bits: u64) -> (nan: bool)
    ensures
        nan == is_nan_bits(bits),
{
    magnitude_of(bits) > INFINITY_MAGNITUDE
}

fn value_key(bits: u64) -> (key: i64)
    ensures
        key == order_key(bits),
{
    let m = magnitude_of(bits);
    if bits >= SIGN_BIT {
        -(m as i64)
    } else {
        m as i64
    }
}

/// `a >= b` on the floating-point values of two patterns.
pub fn value_ge(a: u64, b: u64) -> (r: bool)
    ensures
        r == float_ge(a, b),
{
    !is_nan_value(a) && !is_nan_value(b) && value_key(a) >= value_key(b)
}

/// `a > b` on the floating-point values of two patterns.
pub fn value_gt(a: u64, b: u64) -> (r: bool)
    ensures
        r == float_gt(a, b),
{
    !is_nan_value(a) && !is_nan_value(b) && value_key(a) > value_key(b)
}

/// `a <= b` on the floating-point values of two patterns.
pub fn value_le(a: u64, b: u64) -> (r: bool)
    ensures
        r == float_le(a, b),
{
    value_ge(b, a)
}

/// `a != b` on two optional floating-point values.
pub fn option_value_ne(a: Option<u64>, b: Option<u64>) -> (r: bool)
    ensures
        r == option_float_ne(a, b),
{
    match (a, b) {
        (Some(x), Some(y)) => !(!is_nan_value(x) && !is_nan_value(y) && value_key(x) == value_key(
            y,
        )),
        (None, None) => false,
        _ => true,
    }
}

/// On values that are not NaN the comparisons form a total preorder whose
/// ties are exactly the equal values, as on the real numbers.
pub proof fn lemma_comparisons_are_a_total_order(a: u64, b: u64, c: u64)
    requires
        !is_nan_bits(a),
        !is_nan_bits(b),
        !is_nan_bits(c),
    ensures
        float_ge(a, b) || float_ge(b, a),
        float_ge(a, b) && float_ge(b, a) <==> float_eq(a, b),
        float_ge(a, b) && float_ge(b, c) ==> float_ge(a, c),
        float_gt(a, b) <==> !float_ge(b, a),
        float_ge(a, a),
{
}

/// A NaN is neither above, below nor equal to anything, itself included.
pub proof fn lemma_nan_is_unordered(a: u64, b: u64)
    requires
        is_nan_bits(a),
    ensures
        !float_ge(a, b),
        !float_ge(b, a),
        !float_gt(a, b),
        !float_gt(b, a),
        !float_eq(a, b),
{
}

/// Positive and negative zero compare equal.
pub proof fn lemma_signed_zeros_are_equal()
    ensures
        float_eq(0, SIGN_BIT),
{
}


// ---------------------------------------------------------------------------
// Integers as binary64 values (`v as f64`).
/// ⌊log₂ v⌋ for a positive `v`.
pub open spec fn log2_floor(v: nat) -> nat
    decreases v,
{
    if v < 2 {
        0
    } else {
        1 + log2_floor(v / 2)
    }
}

/// `v` lies between the power of two of its ⌊log₂⌋ and the next one.
pub proof fn lemma_log2_floor_bounds(v: nat)
    requires
        v >= 1,
    ensures
        pow2(log2_floor(v)) <= v < pow2(log2_floor(v) + 1),
    decreases v,
{
    lemma2_to64();
    if v >= 2 {
        lemma_log2_floor_bounds(v / 2);
        let e = log2_floor(v / 2);
        lemma_pow2_unfold(e + 1);
        lemma_pow2_unfold(e + 2);
    }
}

/// The value an integer takes as a binary64 number (`v as f64`): `v` itself
/// below 2^53, else the nearest multiple of the unit in the last place,
/// ties going to an even significand.
pub open spec fn f64_rounded(v: nat) -> nat {
    if v < pow2(53) {
        v
    } else {
        let unit = pow2((log2_floor(v) - 52) as nat);
        let q = v / unit;
        let r = v % unit;
        if r > unit / 2 || (r == unit / 2 && q % 2 == 1) {
            (q + 1) * unit
        } else {
            q * unit
        }
    }
}

/// The binary64 bit pattern of an integer value (`(v as f64).to_bits()`):
/// the biased exponent of the rounded value followed by its 52 fraction bits.
pub open spec fn integer_bits(v: nat) -> nat {
    if v == 0 {
        0
    } else {
        let r = f64_rounded(v);
        let e = log2_floor(r);
        let significand = if e <= 52 {
            r * pow2((52 - e) as nat)
        } else {
            r / pow2((e - 52) as nat)
        };
        ((1023 + e) * pow2(52) + significand - pow2(52)) as nat
    }
}

fn power_of_two(n: u32) -> (p: u128)
    requires
        n <= 64,
    ensures
        p == pow2(n as nat),
{
    let mut p: u128 = 1;
    let mut k: u32 = 0;
    proof {
        lemma2_to64();
        lemma2_to64_rest();
    }
    while k < n
        invariant
            k <= n <= 64,
            p == pow2(k as nat),
            pow2(64) == 0x1_0000_0000_0000_0000,
        decreases n - k,
    {
        proof {
            lemma_pow2_unfold((k + 1) as nat);
            if k + 1 < 64 {
                lemma_pow2_strictly_increases((k + 1) as nat, 64);
            }
        }
        p = p * 2;
        k = k + 1;
    }
    p
}

fn log2_of(v: u128) -> (e: u32)
    requires
        v >= 1,
    ensures
        e == log2_floor(v as nat),
        e < 128,
{
    let mut q = v;
    let mut e: u32 = 0;
    proof {
        let l = log2_floor(v as nat);
        lemma_log2_floor_bounds(v as nat);
        if l >= 128 {
            lemma2_to64_rest();
            lemma_pow2_adds(64, 64);
            if l > 128 {
                lemma_pow2_strictly_increases(128, l);
            }
        }
    }
    while q >= 2
        invariant
            q >= 1,
            e + log2_floor(q as nat) == log2_floor(v as nat),
            log2_floor(v as nat) < 128,
        decreases q,
    {
        q = q / 2;
        e = e + 1;
    }
    e
}

/// The value an integer takes as a binary64 number (see `f64_rounded`).
pub fn rounded_as_f64(v: u64) -> (r: u128)
    ensures
        r == f64_rounded(v as nat),
        r <= 0x1_0000_0000_0000_0000,
        v > 0 ==> r > 0,
{
    proof {
        lemma2_to64();
        lemma2_to64_rest();
    }
    if (v as u128) < power_of_two(53) {
        return v as u128;
    }
    let e = log2_of(v as u128);
    proof {
        lemma_log2_floor_bounds(v as nat);
        if e > 63 {
            lemma_pow2_strictly_increases(64, e as nat);
        }
        if e < 53 {
            lemma_pow2_strictly_increases((e + 1) as nat, 53);
        }
    }
    let unit = power_of_two(e - 52);
    proof {
        lemma_pow2_pos((e - 52) as nat);
    }
    let x = v as u128;
    let q = x / unit;
    let rem = x % unit;
    let half = unit / 2;
    proof {
        lemma_pow2_adds(52, (e - 52) as nat);
        lemma_pow2_adds(53, (e - 52) as nat);
        lemma_pow2_unfold((e + 1) as nat);
        vstd::arithmetic::div_mod::lemma_fundamental_div_mod(x as int, unit as int);
        assert(q < pow2(53)) by (nonlinear_arith)
            requires
                x < pow2((e + 1) as nat),
                pow2((e + 1) as nat) == pow2(53) * unit,
                x == unit * q + rem,
                rem >= 0,
                unit > 0,
        ;
        assert((q + 1) * unit <= 0x1_0000_0000_0000_0000) by (nonlinear_arith)
            requires
                q + 1 <= pow2(53),
                unit <= pow2(11),
                pow2(53) * pow2(11) == 0x1_0000_0000_0000_0000,
        ;
        lemma_pow2_adds(53, 11);
        if e - 52 < 11 {
            lemma_pow2_strictly_increases((e - 52) as nat, 11);
        }
    }
    let up = rem > half || (rem == half && q % 2 == 1);
    let r = if up {
        (q + 1) * unit
    } else {
        q * unit
    };
    proof {
        vstd::arithmetic::div_mod::lemma_mod_pos_bound(x as int, unit as int);
        assert(q >= 1) by (nonlinear_arith)
            requires
                x >= pow2(e as nat),
                pow2(e as nat) == pow2(52) * unit,
                x == unit * q + rem,
                rem < unit,
                pow2(52) >= 1,
        ;
        assert(r > 0) by (nonlinear_arith)
            requires
                q >= 1,
                unit >= 1,
                r == q * unit || r == (q + 1) * unit,
        ;
    }
    r
}

/// The binary64 bit pattern of an integer value (see `integer_bits`).
pub fn integer_value_bits(v: u64) -> (bits: u64)
    ensures
        bits == integer_bits(v as nat),
{
    if v == 0 {
        return 0;
    }
    let r = rounded_as_f64(v);
    let e = log2_of(r);
    proof {
        lemma2_to64();
        lemma2_to64_rest();
        lemma_log2_floor_bounds(r as nat);
        if e > 64 {
            lemma_pow2_strictly_increases(64, e as nat);
        }
    }
    let significand: u128 = if e <= 52 {
        let scale = power_of_two(52 - e);
        proof {
            lemma_pow2_adds(e as nat, (52 - e) as nat);
            lemma_pow2_adds((e + 1) as nat, (52 - e) as nat);
            lemma_pow2_unfold(53);
            assert(r * scale < pow2(53) && r * scale >= pow2(52)) by (nonlinear_arith)
                requires
                    pow2(e as nat) <= r < pow2((e + 1) as nat),
                    pow2(e as nat) * scale == pow2(52),
                    pow2((e + 1) as nat) * scale == pow2(53),
                    scale > 0,
            ;
        }
        r * scale
    } else {
        let unit = power_of_two(e - 52);
        proof {
            lemma_pow2_pos((e - 52) as nat);
            lemma_pow2_adds(52, (e - 52) as nat);
            lemma_pow2_adds(53, (e - 52) as nat);
            lemma_pow2_unfold((e + 1) as nat);
            vstd::arithmetic::div_mod::lemma_fundamental_div_mod(r as int, unit as int);
            assert(r / unit < pow2(53) && r / unit >= pow2(52)) by (nonlinear_arith)
                requires
                    pow2(e as nat) <= r < pow2((e + 1) as nat),
                    pow2(e as nat) == pow2(52) * unit,
                    pow2((e + 1) as nat) == pow2(53) * unit,
                    r == unit * (r / unit) + r % unit,
                    0 <= r % unit < unit,
                    unit > 0,
            ;
        }
        r / unit
    };
    let bits = (1023 + e as u128) * 0x10_0000_0000_0000 + significand - 0x10_0000_0000_0000;
    assert(bits < 0x1_0000_0000_0000_0000) by (nonlinear_arith)
        requires
            e <= 64,
            significand < 0x20_0000_0000_0000,
            bits == (1023 + e) * 0x10_0000_0000_0000 + significand - 0x10_0000_0000_0000,
    ;
    bits as u64
}

} // verus!
