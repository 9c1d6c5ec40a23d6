//! IEEE-754 facts about `f64` and `f32` values held as bit patterns.
//!
//! Controller values are carried through the library as the bit patterns of
//! the floating-point numbers that the platform reports.  The few comparisons
//! that the library's rules make on them are stated and computed here on the
//! bits, following the IEEE-754 encoding: a sign bit, then the exponent, then
//! the fraction.

use vstd::prelude::*;
use vstd::arithmetic::power2::{
    pow2, lemma_pow2_adds, lemma_pow2_pos, lemma_pow2_strictly_increases, lemma_pow2_unfold,
};
use vstd::bits::lemma_u64_shl_is_mul;

verus! {

/// Sign bit of an `f64`.
pub const F64_SIGN: u64 = 0x8000_0000_0000_0000;

/// All bits of an `f64` but the sign.
pub const F64_MAGNITUDE: u64 = 0x7FFF_FFFF_FFFF_FFFF;

/// Exponent bits of an `f64`.
pub const F64_EXPONENT: u64 = 0x7FF0_0000_0000_0000;

/// Fraction bits of an `f64`.
pub const F64_FRACTION: u64 = 0x000F_FFFF_FFFF_FFFF;

/// `0.0` or `-0.0`.
pub open spec fn is_zero_f64(b: u64) -> bool {
    b & F64_MAGNITUDE == 0
}

/// Not a number: all exponent bits set and a non-zero fraction.
pub open spec fn is_nan_f64(b: u64) -> bool {
    b & F64_EXPONENT == F64_EXPONENT && b & F64_FRACTION != 0
}

/// The sign bit is set.
pub open spec fn is_negative_f64(b: u64) -> bool {
    b & F64_SIGN != 0
}

/// The absolute value (`f64::abs` clears the sign bit).
pub open spec fn abs_f64(b: u64) -> u64 {
    b & F64_MAGNITUDE
}

/// `a <= b` for two values that are not NaN.  Both zeros compare equal;
/// otherwise a negative value is below every positive one, magnitudes order
/// positive values and reverse the order of negative ones.
pub open spec fn ordered_le_f64(a: u64, b: u64) -> bool {
    if is_zero_f64(a) && is_zero_f64(b) {
        true
    } else if is_negative_f64(a) != is_negative_f64(b) {
        is_negative_f64(a)
    } else if is_negative_f64(a) {
        abs_f64(b) <= abs_f64(a)
    } else {
        abs_f64(a) <= abs_f64(b)
    }
}

/// The `f64` comparison `a <= b` (false when either is NaN).
pub open spec fn le_f64(a: u64, b: u64) -> bool {
    !is_nan_f64(a) && !is_nan_f64(b) && ordered_le_f64(a, b)
}

/// The `f64` comparison `a < b` (false when either is NaN).
pub open spec fn lt_f64(a: u64, b: u64) -> bool {
    !is_nan_f64(a) && !is_nan_f64(b) && !ordered_le_f64(b, a)
}

/// The `f64` comparison `a == b` (false when either is NaN, true for the two
/// zeros).
pub open spec fn eq_f64(a: u64, b: u64) -> bool {
    !is_nan_f64(a) && !is_nan_f64(b) && (a == b || (is_zero_f64(a) && is_zero_f64(b)))
}

/// `f64::clamp(v, lo, hi)`: `lo` below `lo`, `hi` above `hi`, else `v`
/// (NaN stays NaN).
pub open spec fn clamp_f64(v: u64, lo: u64, hi: u64) -> u64 {
    if lt_f64(v, lo) {
        lo
    } else if lt_f64(hi, v) {
        hi
    } else {
        v
    }
}

/// Whether `b` is NaN.
pub fn f64_is_nan(b: u64) -> (r: bool)
    ensures
        r == is_nan_f64(b),
{
    b & F64_EXPONENT == F64_EXPONENT && b & F64_FRACTION != 0
}

/// Whether `b` is a zero.
pub fn f64_is_zero(b: u64) -> (r: bool)
    ensures
        r == is_zero_f64(b),
{
    b & F64_MAGNITUDE == 0
}

/// The absolute value of `b`.
pub fn f64_abs(b: u64) -> (r: u64)
    ensures
        r == abs_f64(b),
{
    b & F64_MAGNITUDE
}

fn f64_ordered_le(a: u64, b: u64) -> (r: bool)
    ensures
        r == ordered_le_f64(a, b),
{
    let za = a & F64_MAGNITUDE == 0;
    let zb = b & F64_MAGNITUDE == 0;
    let na = a & F64_SIGN != 0;
    let nb = b & F64_SIGN != 0;
    if za && zb {
        true
    } else if na != nb {
        na
    } else if na {
        b & F64_MAGNITUDE <= a & F64_MAGNITUDE
    } else {
        a & F64_MAGNITUDE <= b & F64_MAGNITUDE
    }
}

/// `a <= b` on `f64` values.
pub fn f64_le(a: u64, b: u64) -> (r: bool)
    ensures
        r == le_f64(a, b),
{
    !f64_is_nan(a) && !f64_is_nan(b) && f64_ordered_le(a, b)
}

/// `a < b` on `f64` values.
pub fn f64_lt(a: u64, b: u64) -> (r: bool)
    ensures
        r == lt_f64(a, b),
{
    !f64_is_nan(a) && !f64_is_nan(b) && !f64_ordered_le(b, a)
}

/// `a == b` on `f64` values.
pub fn f64_eq(a: u64, b: u64) -> (r: bool)
    ensures
        r == eq_f64(a, b),
{
    !f64_is_nan(a) && !f64_is_nan(b) && (a == b || (f64_is_zero(a) && f64_is_zero(b)))
}

/// `f64::clamp(v, lo, hi)`.
pub fn f64_clamp(v: u64, lo: u64, hi: u64) -> (r: u64)
    ensures
        r == clamp_f64(v, lo, hi),
{
    if f64_lt(v, lo) {
        lo
    } else if f64_lt(hi, v) {
        hi
    } else {
        v
    }
}

/// Sign bit of an `f32`.
pub const F32_SIGN: u32 = 0x8000_0000;

/// All bits of an `f32` but the sign.
pub const F32_MAGNITUDE: u32 = 0x7FFF_FFFF;

/// Bit pattern of the `f32` infinity: an `f32` whose magnitude bits exceed
/// it is NaN.
pub const F32_INFINITY: u32 = 0x7F80_0000;

/// Not a number: the magnitude bits are above those of infinity.
pub open spec fn is_nan_f32(b: u32) -> bool {
    b & F32_MAGNITUDE > F32_INFINITY
}

/// `a < b` for two `f32` values that are not NaN: both zeros compare equal;
/// a negative value is below every positive one; magnitudes order positive
/// values and reverse the order of negative ones.
pub open spec fn ordered_lt_f32(a: u32, b: u32) -> bool {
    let na = a & F32_SIGN != 0;
    let nb = b & F32_SIGN != 0;
    let ma = a & F32_MAGNITUDE;
    let mb = b & F32_MAGNITUDE;
    if ma == 0 && mb == 0 {
        false
    } else if na != nb {
        na
    } else if na {
        mb < ma
    } else {
        ma < mb
    }
}

/// The `f32` comparison `a < b` (false when either is NaN).
pub open spec fn lt_f32(a: u32, b: u32) -> bool {
    !is_nan_f32(a) && !is_nan_f32(b) && ordered_lt_f32(a, b)
}

/// `a < b` on `f32` values.
pub fn f32_lt(a: u32, b: u32) -> (r: bool)
    ensures
        r == lt_f32(a, b),
{
    if a & F32_MAGNITUDE > F32_INFINITY || b & F32_MAGNITUDE > F32_INFINITY {
        return false;
    }
    let na = a & F32_SIGN != 0;
    let nb = b & F32_SIGN != 0;
    let ma = a & F32_MAGNITUDE;
    let mb = b & F32_MAGNITUDE;
    if ma == 0 && mb == 0 {
        false
    } else if na != nb {
        na
    } else if na {
        mb < ma
    } else {
        ma < mb
    }
}

/// The exponent of the highest set bit of `m` (zero for `m` below 2).
pub open spec fn log2_floor(m: nat) -> nat
    decreases m,
{
    if m < 2 {
        0
    } else {
        1 + log2_floor(m / 2)
    }
}

/// The bit pattern of the `f64` value equal to integer `v` (exact for
/// `|v| < 2^53`): zero is `+0.0`; any other value has the sign bit of `v`,
/// the biased exponent `1023 + e` where `2^e <= |v| < 2^(e+1)`, and as
/// fraction the bits of `|v|` below its highest one, aligned to the top of
/// the 52 fraction bits.
pub open spec fn f64_of_int(v: int) -> u64 {
    if v == 0 {
        0
    } else {
        let m: nat = if v < 0 {
            (-v) as nat
        } else {
            v as nat
        };
        let e = log2_floor(m);
        let sign: nat = if v < 0 {
            pow2(63)
        } else {
            0
        };
        (sign + (1023 + e) * pow2(52) + (m - pow2(e)) * pow2((52 - e) as nat)) as u64
    }
}

proof fn lemma_log2_floor(m: nat)
    requires
        m >= 1,
    ensures
        pow2(log2_floor(m)) <= m < pow2(log2_floor(m) + 1),
    decreases m,
{
    lemma_pow2_unfold(log2_floor(m) + 1);
    if m < 2 {
        lemma_pow2_unfold(1);
        assert(pow2(0) == 1) by {
            vstd::arithmetic::power2::lemma2_to64();
        }
    } else {
        lemma_log2_floor(m / 2);
        lemma_pow2_unfold(log2_floor(m));
    }
}

fn nonzero_to_f64_bits(neg: bool, m: u64) -> (r: u64)
    requires
        0 < m < 0x20_0000_0000_0000,
    ensures
        r == f64_of_int(if neg { -(m as int) } else { m as int }),
{
    let ghost mn = m as nat;
    proof {
        lemma_log2_floor(mn);
        vstd::arithmetic::power2::lemma2_to64();
        vstd::arithmetic::power2::lemma2_to64_rest();
        if log2_floor(mn) > 52 {
            lemma_pow2_strictly_increases(53, log2_floor(mn));
        }
    }
    let mut e: u64 = 0;
    let mut t: u64 = m;
    while t >= 2
        invariant
            1 <= t <= m,
            mn == m as nat,
            log2_floor(mn) <= 52,
            log2_floor(mn) == e + log2_floor(t as nat),
        decreases t,
    {
        t = t / 2;
        e = e + 1;
    }
    proof {
        assert(log2_floor(t as nat) == 0);
        assert(e <= 52);
        lemma_u64_shl_is_mul(1, e);
        lemma_pow2_adds(e as nat, (52 - e) as nat);
        lemma_pow2_pos((52 - e) as nat);
    }
    let low = m - (1u64 << e);
    proof {
        assert(low < pow2(e as nat));
        assert(low * pow2((52 - e) as nat) < pow2(e as nat) * pow2((52 - e) as nat)) by (nonlinear_arith)
            requires
                low < pow2(e as nat),
                pow2((52 - e) as nat) > 0,
        ;
        vstd::arithmetic::power2::lemma2_to64();
        vstd::arithmetic::power2::lemma2_to64_rest();
        assert(pow2(52) == 0x10_0000_0000_0000);
        lemma_u64_shl_is_mul(low, (52 - e) as u64);
        lemma_u64_shl_is_mul((1023 + e) as u64, 52);
        lemma_u64_shl_is_mul(1, 63);
    }
    let frac = low << (52 - e);
    let exponent = (1023 + e) << 52u64;
    let sign: u64 = if neg {
        1u64 << 63u64
    } else {
        0
    };
    sign + exponent + frac
}

/// The bit pattern of the `f64` value `v as f64`.
pub fn i32_to_f64_bits(v: i32) -> (r: u64)
    ensures
        r == f64_of_int(v as int),
{
    if v == 0 {
        0
    } else if v < 0 {
        nonzero_to_f64_bits(true, (-(v as i64)) as u64)
    } else {
        nonzero_to_f64_bits(false, v as u64)
    }
}

/// The bit pattern of the `f64` value `v as f64`.
pub fn u32_to_f64_bits(v: u32) -> (r: u64)
    ensures
        r == f64_of_int(v as int),
{
    if v == 0 {
        0
    } else {
        nonzero_to_f64_bits(false, v as u64)
    }
}

/// `0.0` or `-0.0` as an `f32`.
pub open spec fn is_zero_f32(b: u32) -> bool {
    b & F32_MAGNITUDE == 0
}

/// Whether the `f32` with bits `b` equals `0.0` (true for both zeros).
pub fn f32_is_zero(b: u32) -> (r: bool)
    ensures
        r == is_zero_f32(b),
{
    b & F32_MAGNITUDE == 0
}

/// The `f32` comparison `a == b` (false when either is NaN, true for the two
/// zeros).
pub open spec fn eq_f32(a: u32, b: u32) -> bool {
    !is_nan_f32(a) && !is_nan_f32(b) && (a == b || (is_zero_f32(a) && is_zero_f32(b)))
}

/// `a == b` on `f32` values.
pub fn f32_eq(a: u32, b: u32) -> (r: bool)
    ensures
        r == eq_f32(a, b),
{
    a & F32_MAGNITUDE <= F32_INFINITY && b & F32_MAGNITUDE <= F32_INFINITY && (a == b || (
    f32_is_zero(a) && f32_is_zero(b)))
}

/// `v` limited to `lo..=hi` as `v.max(lo).min(hi)` does on `f32`: `lo` for
/// NaN and below `lo`, `hi` above `hi`, else `v`.
pub open spec fn clamp_f32(v: u32, lo: u32, hi: u32) -> u32 {
    if is_nan_f32(v) || lt_f32(v, lo) {
        lo
    } else if lt_f32(hi, v) {
        hi
    } else {
        v
    }
}

/// Limit `v` to `lo..=hi` (see [`clamp_f32`]).
pub fn f32_clamp(v: u32, lo: u32, hi: u32) -> (r: u32)
    ensures
        r == clamp_f32(v, lo, hi),
{
    if v & F32_MAGNITUDE > F32_INFINITY || f32_lt(v, lo) {
        lo
    } else if f32_lt(hi, v) {
        hi
    } else {
        v
    }
}

} // verus!
