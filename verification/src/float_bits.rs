//! IEEE 754 conversions on raw bit patterns.
//!
//! The codec carries floating-point numbers as bits (`u16`/`u32`/`u64`) and
//! converts between the three widths itself: widening is exact, narrowing
//! rounds to nearest with ties to even, and NaN/infinity propagate. Integer
//! conversions truncate toward zero and saturate, matching Rust's casts.
//!
//! Throughout, a binary64 pattern splits into sign (bit 63), exponent
//! (bits 52..63, bias 1023) and mantissa (bits 0..52); binary32 into
//! 1/8/23 bits with bias 127; binary16 into 1/5/10 bits with bias 15.

use vstd::prelude::*;

verus! {

// ── field extraction ────────────────────────────────────────────

/// Exponent field of a binary64 pattern.
pub open spec fn f64_exp(x: u64) -> u64 {
    (x >> 52) & 0x7FF
}

/// Mantissa field of a binary64 pattern.
pub open spec fn f64_man(x: u64) -> u64 {
    x & 0xF_FFFF_FFFF_FFFF
}

/// Whether a binary64 pattern is a NaN.
pub open spec fn f64_is_nan(x: u64) -> bool {
    f64_exp(x) == 0x7FF && f64_man(x) != 0
}

/// Whether a binary64 pattern is an infinity.
pub open spec fn f64_is_inf(x: u64) -> bool {
    f64_exp(x) == 0x7FF && f64_man(x) == 0
}

/// Exponent field of a binary16 pattern.
pub open spec fn f16_exp(h: u16) -> u16 {
    (h >> 10) & 0x1F
}

/// Mantissa field of a binary16 pattern.
pub open spec fn f16_man(h: u16) -> u16 {
    h & 0x3FF
}

/// Whether a binary16 pattern is a NaN.
pub open spec fn f16_is_nan(h: u16) -> bool {
    f16_exp(h) == 0x1F && f16_man(h) != 0
}

/// Whether a binary16 pattern is an infinity.
pub open spec fn f16_is_inf(h: u16) -> bool {
    f16_exp(h) == 0x1F && f16_man(h) == 0
}

/// Exponent field of a binary32 pattern.
pub open spec fn f32_exp(x: u32) -> u32 {
    (x >> 23) & 0xFF
}

/// Mantissa field of a binary32 pattern.
pub open spec fn f32_man(x: u32) -> u32 {
    x & 0x7F_FFFF
}

/// Whether a binary32 pattern is a NaN.
pub open spec fn f32_is_nan(x: u32) -> bool {
    f32_exp(x) == 0xFF && f32_man(x) != 0
}

/// Whether a binary32 pattern is an infinity.
pub open spec fn f32_is_inf(x: u32) -> bool {
    f32_exp(x) == 0xFF && f32_man(x) == 0
}

// ── round to nearest, ties to even ──────────────────────────────

/// Whether dropping the bits of `man` below the round bit `rb` rounds the
/// kept part `kept` upward: the round bit is set, and either a lower
/// (sticky) bit is set too or the kept part is odd.
pub open spec fn round_up_u64(man: u64, rb: u64, kept: u64) -> bool {
    (man & rb) != 0 && ((man & (((rb - 1) as u64))) != 0 || (kept & 1) == 1)
}

// ── binary16 → binary64, exact ──────────────────────────────────

/// Number of left shifts that bring a subnormal binary16 mantissa's
/// leading one to bit 10.
pub open spec fn f16_norm_shift(man: u64) -> u64
    recommends
        1 <= man < 0x400,
{
    if man >= 0x200 {
        1
    } else if man >= 0x100 {
        2
    } else if man >= 0x80 {
        3
    } else if man >= 0x40 {
        4
    } else if man >= 0x20 {
        5
    } else if man >= 0x10 {
        6
    } else if man >= 0x8 {
        7
    } else if man >= 0x4 {
        8
    } else if man >= 0x2 {
        9
    } else {
        10
    }
}

/// The binary64 pattern with the same value as a binary16 pattern.
/// Every binary16 value is exactly representable; a NaN maps to a quiet
/// NaN carrying the payload in the mantissa's top bits.
pub open spec fn spec_f16_to_f64(h: u16) -> u64 {
    let sign = ((h as u64) >> 15) << 63;
    let exp = (h as u64 >> 10) & 0x1F;
    let man = (h as u64) & 0x3FF;
    if exp == 0x1F {
        if man == 0 {
            sign | 0x7FF0_0000_0000_0000
        } else {
            sign | 0x7FF8_0000_0000_0000 | (man << 42)
        }
    } else if exp == 0 {
        if man == 0 {
            sign
        } else {
            let e = f16_norm_shift(man);
            sign | (((1009 - e) as u64) << 52) | (((man << e) & 0x3FF) << 42)
        }
    } else {
        sign | (((exp + 1008) as u64) << 52) | (man << 42)
    }
}

/// Widen a binary16 bit pattern to the binary64 pattern of the same value.
pub fn f16_bits_to_f64_bits(h: u16) -> (r: u64)
    ensures
        r == spec_f16_to_f64(h),
{
    let sign: u64 = ((h as u64) >> 15) << 63;
    let exp: u64 = ((h as u64) >> 10) & 0x1F;
    let man: u64 = (h as u64) & 0x3FF;
    proof {
        assert(exp < 0x20 && man < 0x400) by (bit_vector)
            requires
                exp == ((h as u64) >> 10) & 0x1F && man == (h as u64) & 0x3FF,
        ;
    }
    if exp == 0x1F {
        if man == 0 {
            sign | 0x7FF0_0000_0000_0000
        } else {
            sign | 0x7FF8_0000_0000_0000 | (man << 42u64)
        }
    } else if exp == 0 {
        if man == 0 {
            sign
        } else {
            let e: u64 = f16_norm_shift_exec(man);
            sign | ((1009 - e) << 52u64) | (((man << e) & 0x3FF) << 42u64)
        }
    } else {
        sign | ((exp + 1008) << 52u64) | (man << 42u64)
    }
}

/// Position the leading one of a subnormal binary16 mantissa at bit 10.
fn f16_norm_shift_exec(man: u64) -> (e: u64)
    requires
        1 <= man < 0x400,
    ensures
        e == f16_norm_shift(man),
{
    if man >= 0x200 {
        1
    } else if man >= 0x100 {
        2
    } else if man >= 0x80 {
        3
    } else if man >= 0x40 {
        4
    } else if man >= 0x20 {
        5
    } else if man >= 0x10 {
        6
    } else if man >= 0x8 {
        7
    } else if man >= 0x4 {
        8
    } else if man >= 0x2 {
        9
    } else {
        10
    }
}

// ── binary64 → binary16, round to nearest even ──────────────────

/// The binary16 pattern nearest to a binary64 pattern's value, ties to
/// even: values at or beyond the largest half go to infinity, values
/// under the smallest subnormal half go to signed zero, and a NaN maps
/// to a quiet NaN keeping the payload's top bits.
pub open spec fn spec_f64_to_f16(x: u64) -> u16 {
    let sign = (((x >> 63) << 15)) as u16;
    let exp = (x >> 52) & 0x7FF;
    let man = x & 0xF_FFFF_FFFF_FFFF;
    if exp == 0x7FF {
        if man == 0 {
            sign | 0x7C00
        } else {
            sign | 0x7E00 | ((man >> 42) as u16)
        }
    } else if exp >= 1039 {
        // at least 2^16: beyond every finite half
        sign | 0x7C00
    } else if exp >= 1009 {
        // normal half result; a mantissa carry rolls into the exponent,
        // possibly up to infinity
        let kept = man >> 42;
        let base = ((((exp - 1008) as u64) << 10) | kept) as u16;
        if round_up_u64(man, 1u64 << 41, kept) {
            sign | (base + 1) as u16
        } else {
            sign | base
        }
    } else if exp >= 998 {
        // subnormal half result; a carry rolls into the smallest normal
        let man_ext = man | 0x10_0000_0000_0000;
        let shift = (1051 - exp) as u64;
        let kept = man_ext >> shift;
        if round_up_u64(man_ext, 1u64 << (((shift - 1) as u64)), kept) {
            sign | (kept + 1) as u16
        } else {
            sign | kept as u16
        }
    } else {
        // under half the smallest subnormal half: signed zero
        sign
    }
}

/// Narrow a binary64 bit pattern to the nearest binary16 pattern,
/// rounding ties to even.
pub fn f64_bits_to_f16_bits(x: u64) -> (r: u16)
    ensures
        r == spec_f64_to_f16(x),
{
    let sign: u16 = ((x >> 63) << 15) as u16;
    let exp: u64 = (x >> 52) & 0x7FF;
    let man: u64 = x & 0xF_FFFF_FFFF_FFFF;
    proof {
        assert(exp < 0x800 && man < 0x10_0000_0000_0000) by (bit_vector)
            requires
                exp == (x >> 52) & 0x7FF && man == x & 0xF_FFFF_FFFF_FFFF,
        ;
    }
    if exp == 0x7FF {
        if man == 0 {
            sign | 0x7C00
        } else {
            sign | 0x7E00 | ((man >> 42u64) as u16)
        }
    } else if exp >= 1039 {
        sign | 0x7C00
    } else if exp >= 1009 {
        let kept: u64 = man >> 42u64;
        proof {
            assert(kept < 0x400 && (((((exp - 1008) as u64)) << 10) | kept) <= 0x7BFF) by (bit_vector)
                requires
                    1009 <= exp < 1039 && man < 0x10_0000_0000_0000 && kept == man >> 42,
            ;
        }
        let base: u16 = ((((exp - 1008)) << 10u64) | kept) as u16;
        let rb: u64 = 0x200_0000_0000;
        proof {
            assert(1u64 << 41u64 == 0x200_0000_0000u64) by (bit_vector);
        }
        if (man & rb) != 0 && ((man & (rb - 1)) != 0 || (kept & 1) == 1) {
            sign | (base + 1)
        } else {
            sign | base
        }
    } else if exp >= 998 {
        let man_ext: u64 = man | 0x10_0000_0000_0000;
        let shift: u64 = 1051 - exp;
        let kept: u64 = man_ext >> shift;
        let rb: u64 = 1u64 << (shift - 1);
        proof {
            assert(rb >= 1) by (bit_vector)
                requires
                    rb == 1u64 << (((shift - 1) as u64)) && 43 <= shift <= 53,
            ;
        }
        if (man_ext & rb) != 0 && ((man_ext & (rb - 1)) != 0 || (kept & 1) == 1) {
            proof {
                assert(kept < 0x400) by (bit_vector)
                    requires
                        998 <= exp < 1009 && man < 0x10_0000_0000_0000 && man_ext == (man
                            | 0x10_0000_0000_0000) && shift == 1051 - exp && kept == man_ext
                            >> shift,
                ;
            }
            sign | (kept + 1) as u16
        } else {
            proof {
                assert(kept < 0x400) by (bit_vector)
                    requires
                        998 <= exp < 1009 && man < 0x10_0000_0000_0000 && man_ext == (man
                            | 0x10_0000_0000_0000) && shift == 1051 - exp && kept == man_ext
                            >> shift,
                ;
            }
            sign | kept as u16
        }
    } else {
        sign
    }
}

// ── binary32 → binary64, exact ──────────────────────────────────

/// Number of left shifts that bring a subnormal binary32 mantissa's
/// leading one to bit 23.
pub open spec fn f32_norm_shift(man: u64) -> u64
    recommends
        1 <= man < 0x80_0000,
{
    if man >= 0x40_0000 {
        1
    } else if man >= 0x20_0000 {
        2
    } else if man >= 0x10_0000 {
        3
    } else if man >= 0x8_0000 {
        4
    } else if man >= 0x4_0000 {
        5
    } else if man >= 0x2_0000 {
        6
    } else if man >= 0x1_0000 {
        7
    } else if man >= 0x8000 {
        8
    } else if man >= 0x4000 {
        9
    } else if man >= 0x2000 {
        10
    } else if man >= 0x1000 {
        11
    } else if man >= 0x800 {
        12
    } else if man >= 0x400 {
        13
    } else if man >= 0x200 {
        14
    } else if man >= 0x100 {
        15
    } else if man >= 0x80 {
        16
    } else if man >= 0x40 {
        17
    } else if man >= 0x20 {
        18
    } else if man >= 0x10 {
        19
    } else if man >= 0x8 {
        20
    } else if man >= 0x4 {
        21
    } else if man >= 0x2 {
        22
    } else {
        23
    }
}

/// The binary64 pattern with the same value as a binary32 pattern.
/// Every binary32 value is exactly representable; a NaN maps to a quiet
/// NaN keeping the payload.
pub open spec fn spec_f32_to_f64(x: u32) -> u64 {
    let sign = ((x as u64) >> 31) << 63;
    let exp = ((x as u64) >> 23) & 0xFF;
    let man = (x as u64) & 0x7F_FFFF;
    if exp == 0xFF {
        if man == 0 {
            sign | 0x7FF0_0000_0000_0000
        } else {
            sign | 0x7FF8_0000_0000_0000 | (man << 29)
        }
    } else if exp == 0 {
        if man == 0 {
            sign
        } else {
            let e = f32_norm_shift(man);
            sign | (((897 - e) as u64) << 52) | (((man << e) & 0x7F_FFFF) << 29)
        }
    } else {
        sign | (((exp + 896) as u64) << 52) | (man << 29)
    }
}

/// Position the leading one of a subnormal binary32 mantissa at bit 23.
fn f32_norm_shift_exec(man: u64) -> (e: u64)
    requires
        1 <= man < 0x80_0000,
    ensures
        e == f32_norm_shift(man),
{
    if man >= 0x40_0000 {
        1
    } else if man >= 0x20_0000 {
        2
    } else if man >= 0x10_0000 {
        3
    } else if man >= 0x8_0000 {
        4
    } else if man >= 0x4_0000 {
        5
    } else if man >= 0x2_0000 {
        6
    } else if man >= 0x1_0000 {
        7
    } else if man >= 0x8000 {
        8
    } else if man >= 0x4000 {
        9
    } else if man >= 0x2000 {
        10
    } else if man >= 0x1000 {
        11
    } else if man >= 0x800 {
        12
    } else if man >= 0x400 {
        13
    } else if man >= 0x200 {
        14
    } else if man >= 0x100 {
        15
    } else if man >= 0x80 {
        16
    } else if man >= 0x40 {
        17
    } else if man >= 0x20 {
        18
    } else if man >= 0x10 {
        19
    } else if man >= 0x8 {
        20
    } else if man >= 0x4 {
        21
    } else if man >= 0x2 {
        22
    } else {
        23
    }
}

/// Widen a binary32 bit pattern to the binary64 pattern of the same value.
pub fn f32_bits_to_f64_bits(x: u32) -> (r: u64)
    ensures
        r == spec_f32_to_f64(x),
{
    let sign: u64 = ((x as u64) >> 31) << 63;
    let exp: u64 = ((x as u64) >> 23) & 0xFF;
    let man: u64 = (x as u64) & 0x7F_FFFF;
    proof {
        assert(exp < 0x100 && man < 0x80_0000) by (bit_vector)
            requires
                exp == ((x as u64) >> 23) & 0xFF && man == (x as u64) & 0x7F_FFFF,
        ;
    }
    if exp == 0xFF {
        if man == 0 {
            sign | 0x7FF0_0000_0000_0000
        } else {
            sign | 0x7FF8_0000_0000_0000 | (man << 29u64)
        }
    } else if exp == 0 {
        if man == 0 {
            sign
        } else {
            let e: u64 = f32_norm_shift_exec(man);
            sign | ((897 - e) << 52u64) | (((man << e) & 0x7F_FFFF) << 29u64)
        }
    } else {
        sign | ((exp + 896) << 52u64) | (man << 29u64)
    }
}

// ── binary64 → binary32, round to nearest even ──────────────────

/// The binary32 pattern nearest to a binary64 pattern's value, ties to
/// even, with overflow to infinity, underflow to signed zero, and NaN to
/// a quiet NaN keeping the payload's top bits.
pub open spec fn spec_f64_to_f32(x: u64) -> u32 {
    let sign = ((x >> 63) << 31) as u32;
    let exp = (x >> 52) & 0x7FF;
    let man = x & 0xF_FFFF_FFFF_FFFF;
    if exp == 0x7FF {
        if man == 0 {
            sign | 0x7F80_0000
        } else {
            sign | 0x7FC0_0000 | ((man >> 29) as u32)
        }
    } else if exp >= 1151 {
        // at least 2^128: beyond every finite single
        sign | 0x7F80_0000
    } else if exp >= 897 {
        // normal single result; a mantissa carry rolls into the exponent,
        // possibly up to infinity
        let kept = man >> 29;
        let base = (((((exp - 896) as u64)) << 23) | kept) as u32;
        if round_up_u64(man, 1u64 << 28, kept) {
            sign | (base + 1) as u32
        } else {
            sign | base
        }
    } else if exp >= 873 {
        // subnormal single result; a carry rolls into the smallest normal
        let man_ext = man | 0x10_0000_0000_0000;
        let shift = (926 - exp) as u64;
        let kept = man_ext >> shift;
        if round_up_u64(man_ext, 1u64 << (((shift - 1) as u64)), kept) {
            sign | (kept + 1) as u32
        } else {
            sign | kept as u32
        }
    } else {
        // under half the smallest subnormal single: signed zero
        sign
    }
}

/// Narrow a binary64 bit pattern to the nearest binary32 pattern,
/// rounding ties to even.
pub fn f64_bits_to_f32_bits(x: u64) -> (r: u32)
    ensures
        r == spec_f64_to_f32(x),
{
    let sign: u32 = ((x >> 63) << 31) as u32;
    let exp: u64 = (x >> 52) & 0x7FF;
    let man: u64 = x & 0xF_FFFF_FFFF_FFFF;
    proof {
        assert(exp < 0x800 && man < 0x10_0000_0000_0000) by (bit_vector)
            requires
                exp == (x >> 52) & 0x7FF && man == x & 0xF_FFFF_FFFF_FFFF,
        ;
    }
    if exp == 0x7FF {
        if man == 0 {
            sign | 0x7F80_0000
        } else {
            sign | 0x7FC0_0000 | ((man >> 29u64) as u32)
        }
    } else if exp >= 1151 {
        sign | 0x7F80_0000
    } else if exp >= 897 {
        let kept: u64 = man >> 29u64;
        proof {
            assert(kept < 0x80_0000 && (((((exp - 896) as u64)) << 23) | kept) <= 0x7F7F_FFFF)
                by (bit_vector)
                requires
                    897 <= exp < 1151 && man < 0x10_0000_0000_0000 && kept == man >> 29,
            ;
            assert(1u64 << 28u64 == 0x1000_0000u64) by (bit_vector);
        }
        let base: u32 = (((exp - 896) << 23u64) | kept) as u32;
        let rb: u64 = 0x1000_0000;
        if (man & rb) != 0 && ((man & (rb - 1)) != 0 || (kept & 1) == 1) {
            sign | (base + 1)
        } else {
            sign | base
        }
    } else if exp >= 873 {
        let man_ext: u64 = man | 0x10_0000_0000_0000;
        let shift: u64 = 926 - exp;
        let kept: u64 = man_ext >> shift;
        let rb: u64 = 1u64 << (shift - 1);
        proof {
            assert(rb >= 1 && kept < 0x80_0000) by (bit_vector)
                requires
                    rb == 1u64 << (((shift - 1) as u64)) && 30 <= shift <= 53 && man
                        < 0x10_0000_0000_0000 && man_ext == (man | 0x10_0000_0000_0000) && kept
                        == man_ext >> shift,
            ;
        }
        if (man_ext & rb) != 0 && ((man_ext & (rb - 1)) != 0 || (kept & 1) == 1) {
            sign | (kept + 1) as u32
        } else {
            sign | kept as u32
        }
    } else {
        sign
    }
}

// ── round trips through binary64 ────────────────────────────────

/// Widening a binary16 pattern to binary64 and narrowing back returns
/// the original pattern; a NaN comes back with its quiet bit set and its
/// payload's top bits kept, so every quiet NaN round-trips unchanged.
pub proof fn lemma_f16_f64_round_trip(h: u16)
    ensures
        spec_f64_to_f16(spec_f16_to_f64(h)) == if f16_is_nan(h) {
            h | 0x200
        } else {
            h
        },
{
    assert(spec_f64_to_f16(spec_f16_to_f64(h)) == if f16_is_nan(h) {
        h | 0x200
    } else {
        h
    }) by (bit_vector);
}

/// Widening a binary32 pattern to binary64 and narrowing back returns
/// the original pattern; a NaN comes back with its quiet bit set and its
/// payload kept, so every quiet NaN round-trips unchanged.
pub proof fn lemma_f32_f64_round_trip(x: u32)
    ensures
        spec_f64_to_f32(spec_f32_to_f64(x)) == if f32_is_nan(x) {
            x | 0x40_0000
        } else {
            x
        },
{
    assert(spec_f64_to_f32(spec_f32_to_f64(x)) == if f32_is_nan(x) {
        x | 0x40_0000
    } else {
        x
    }) by (bit_vector);
}

// ── integer → binary64, round to nearest even ───────────────────

/// Repeated doubling of a magnitude until its leading one reaches bit 52.
pub open spec fn left_norm(m: u64) -> u64
    recommends
        1 <= m,
    decreases 0x20_0000_0000_0000 - m when 1 <= m
{
    if m >= 0x10_0000_0000_0000 {
        m
    } else {
        left_norm(((m * 2) as u64))
    }
}

/// Number of doublings `left_norm` performs.
pub open spec fn left_norm_count(m: u64) -> int
    recommends
        1 <= m,
    decreases 0x20_0000_0000_0000 - m when 1 <= m
{
    if m >= 0x10_0000_0000_0000 {
        0
    } else {
        1 + left_norm_count(((m * 2) as u64))
    }
}

/// Repeated halving of a magnitude until it fits below bit 53.
pub open spec fn right_norm(m: u64) -> u64
    decreases m,
{
    if m < 0x20_0000_0000_0000 {
        m
    } else {
        right_norm(((m / 2) as u64))
    }
}

/// Number of halvings `right_norm` performs.
pub open spec fn right_norm_count(m: u64) -> int
    decreases m,
{
    if m < 0x20_0000_0000_0000 {
        0
    } else {
        1 + right_norm_count(((m / 2) as u64))
    }
}

/// The binary64 pattern nearest to an integer's value, ties to even.
/// Magnitudes up to 2^53 are exact; larger ones round in the dropped bits.
pub open spec fn spec_i64_to_f64(v: i64) -> u64 {
    if v == 0 {
        0
    } else {
        let sign: u64 = if v < 0 {
            1u64 << 63
        } else {
            0
        };
        let a: u64 = if v < 0 {
            ((0 - (v as int)) as u64)
        } else {
            v as u64
        };
        if a < 0x20_0000_0000_0000 {
            let k = left_norm_count(a);
            let m = left_norm(a);
            sign | (((1075 - k) as u64) << 52) | (m & 0xF_FFFF_FFFF_FFFF)
        } else {
            let s = right_norm_count(a);
            let t = right_norm(a);
            let inc: u64 = if round_up_u64(a, 1u64 << (((s - 1) as u64)), t) {
                1
            } else {
                0
            };
            sign | (((((1075 + s) as u64) << 52) + ((t - 0x10_0000_0000_0000) as u64)
                + inc) as u64)
        }
    }
}

/// Convert an integer to the binary64 pattern of the nearest value,
/// rounding ties to even.
pub fn i64_to_f64_bits(v: i64) -> (r: u64)
    ensures
        r == spec_i64_to_f64(v),
{
    if v == 0 {
        return 0;
    }
    let sign: u64 = if v < 0 {
        1u64 << 63u64
    } else {
        0
    };
    let a: u64 = if v == i64::MIN {
        0x8000_0000_0000_0000
    } else if v < 0 {
        (-v) as u64
    } else {
        v as u64
    };
    if a < 0x20_0000_0000_0000 {
        let mut m: u64 = a;
        let mut k: u64 = 0;
        proof {
            assert(1u64 << 0u64 == 1) by (bit_vector);
        }
        while m < 0x10_0000_0000_0000
            invariant
                1 <= m,
                m >= 1u64 << k,
                k <= 52,
                left_norm(m) == left_norm(a),
                left_norm_count(a) == k + left_norm_count(m),
            decreases 0x20_0000_0000_0000 - m,
        {
            proof {
                assert(m << 1 == ((m * 2) as u64) && (m << 1) >= 1u64 << ((k + 1) as u64) && k
                    <= 51 && (m << 1) >= 1) by (bit_vector)
                    requires
                        1 <= m && m < 0x10_0000_0000_0000 && m >= 1u64 << k && k <= 52,
                ;
                assert(left_norm(m) == left_norm(((m * 2) as u64)));
                assert(left_norm_count(m) == 1 + left_norm_count(((m * 2) as u64)));
            }
            m = m << 1u64;
            k = k + 1;
        }
        proof {
            assert(left_norm(m) == m && left_norm_count(m) == 0);
        }
        sign | ((1075 - k) << 52u64) | (m & 0xF_FFFF_FFFF_FFFF)
    } else {
        let mut t: u64 = a;
        let mut s: u64 = 0;
        proof {
            assert(a >> 0u64 == a) by (bit_vector);
        }
        while t >= 0x20_0000_0000_0000
            invariant
                t == a >> s,
                s <= 11,
                s >= 1 ==> t >= 0x10_0000_0000_0000,
                right_norm(t) == right_norm(a),
                right_norm_count(a) == s + right_norm_count(t),
            decreases t,
        {
            proof {
                assert((t >> 1) == ((t / 2) as u64) && (t >> 1) == a >> ((s + 1) as u64) && s <= 10
                    && (t >> 1) >= 0x10_0000_0000_0000 && (t >> 1) < t) by (bit_vector)
                    requires
                        t == a >> s && s <= 11 && t >= 0x20_0000_0000_0000,
                ;
                assert(right_norm(t) == right_norm(((t / 2) as u64)));
                assert(right_norm_count(t) == 1 + right_norm_count(((t / 2) as u64)));
            }
            t = t >> 1u64;
            s = s + 1;
        }
        proof {
            assert(right_norm(t) == t && right_norm_count(t) == 0);
            assert(s >= 1) by {
                if s == 0 {
                    assert(t == a >> 0);
                    assert(a >> 0 == a) by (bit_vector);
                }
            }
        }
        let rb: u64 = 1u64 << (s - 1);
        proof {
            assert(rb >= 1 && ((((1075 + s) as u64)) << 52) <= 0x43E0_0000_0000_0000 && t
                >= 0x10_0000_0000_0000) by (bit_vector)
                requires
                    rb == 1u64 << (((s - 1) as u64)) && 1 <= s <= 11 && (s >= 1 ==> t
                        >= 0x10_0000_0000_0000),
            ;
        }
        let kept_low: u64 = t - 0x10_0000_0000_0000;
        let inc: u64 = if (a & rb) != 0 && ((a & (rb - 1)) != 0 || (t & 1) == 1) {
            1
        } else {
            0
        };
        sign | (((1075 + s) << 52u64) + kept_low + inc)
    }
}

// ── binary64 → integer, truncate toward zero, saturating ────────

/// The signed integer a binary64 pattern's value truncates to: toward
/// zero, saturating at the type's bounds, with NaN mapping to zero.
pub open spec fn spec_f64_to_i64(x: u64) -> i64 {
    let sign = x >> 63;
    let exp = (x >> 52) & 0x7FF;
    let man = x & 0xF_FFFF_FFFF_FFFF;
    if exp == 0x7FF && man != 0 {
        0
    } else if exp < 1023 {
        0
    } else if exp >= 1086 {
        if sign == 1 {
            i64::MIN
        } else {
            i64::MAX
        }
    } else {
        let man_ext = man | 0x10_0000_0000_0000;
        let mag = if exp <= 1075 {
            man_ext >> (((1075 - exp) as u64))
        } else {
            man_ext << (((exp - 1075) as u64))
        };
        if sign == 1 {
            ((0 - (mag as int)) as i64)
        } else {
            mag as i64
        }
    }
}

/// Truncate a binary64 pattern's value toward zero into a signed integer,
/// saturating at the bounds; NaN becomes zero.
pub fn f64_bits_to_i64(x: u64) -> (r: i64)
    ensures
        r == spec_f64_to_i64(x),
{
    let sign: u64 = x >> 63u64;
    let exp: u64 = (x >> 52) & 0x7FF;
    let man: u64 = x & 0xF_FFFF_FFFF_FFFF;
    proof {
        assert(exp < 0x800 && man < 0x10_0000_0000_0000) by (bit_vector)
            requires
                exp == (x >> 52) & 0x7FF && man == x & 0xF_FFFF_FFFF_FFFF,
        ;
    }
    if exp == 0x7FF && man != 0 {
        0
    } else if exp < 1023 {
        0
    } else if exp >= 1086 {
        if sign == 1 {
            i64::MIN
        } else {
            i64::MAX
        }
    } else {
        let man_ext: u64 = man | 0x10_0000_0000_0000;
        let mag: u64 = if exp <= 1075 {
            man_ext >> (1075 - exp)
        } else {
            man_ext << (exp - 1075)
        };
        proof {
            assert(mag < 0x8000_0000_0000_0000) by (bit_vector)
                requires
                    man < 0x10_0000_0000_0000 && man_ext == (man | 0x10_0000_0000_0000) && 1023
                        <= exp < 1086 && mag == (if exp <= 1075 {
                        man_ext >> (((1075 - exp) as u64))
                    } else {
                        man_ext << (((exp - 1075) as u64))
                    }),
            ;
        }
        if sign == 1 {
            -(mag as i64)
        } else {
            mag as i64
        }
    }
}

/// The unsigned integer a binary64 pattern's value truncates to: toward
/// zero, saturating at the type's bounds, with NaN and every negative
/// value mapping to zero.
pub open spec fn spec_f64_to_u64(x: u64) -> u64 {
    let sign = x >> 63;
    let exp = (x >> 52) & 0x7FF;
    let man = x & 0xF_FFFF_FFFF_FFFF;
    if exp == 0x7FF && man != 0 {
        0
    } else if sign == 1 {
        0
    } else if exp < 1023 {
        0
    } else if exp >= 1087 {
        u64::MAX
    } else {
        let man_ext = man | 0x10_0000_0000_0000;
        if exp <= 1075 {
            man_ext >> (((1075 - exp) as u64))
        } else {
            man_ext << (((exp - 1075) as u64))
        }
    }
}

/// Truncate a binary64 pattern's value toward zero into an unsigned
/// integer, saturating at the bounds; NaN and negative values become zero.
pub fn f64_bits_to_u64(x: u64) -> (r: u64)
    ensures
        r == spec_f64_to_u64(x),
{
    let sign: u64 = x >> 63u64;
    let exp: u64 = (x >> 52) & 0x7FF;
    let man: u64 = x & 0xF_FFFF_FFFF_FFFF;
    proof {
        assert(exp < 0x800) by (bit_vector)
            requires
                exp == (x >> 52) & 0x7FF,
        ;
    }
    if exp == 0x7FF && man != 0 {
        0
    } else if sign == 1 {
        0
    } else if exp < 1023 {
        0
    } else if exp >= 1087 {
        u64::MAX
    } else {
        let man_ext: u64 = man | 0x10_0000_0000_0000;
        if exp <= 1075 {
            man_ext >> (1075 - exp)
        } else {
            man_ext << (exp - 1075)
        }
    }
}

} // verus!
