//! Window dimensions: from the binary64 encoding of a requested length to
//! the whole number of physical pixels that the host is asked for.
//!
//! A length arrives as the 64 bits of an IEEE 754 double: one sign bit,
//! eleven exponent bits, fifty-two fraction bits. Its pixel count is the
//! length with the fractional part cut off, held to the range of `u32`.

use vstd::prelude::*;
use vstd::arithmetic::power2::*;
use vstd::bits::*;

verus! {

/// The largest pixel count.
pub const MAX_PIXELS: u32 = 0xffff_ffff;

/// Two to the power 52: the weight of the hidden bit of a significand.
pub const HIDDEN_BIT: u64 = 0x10_0000_0000_0000;

/// Two to the power 63: the weight of the sign bit.
pub const SIGN_BIT: u64 = 0x8000_0000_0000_0000;

/// Whether the sign bit of the encoding is set.
pub open spec fn sign_of(bits: u64) -> bool {
    bits >= SIGN_BIT
}

/// The eleven exponent bits of the encoding, as a number below 2048.
pub open spec fn exponent_of(bits: u64) -> int {
    (bits as int / HIDDEN_BIT as int) % 2048
}

/// The fifty-two fraction bits of the encoding.
pub open spec fn fraction_of(bits: u64) -> int {
    bits as int % HIDDEN_BIT as int
}

/// The encoding is of no number: all exponent bits set, a fraction bit set.
pub open spec fn is_nan(bits: u64) -> bool {
    exponent_of(bits) == 2047 && fraction_of(bits) != 0
}

/// The encoding is of an infinity.
pub open spec fn is_infinite(bits: u64) -> bool {
    exponent_of(bits) == 2047 && fraction_of(bits) == 0
}

/// The integer `m` of a finite encoding, whose magnitude is
/// `m * 2^(scale - 1075)`.
pub open spec fn significand_of(bits: u64) -> int {
    if exponent_of(bits) == 0 {
        fraction_of(bits)
    } else {
        HIDDEN_BIT as int + fraction_of(bits)
    }
}

/// The exponent that scales the significand: a subnormal scales as the
/// smallest normal does.
pub open spec fn scale_of(bits: u64) -> int {
    if exponent_of(bits) == 0 {
        1
    } else {
        exponent_of(bits)
    }
}

/// The magnitude of a finite encoding with its fractional part cut off.
pub open spec fn whole_magnitude(bits: u64) -> int {
    if scale_of(bits) >= 1075 {
        significand_of(bits) * pow2((scale_of(bits) - 1075) as nat)
    } else {
        significand_of(bits) / (pow2((1075 - scale_of(bits)) as nat) as int)
    }
}

/// The pixel count of an encoded length: nothing for what is no number or
/// below zero, the largest count for what is beyond it, and otherwise the
/// length without its fractional part.
pub open spec fn pixels_of(bits: u64) -> int {
    if is_nan(bits) || sign_of(bits) {
        0
    } else if is_infinite(bits) || whole_magnitude(bits) > MAX_PIXELS {
        MAX_PIXELS as int
    } else {
        whole_magnitude(bits)
    }
}

/// A significand under a divisor larger than itself leaves nothing whole.
proof fn lemma_small_length_is_zero(significand: int, k: nat)
    requires
        0 <= significand < 2 * HIDDEN_BIT,
        k >= 53,
    ensures
        significand / (pow2(k) as int) == 0,
{
    lemma2_to64_rest();
    if k > 53 {
        lemma_pow2_strictly_increases(53, k);
    }
    let d = pow2(k) as int;
    assert(significand / d == 0) by (nonlinear_arith)
        requires
            0 <= significand < d,
    ;
}

/// A normal significand divided by at most two to the power 20 is beyond
/// the largest pixel count.
proof fn lemma_large_quotient(significand: int, k: nat)
    requires
        HIDDEN_BIT <= significand,
        k <= 20,
    ensures
        significand / (pow2(k) as int) > MAX_PIXELS,
{
    lemma2_to64();
    lemma_pow2_pos(k);
    if k < 20 {
        lemma_pow2_strictly_increases(k, 20);
    }
    let d = pow2(k) as int;
    assert(significand / d >= 0x1_0000_0000) by (nonlinear_arith)
        requires
            0 < d <= 0x10_0000,
            significand >= 0x1_0000_0000 * 0x10_0000,
    ;
}

/// A normal significand times a power of two is beyond the largest pixel
/// count.
proof fn lemma_large_product(significand: int, n: nat)
    requires
        HIDDEN_BIT <= significand,
    ensures
        significand * pow2(n) > MAX_PIXELS,
{
    lemma_pow2_pos(n);
    let f = pow2(n) as int;
    assert(significand * f >= significand) by (nonlinear_arith)
        requires
            f >= 1,
            significand >= 0,
    ;
}

/// A significand divided by at least two to the power 21 fits a pixel count.
proof fn lemma_quotient_fits(significand: int, k: nat)
    requires
        0 <= significand < 2 * HIDDEN_BIT,
        k >= 21,
    ensures
        0 <= significand / (pow2(k) as int) <= MAX_PIXELS,
{
    lemma2_to64();
    if k > 21 {
        lemma_pow2_strictly_increases(21, k);
    }
    let d = pow2(k) as int;
    assert(0 <= significand / d < 0x1_0000_0000) by (nonlinear_arith)
        requires
            d >= 0x20_0000,
            0 <= significand < 0x1_0000_0000 * 0x20_0000,
    ;
}

/// The pixel count of the length that `bits` encodes.
pub fn pixels(bits: u64) -> (count: u32)
    ensures
        count == pixels_of(bits),
{
    let exponent: u64 = (bits / HIDDEN_BIT) % 2048;
    let fraction: u64 = bits % HIDDEN_BIT;
    if bits >= SIGN_BIT {
        return 0;
    }
    if exponent == 2047 {
        if fraction != 0 {
            return 0;
        }
        return MAX_PIXELS;
    }
    if exponent < 1023 {
        proof {
            lemma_small_length_is_zero(significand_of(bits), (1075 - scale_of(bits)) as nat);
        }
        return 0;
    }
    if exponent >= 1055 {
        proof {
            if exponent >= 1075 {
                lemma_large_product(significand_of(bits), (exponent - 1075) as nat);
            } else {
                lemma_large_quotient(significand_of(bits), (1075 - exponent) as nat);
            }
        }
        return MAX_PIXELS;
    }
    let significand: u64 = HIDDEN_BIT + fraction;
    let shift: u64 = 1075 - exponent;
    let whole: u64 = significand >> shift;
    proof {
        lemma_u64_shr_is_div(significand, shift);
        lemma_quotient_fits(significand as int, shift as nat);
    }
    whole as u32
}

/// A pixel count is never below zero nor beyond the largest count.
pub proof fn lemma_pixels_in_range(bits: u64)
    ensures
        0 <= pixels_of(bits) <= MAX_PIXELS,
{
    lemma_pow2_pos((scale_of(bits) - 1075) as nat);
    lemma_pow2_pos((1075 - scale_of(bits)) as nat);
    let s = significand_of(bits);
    if scale_of(bits) >= 1075 {
        let f = pow2((scale_of(bits) - 1075) as nat) as int;
        assert(s * f >= 0) by (nonlinear_arith)
            requires
                s >= 0,
                f >= 0,
        ;
    } else {
        let d = pow2((1075 - scale_of(bits)) as nat) as int;
        assert(s / d >= 0) by (nonlinear_arith)
            requires
                s >= 0,
                d > 0,
        ;
    }
}

/// The fractional part of a length is cut off, never rounded up: where the
/// length is finite, not below zero and within the largest count, its pixel
/// count `p` is the whole number with `p <= length < p + 1`, stated here
/// with both sides scaled by the power of two under the significand.
pub proof fn lemma_pixels_cut_fraction(bits: u64)
    requires
        !sign_of(bits),
        exponent_of(bits) < 1075,
        whole_magnitude(bits) <= MAX_PIXELS,
    ensures
        pixels_of(bits) * pow2((1075 - scale_of(bits)) as nat) <= significand_of(bits),
        significand_of(bits) < (pixels_of(bits) + 1) * pow2((1075 - scale_of(bits)) as nat),
{
    let k = (1075 - scale_of(bits)) as nat;
    lemma_pow2_pos(k);
    let d = pow2(k) as int;
    let s = significand_of(bits);
    assert((s / d) * d <= s < (s / d + 1) * d) by (nonlinear_arith)
        requires
            s >= 0,
            d > 0,
    ;
}

} // verus!
