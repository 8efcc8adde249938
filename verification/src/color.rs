//! Colour channels as bytes.
//!
//! A channel is scaled by a little less than 256 and cut to a byte: what
//! lies behind the point is dropped, what falls below zero becomes 0 and
//! what exceeds a byte 255. The scaling is the caller's; the cut is made
//! here, on the bit pattern of the scaled channel.

use vstd::arithmetic::power2::pow2;
use vstd::bits::lemma_u32_shr_is_div;
use vstd::prelude::*;

use crate::scalar::{is_number, key_of, magnitude, INFINITY_BITS, SIGN_BIT};

verus! {

/// The pattern of 255.99, the scalar by which a channel is scaled before it
/// is cut to a byte.
pub const CHANNEL_SCALE: u32 = 0x437f_fd71;

/// The first pattern of the exponent field: the field is the magnitude
/// divided by this, the fraction field the remainder.
pub const EXPONENT_UNIT: u32 = 0x80_0000;

/// The exponent field of one, and of every number from one up to two.
pub const EXPONENT_OF_ONE: u32 = 127;

/// The exponent field of 256, the first number that exceeds a byte.
pub const EXPONENT_OF_256: u32 = 135;

/// The exponent field of a pattern.
pub open spec fn exponent(bits: u32) -> int {
    magnitude(bits) / (EXPONENT_UNIT as int)
}

/// The significand of a pattern with its leading one. A number of one or
/// more with the exponent field `e` is its significand divided by two to the
/// power of `150 - e`.
pub open spec fn significand(bits: u32) -> int {
    EXPONENT_UNIT + magnitude(bits) % (EXPONENT_UNIT as int)
}

/// The byte of a scaled channel: 0 for what is not a number, for a negative
/// number and for a number below one, 255 for a number of 256 or more, and
/// else the whole part of the number.
pub open spec fn byte_of(bits: u32) -> int {
    if !is_number(bits) || bits >= SIGN_BIT || exponent(bits) < EXPONENT_OF_ONE {
        0
    } else if exponent(bits) >= EXPONENT_OF_256 {
        255
    } else {
        significand(bits) / (pow2((150 - exponent(bits)) as nat) as int)
    }
}

/// Cuts a scaled channel to a byte.
pub fn channel_byte(bits: u32) -> (byte: u8)
    ensures
        byte == byte_of(bits),
{
    if bits >= SIGN_BIT || bits > INFINITY_BITS {
        return 0;
    }
    let e: u32 = bits / EXPONENT_UNIT;
    if e < EXPONENT_OF_ONE {
        return 0;
    }
    if e >= EXPONENT_OF_256 {
        return 255;
    }
    let m: u32 = EXPONENT_UNIT + bits % EXPONENT_UNIT;
    let shift: u32 = 150 - e;
    let whole: u32 = m >> shift;
    proof {
        lemma_u32_shr_is_div(m, shift);
        assert(m >> shift < 256) by (bit_vector)
            requires
                m < 0x100_0000,
                16 <= shift <= 23,
        ;
    }
    whole as u8
}

/// Cuts the four scaled channels of a pixel to bytes, each on its own.
pub fn pixel_bytes(scaled: [u32; 4]) -> (bytes: [u8; 4])
    ensures
        forall|i: int| 0 <= i < 4 ==> #[trigger] bytes[i] == byte_of(scaled[i]),
{
    [
        channel_byte(scaled[0]),
        channel_byte(scaled[1]),
        channel_byte(scaled[2]),
        channel_byte(scaled[3]),
    ]
}

/// How often a count must be doubled to reach 255.
pub open spec fn doublings(n: int) -> nat
    decreases 510 - n,
{
    if n <= 0 || n >= 255 {
        0
    } else {
        1 + doublings(2 * n)
    }
}

/// A count doubled until it reaches 255.
pub open spec fn doubled(n: int) -> int
    decreases 510 - n,
{
    if n <= 0 || n >= 255 {
        n
    } else {
        doubled(2 * n)
    }
}

/// The pattern of the channel that belongs to a byte: of the scalar
/// nearest to the byte divided by 255. The byte is doubled into the range
/// from 255 up to 510, which gives the exponent; the significand is the
/// quotient by 255, rounded to the nearest whole number.
pub open spec fn channel_of(byte: u8) -> int {
    if byte == 0 {
        0
    } else {
        (EXPONENT_OF_ONE - doublings(byte as int)) * EXPONENT_UNIT + (doubled(byte as int)
            * 0x100_0000 + 255) / 510 - EXPONENT_UNIT
    }
}

/// Turns a byte into the channel that belongs to it.
pub fn byte_channel(byte: u8) -> (bits: u32)
    ensures
        bits == channel_of(byte),
{
    if byte == 0 {
        return 0;
    }
    let mut n: u32 = byte as u32;
    let mut s: u32 = 0;
    proof {
        vstd::arithmetic::power2::lemma2_to64();
    }
    while n < 255
        invariant
            1 <= n < 510,
            s <= 8,
            pow2(s as nat) <= n,
            doublings(byte as int) == s + doublings(n as int),
            doubled(byte as int) == doubled(n as int),
        decreases 510 - n,
    {
        proof {
            vstd::arithmetic::power2::lemma2_to64();
            vstd::arithmetic::power2::lemma_pow2_unfold((s + 1) as nat);
        }
        n = 2 * n;
        s = s + 1;
    }
    let m: u64 = (n as u64 * 0x100_0000 + 255) / 510;
    (EXPONENT_OF_ONE - s) * EXPONENT_UNIT + (m as u32 - EXPONENT_UNIT)
}

/// A count doubled until it reaches 255 is the count times a power of two,
/// lies between 255 and 510, and takes at most eight doublings.
proof fn lemma_doubled(n: int)
    requires
        1 <= n < 510,
    ensures
        doubled(n) == n * pow2(doublings(n)),
        255 <= doubled(n) < 510,
        doublings(n) <= 8,
    decreases 510 - n,
{
    vstd::arithmetic::power2::lemma2_to64();
    if n < 255 {
        lemma_doubled(2 * n);
        let k = doublings(2 * n);
        vstd::arithmetic::power2::lemma_pow2_unfold(k + 1);
        assert(n * (2 * pow2(k)) == (2 * n) * pow2(k)) by (nonlinear_arith);
    }
    let k = doublings(n);
    let p = pow2(k) as int;
    assert(p < 510) by (nonlinear_arith)
        requires
            1 <= n,
            0 <= p,
            n * p < 510,
    ;
    if k > 9 {
        vstd::arithmetic::power2::lemma_pow2_strictly_increases(9, k);
    }
}

/// The channel of a byte is the scalar nearest to the byte divided by 255:
/// it is a number from the exponent field 119 up to that of one, and it
/// misses the quotient by less than half a step of its significand.
pub proof fn lemma_channel_is_nearest(byte: u8)
    requires
        byte > 0,
    ensures
        0 < channel_of(byte) <= 0x3f80_0000,
        ({
            let bits = channel_of(byte) as u32;
            let step = pow2((150 - exponent(bits)) as nat) as int;
            &&& 119 <= exponent(bits) <= EXPONENT_OF_ONE
            &&& -255 < 2 * (255 * significand(bits) - byte * step) < 255
        }),
{
    vstd::arithmetic::power2::lemma2_to64();
    lemma_doubled(byte as int);
    let s = doublings(byte as int);
    let n = doubled(byte as int);
    let m = (n * 0x100_0000 + 255) / 510;
    assert(0x80_0000 <= m < 0x100_0000);
    let bits = channel_of(byte) as u32;
    assert(bits == (127 - s) * 0x80_0000 + (m - 0x80_0000));
    assert(exponent(bits) == 127 - s);
    assert(significand(bits) == m);
    vstd::arithmetic::power2::lemma_pow2_adds(23, s);
    assert(byte * pow2(23 + s) == n * 0x80_0000) by (nonlinear_arith)
        requires
            n == byte * pow2(s),
            pow2(23 + s) == 0x80_0000 * pow2(s),
    ;
    assert(m == 0x100_0000 ==> s == 0 && byte == 255);
}

/// The whole part of a number from one up to 256 with the exponent field
/// `e` lies between two to the power of `e - 127` and twice that.
proof fn lemma_whole_part_bounds(bits: u32)
    requires
        is_number(bits),
        bits < SIGN_BIT,
        EXPONENT_OF_ONE <= exponent(bits) < EXPONENT_OF_256,
    ensures
        pow2((exponent(bits) - 127) as nat) <= byte_of(bits) < 2 * pow2(
            (exponent(bits) - 127) as nat,
        ),
        byte_of(bits) == significand(bits) / (pow2((150 - exponent(bits)) as nat) as int),
        1 <= byte_of(bits) <= 255,
{
    vstd::arithmetic::power2::lemma2_to64();
    let e = exponent(bits);
    let m = significand(bits);
    assert(0x80_0000 <= m < 0x100_0000);
    if e == 127 {
        assert(m / 0x80_0000 == 1);
    } else if e == 128 {
        assert(2 <= m / 0x40_0000 < 4);
    } else if e == 129 {
        assert(4 <= m / 0x20_0000 < 8);
    } else if e == 130 {
        assert(8 <= m / 0x10_0000 < 16);
    } else if e == 131 {
        assert(16 <= m / 0x8_0000 < 32);
    } else if e == 132 {
        assert(32 <= m / 0x4_0000 < 64);
    } else if e == 133 {
        assert(64 <= m / 0x2_0000 < 128);
    } else {
        assert(e == 134);
        assert(128 <= m / 0x1_0000 < 256);
    }
}

/// The byte of a channel grows with the channel: of two scaled channels
/// that are numbers, the one with the larger order key has no smaller byte.
pub proof fn lemma_byte_is_monotone(a: u32, b: u32)
    requires
        is_number(a),
        is_number(b),
        key_of(a) <= key_of(b),
    ensures
        0 <= byte_of(a) <= byte_of(b) <= 255,
{
    if a < SIGN_BIT && EXPONENT_OF_ONE <= exponent(a) && exponent(a) < EXPONENT_OF_256 {
        lemma_whole_part_bounds(a);
    }
    if b < SIGN_BIT && EXPONENT_OF_ONE <= exponent(b) && exponent(b) < EXPONENT_OF_256 {
        lemma_whole_part_bounds(b);
    }
    if a < SIGN_BIT && EXPONENT_OF_ONE <= exponent(a) {
        assert(b < SIGN_BIT && magnitude(a) <= magnitude(b));
        assert(exponent(a) <= exponent(b));
        if exponent(b) < EXPONENT_OF_256 {
            let low = (exponent(a) - 127) as nat;
            let high = (exponent(b) - 127) as nat;
            if low == high {
                assert(significand(a) <= significand(b));
                vstd::arithmetic::power2::lemma_pow2_pos((150 - exponent(a)) as nat);
                vstd::arithmetic::div_mod::lemma_div_is_ordered(
                    significand(a),
                    significand(b),
                    pow2((150 - exponent(a)) as nat) as int,
                );
            } else {
                vstd::arithmetic::power2::lemma_pow2_unfold(low + 1);
                assert(byte_of(a) < pow2(low + 1));
                if low + 1 < high {
                    vstd::arithmetic::power2::lemma_pow2_strictly_increases(low + 1, high);
                }
                assert(pow2(low + 1) <= pow2(high));
            }
        }
    }
}

} // verus!
