//! # APA102 LED protocol
//!
//! APA102 (DotStar) LEDs use a clocked, SPI-like protocol:
//!
//! 1. Start frame: 32 bits of zeros
//! 2. LED frames: 32 bits per LED (3 bits set, 5-bit brightness, then blue, green, red)
//! 3. End frame: `(n - 1) / 16 + 1` bytes of zeros (at least `n / 2` bits) for `n` LEDs
//!
//! The "high definition" color handling moves brightness from 16-bit color
//! channels into the 5-bit driver brightness, so that dim colors keep their
//! resolution.

use vstd::arithmetic::div_mod::*;
use vstd::arithmetic::mul::*;
use vstd::arithmetic::power2::*;
use vstd::bits::*;
use vstd::prelude::*;

use crate::color::led::{reordered, rgb_order};
use crate::color::RgbChannels;
use crate::leds::{clocked_end_frame, clocked_frame, end_frame_len, lemma_flatten_index, lemma_flatten_len};

verus! {

/// LED implementation for the APA102 protocol.
///
/// Handles start and end frames and the LED frame format with its 5-bit
/// brightness control.
pub struct Apa102Led;

// ---------------------------------------------------------------------------
// Specifications
// ---------------------------------------------------------------------------

/// How many times the 8-bit bitshifter moves one bit of brightness from
/// `src` to `dst`: it stops once `max_shifts` is reached, once `src` is odd
/// (so no bit of it is lost), or once the top bit of `dst` is set.
pub open spec fn bitshift8_count(src: nat, dst: nat, max_shifts: nat) -> nat
    decreases max_shifts,
{
    if max_shifts == 0 || src % 2 == 1 || dst >= 128 {
        0
    } else {
        1 + bitshift8_count(src / 2, dst * 2, (max_shifts - 1) as nat)
    }
}

/// The number of top bits of a 16-bit destination that must stay clear
/// before it can be shifted by `steps` bits (at least 1, at most 16).
pub open spec fn overflow_bits(steps: u8) -> nat {
    if steps <= 1 {
        1
    } else if steps >= 16 {
        16
    } else {
        steps as nat
    }
}

/// The largest 16-bit destination value whose top `overflow_bits(steps)`
/// bits are all clear.
pub open spec fn headroom16(steps: u8) -> nat {
    0xFFFFnat / pow2(overflow_bits(steps))
}

/// How many times the 16-bit bitshifter halves `src` while multiplying
/// `dst` by `2^steps`: it stops once `max_shifts` is reached, once `src` is
/// odd, or once `dst` has a bit set among its top `overflow_bits(steps)` bits.
pub open spec fn bitshift16_count(src: nat, dst: nat, steps: u8, max_shifts: nat) -> nat
    decreases max_shifts,
{
    if max_shifts == 0 || src % 2 == 1 || dst > headroom16(steps) {
        0
    } else {
        1 + bitshift16_count(src / 2, dst * pow2(steps as nat), steps, (max_shifts - 1) as nat)
    }
}

/// `val * (scale + 1) / 256`: a 16-bit value scaled by an 8-bit fraction.
pub open spec fn scale16_by_8_spec(val: nat, scale: nat) -> nat {
    (val * (scale + 1)) / 256
}

/// A 16-bit value mapped to 8 bits with rounding, saturating at 255.
pub open spec fn map16_to_8_spec(x: nat) -> nat {
    if x == 0 {
        0
    } else if x >= 0xff00 {
        255
    } else {
        (x + 128) / 256
    }
}

/// The largest of three values.
pub open spec fn max3_spec(a: nat, b: nat, c: nat) -> nat {
    if a >= b && a >= c {
        a
    } else if b >= c {
        b
    } else {
        c
    }
}

/// The 5-bit driver brightness that a power of two `v` is widened to: all
/// bits below and including its single set bit.
pub open spec fn widen_v5(v: nat) -> nat {
    if v > 1 {
        (2 * v - 1) as nat
    } else {
        v
    }
}

/// The number of bits the global brightness takes from the initial driver
/// brightness `16` in the APA102 "high definition" bitshift (at most 4).
pub open spec fn hd_brightness_shifts(brightness: u8) -> nat {
    bitshift8_count(16, brightness as nat, 4)
}

/// The global brightness after it has taken bits from the driver brightness.
pub open spec fn hd_brightness(brightness: u8) -> nat {
    (brightness as nat) * pow2(hd_brightness_shifts(brightness))
}

/// The driver brightness left after the global brightness took its bits.
pub open spec fn hd_driver_after_brightness(brightness: u8) -> nat {
    16nat / pow2(hd_brightness_shifts(brightness))
}

/// The number of times the brightest channel takes bits, two at a time,
/// from what is left of the driver brightness (at most 4).
pub open spec fn hd_channel_shifts(r: u16, g: u16, b: u16, brightness: u8) -> nat {
    bitshift16_count(
        hd_driver_after_brightness(brightness),
        max3_spec(r as nat, g as nat, b as nat),
        2,
        4,
    )
}

/// The driver brightness, a power of two, left after both bitshifts.
pub open spec fn hd_driver(r: u16, g: u16, b: u16, brightness: u8) -> nat {
    hd_driver_after_brightness(brightness) / pow2(hd_channel_shifts(r, g, b, brightness))
}

/// A 16-bit channel after the bitshift, before scaling to 8 bits.
pub open spec fn hd_channel(c: u16, r: u16, g: u16, b: u16, brightness: u8) -> nat {
    (c as nat) * pow2(hd_channel_shifts(r, g, b, brightness))
}

/// A shifted 16-bit channel scaled by the shifted global brightness (unless
/// it is 255) and mapped to 8 bits.
pub open spec fn hd_output_channel(c: u16, r: u16, g: u16, b: u16, brightness: u8) -> nat {
    let shifted = hd_channel(c, r, g, b, brightness);
    let bri = hd_brightness(brightness);
    map16_to_8_spec(
        if bri != 255 {
            scale16_by_8_spec(shifted, bri)
        } else {
            shifted
        },
    )
}

/// The result of the APA102 "high definition" bitshift on 16-bit channels
/// `(r, g, b)` with 8-bit global `brightness`: the 8-bit channels and the
/// 5-bit driver brightness.
///
/// With zero brightness everything is off. With all channels zero, the
/// driver brightness is the global brightness, capped at 31. Otherwise the
/// global brightness takes bits from the driver brightness, the channels
/// take bits from what is left, the channels are scaled by the global
/// brightness and mapped to 8 bits, and the driver brightness is widened to
/// all the bits below its set bit.
pub open spec fn five_bit_bitshift_spec(r: u16, g: u16, b: u16, brightness: u8) -> (
    (nat, nat, nat),
    nat,
) {
    if brightness == 0 {
        ((0, 0, 0), 0)
    } else if r == 0 && g == 0 && b == 0 {
        ((0, 0, 0), if brightness <= 31 {
            brightness as nat
        } else {
            31
        })
    } else {
        (
            (
                hd_output_channel(r, r, g, b, brightness),
                hd_output_channel(g, r, g, b, brightness),
                hd_output_channel(b, r, g, b, brightness),
            ),
            widen_v5(hd_driver(r, g, b, brightness)),
        )
    }
}

// ---------------------------------------------------------------------------
// Lemmas
// ---------------------------------------------------------------------------

proof fn lemma_halve_pow2(x: nat, k: nat)
    ensures
        (x / pow2(k)) / 2 == x / pow2(k + 1),
{
    lemma_pow2_pos(k);
    lemma_div_denominator(x as int, pow2(k) as int, 2);
    lemma_pow2_adds(k, 1);
    lemma2_to64();
}

proof fn lemma_double_pow2(x: nat, k: nat)
    ensures
        (x * pow2(k)) * 2 == x * pow2(k + 1),
{
    lemma_pow2_adds(k, 1);
    lemma2_to64();
    lemma_mul_is_associative(x as int, pow2(k) as int, 2);
}

proof fn lemma_mul_pow2_step(x: nat, steps: nat, i: nat)
    ensures
        (x * pow2(steps * i)) * pow2(steps) == x * pow2(steps * (i + 1)),
{
    lemma_mul_is_distributive_add(steps as int, i as int, 1);
    lemma_pow2_adds(steps * i, steps);
    lemma_mul_is_associative(x as int, pow2(steps * i) as int, pow2(steps) as int);
}

/// The bitshift count never exceeds its budget.
proof fn lemma_bitshift8_count_le(src: nat, dst: nat, max_shifts: nat)
    ensures
        bitshift8_count(src, dst, max_shifts) <= max_shifts,
    decreases max_shifts,
{
    if !(max_shifts == 0 || src % 2 == 1 || dst >= 128) {
        lemma_bitshift8_count_le(src / 2, dst * 2, (max_shifts - 1) as nat);
    }
}

proof fn lemma_bitshift16_count_le(src: nat, dst: nat, steps: u8, max_shifts: nat)
    ensures
        bitshift16_count(src, dst, steps, max_shifts) <= max_shifts,
    decreases max_shifts,
{
    if !(max_shifts == 0 || src % 2 == 1 || dst > headroom16(steps)) {
        lemma_bitshift16_count_le(
            src / 2,
            dst * pow2(steps as nat),
            steps,
            (max_shifts - 1) as nat,
        );
    }
}


/// The 16-bit bitshifter never shifts an odd source, so a positive source
/// stays positive.
proof fn lemma_bitshift16_src_positive(src: nat, dst: nat, steps: u8, max_shifts: nat)
    requires
        src >= 1,
    ensures
        src / pow2(bitshift16_count(src, dst, steps, max_shifts)) >= 1,
    decreases max_shifts,
{
    lemma2_to64();
    if !(max_shifts == 0 || src % 2 == 1 || dst > headroom16(steps)) {
        let c = bitshift16_count(src / 2, dst * pow2(steps as nat), steps, (max_shifts - 1) as nat);
        assert(bitshift16_count(src, dst, steps, max_shifts) == 1 + c);
        lemma_bitshift16_src_positive(src / 2, dst * pow2(steps as nat), steps, (max_shifts - 1) as nat);
        lemma_pow2_pos(c);
        lemma_div_denominator(src as int, 2, pow2(c) as int);
        lemma_pow2_adds(1, c);
        assert(pow2(1 + c) == 2 * pow2(c));
        assert(src / pow2(1 + c) == (src / 2) / pow2(c));
    } else {
        assert(bitshift16_count(src, dst, steps, max_shifts) == 0);
        assert(src / pow2(0) == src);
    }
}

/// The driver brightness left after both bitshifters is one of the powers
/// of two from 1 to 16.
proof fn lemma_v5_power_of_two(s1: nat, s2: nat)
    requires
        s1 <= 4,
        s2 <= 4,
        (16nat / pow2(s1)) / pow2(s2) >= 1,
    ensures
        16nat / pow2(s1) == 1 || 16nat / pow2(s1) == 2 || 16nat / pow2(s1) == 4 || 16nat / pow2(s1) == 8 || 16nat / pow2(s1) == 16,
        ({
            let v = (16nat / pow2(s1)) / pow2(s2);
            v == 1 || v == 2 || v == 4 || v == 8 || v == 16
        }),
{
    lemma2_to64();
    let a = 16nat / pow2(s1);
    if s1 == 0 {
        assert(pow2(s1) == 1);
        assert(a == 16nat / 1);
    } else if s1 == 1 {
        assert(pow2(s1) == 2);
        assert(a == 16nat / 2);
    } else if s1 == 2 {
        assert(pow2(s1) == 4);
        assert(a == 16nat / 4);
    } else if s1 == 3 {
        assert(pow2(s1) == 8);
        assert(a == 16nat / 8);
    } else {
        assert(pow2(s1) == 16);
        assert(a == 16nat / 16);
    }
    let v = a / pow2(s2);
    if s2 == 0 {
        assert(pow2(s2) == 1);
        assert(v == a / 1);
    } else if s2 == 1 {
        assert(pow2(s2) == 2);
        assert(v == a / 2);
    } else if s2 == 2 {
        assert(pow2(s2) == 4);
        assert(v == a / 4);
    } else if s2 == 3 {
        assert(pow2(s2) == 8);
        assert(v == a / 8);
    } else {
        assert(pow2(s2) == 16);
        assert(v == a / 16);
    }
}


// ---------------------------------------------------------------------------
// Laws
// ---------------------------------------------------------------------------

/// The 16-bit bitshifter loses no bit of its source: the source after the
/// shifts, multiplied back by `2^shifts`, is the source before.
pub proof fn lemma_bitshift16_lossless(src: nat, dst: nat, steps: u8, max_shifts: nat)
    ensures
        (src / pow2(bitshift16_count(src, dst, steps, max_shifts))) * pow2(
            bitshift16_count(src, dst, steps, max_shifts),
        ) == src,
    decreases max_shifts,
{
    lemma2_to64();
    if !(max_shifts == 0 || src % 2 == 1 || dst > headroom16(steps)) {
        let c = bitshift16_count(src / 2, dst * pow2(steps as nat), steps, (max_shifts - 1) as nat);
        assert(bitshift16_count(src, dst, steps, max_shifts) == 1 + c);
        lemma_bitshift16_lossless(src / 2, dst * pow2(steps as nat), steps, (max_shifts - 1) as nat);
        lemma_pow2_pos(c);
        lemma_div_denominator(src as int, 2, pow2(c) as int);
        lemma_pow2_adds(1, c);
        assert(pow2(1 + c) == 2 * pow2(c));
        assert(src / pow2(1 + c) == (src / 2) / pow2(c));
        assert(((src / 2) / pow2(c)) * pow2(c) == src / 2);
        lemma_mul_is_associative(((src / 2) / pow2(c)) as int, pow2(c) as int, 2);
        lemma_mul_is_commutative(pow2(c) as int, 2);
        assert((src / 2) * 2 == src);
    } else {
        assert(bitshift16_count(src, dst, steps, max_shifts) == 0);
    }
}

/// `16 / 2^s * 2^s == 16` for the shifts the brightness can take.
proof fn lemma_sixteen_divides(s: nat)
    requires
        s <= 4,
    ensures
        (16nat / pow2(s)) * pow2(s) == 16,
{
    lemma2_to64();
    if s == 0 {
        assert(pow2(s) == 1);
        assert((16nat / 1) * 1 == 16);
    } else if s == 1 {
        assert(pow2(s) == 2);
        assert((16nat / 2) * 2 == 16);
    } else if s == 2 {
        assert(pow2(s) == 4);
        assert((16nat / 4) * 4 == 16);
    } else if s == 3 {
        assert(pow2(s) == 8);
        assert((16nat / 8) * 8 == 16);
    } else {
        assert(pow2(s) == 16);
        assert((16nat / 16) * 16 == 16);
    }
}

/// The driver brightness the APA102 bitshift produces always fits in 5 bits;
/// when anything is lit it is one of 1, 3, 7, 15 or 31.
pub proof fn lemma_five_bit_driver_brightness(r: u16, g: u16, b: u16, brightness: u8)
    ensures
        five_bit_bitshift_spec(r, g, b, brightness).1 <= 31,
        brightness != 0 && !(r == 0 && g == 0 && b == 0) ==> {
            let v = five_bit_bitshift_spec(r, g, b, brightness).1;
            v == 1 || v == 3 || v == 7 || v == 15 || v == 31
        },
{
    if brightness != 0 && !(r == 0 && g == 0 && b == 0) {
        let s1 = hd_brightness_shifts(brightness);
        let v5a = hd_driver_after_brightness(brightness);
        let m = max3_spec(r as nat, g as nat, b as nat);
        lemma2_to64();
        lemma_bitshift8_count_le(16, brightness as nat, 4);
        lemma_bitshift16_count_le(v5a, m, 2, 4);
        lemma_pow2_pos(s1);
        lemma_div_is_ordered_by_denominator(16, pow2(s1) as int, 16);
        lemma_bitshift16_src_positive(v5a, m, 2, 4);
        lemma_v5_power_of_two(s1, hd_channel_shifts(r, g, b, brightness));
    }
}

/// The APA102 bitshift moves brightness between the driver brightness, the
/// global brightness and the channels without changing their product:
/// for every channel value `c`, (driver brightness) x (global brightness) x
/// (shifted channel) is `16 x brightness x c`, as before the shifts.
pub proof fn lemma_five_bit_product_preserved(c: u16, r: u16, g: u16, b: u16, brightness: u8)
    requires
        brightness != 0,
        !(r == 0 && g == 0 && b == 0),
    ensures
        hd_driver(r, g, b, brightness) * hd_brightness(brightness) * hd_channel(c, r, g, b, brightness)
            == 16 * (brightness as nat) * (c as nat),
{
    let s1 = hd_brightness_shifts(brightness);
    let s2 = hd_channel_shifts(r, g, b, brightness);
    let v5a = hd_driver_after_brightness(brightness);
    let v5b = hd_driver(r, g, b, brightness);
    let m = max3_spec(r as nat, g as nat, b as nat);
    lemma_bitshift8_count_le(16, brightness as nat, 4);
    lemma_sixteen_divides(s1);
    lemma_bitshift16_lossless(v5a, m, 2, 4);
    assert(v5b * pow2(s2) == v5a);
    assert(v5a * pow2(s1) == 16);
    let p1 = pow2(s1);
    let p2 = pow2(s2);
    let bn = brightness as nat;
    let cn = c as nat;
    assert(v5b * (bn * p1) * (cn * p2) == (v5b * p2) * p1 * bn * cn) by (nonlinear_arith);
}

proof fn lemma_map16_to_8_monotone(x: nat, y: nat)
    requires
        x <= y,
    ensures
        map16_to_8_spec(x) <= map16_to_8_spec(y),
{
    if x != 0 && y < 0xff00 {
        lemma_div_is_ordered((x + 128) as int, (y + 128) as int, 256);
    }
    if x != 0 && x < 0xff00 {
        assert((x + 128) / 256 <= 255);
    }
}

/// The APA102 bitshift treats all channels alike: a channel that is no
/// brighter than another before the bitshift is no brighter after it.
pub proof fn lemma_five_bit_monotone(c1: u16, c2: u16, r: u16, g: u16, b: u16, brightness: u8)
    requires
        c1 <= c2,
    ensures
        hd_output_channel(c1, r, g, b, brightness) <= hd_output_channel(c2, r, g, b, brightness),
{
    let p = pow2(hd_channel_shifts(r, g, b, brightness));
    let x = hd_channel(c1, r, g, b, brightness);
    let y = hd_channel(c2, r, g, b, brightness);
    let bri = hd_brightness(brightness);
    lemma_mul_inequality(c1 as int, c2 as int, p as int);
    if bri != 255 {
        lemma_mul_inequality(x as int, y as int, (bri + 1) as int);
        lemma_div_is_ordered((x * (bri + 1)) as int, (y * (bri + 1)) as int, 256);
        lemma_map16_to_8_monotone(scale16_by_8_spec(x, bri), scale16_by_8_spec(y, bri));
    } else {
        lemma_map16_to_8_monotone(x, y);
    }
}

/// The 8-bit bitshifter, started from a power of two `2^a`, stops only for
/// a reason: its budget `m` is spent, the source is down to 1, or the
/// destination reached its top half.
proof fn lemma_bitshift8_from_pow2(a: nat, dst: nat, m: nat)
    requires
        0 < dst < 256,
    ensures
        bitshift8_count(pow2(a), dst, m) <= m,
        bitshift8_count(pow2(a), dst, m) <= a,
        dst * pow2(bitshift8_count(pow2(a), dst, m)) < 256,
        bitshift8_count(pow2(a), dst, m) == m || bitshift8_count(pow2(a), dst, m) == a || dst
            * pow2(bitshift8_count(pow2(a), dst, m)) >= 128,
    decreases m,
{
    let k = bitshift8_count(pow2(a), dst, m);
    lemma2_to64();
    if a == 0 {
        assert(k == 0);
    } else {
        lemma_pow2_unfold(a);
        if m == 0 || dst >= 128 {
            assert(k == 0);
        } else {
            let a1 = (a - 1) as nat;
            assert(pow2(a) / 2 == pow2(a1));
            lemma_bitshift8_from_pow2(a1, dst * 2, (m - 1) as nat);
            let k1 = bitshift8_count(pow2(a1), dst * 2, (m - 1) as nat);
            assert(k == 1 + k1);
            lemma_pow2_unfold(k);
            assert(dst * pow2(k) == (dst * 2) * pow2(k1)) by (nonlinear_arith)
                requires
                    pow2(k) == 2 * pow2(k1),
            ;
        }
    }
}

/// The 16-bit bitshifter, taking two bits at a time and started from a power
/// of two `2^a`, stops only for a reason: its budget `m` is spent, the source
/// is down to 1, or the destination has a bit among its top two.
proof fn lemma_bitshift16_from_pow2(a: nat, dst: nat, m: nat)
    requires
        0 < dst < 65536,
    ensures
        bitshift16_count(pow2(a), dst, 2, m) <= m,
        bitshift16_count(pow2(a), dst, 2, m) <= a,
        dst * pow2(2 * bitshift16_count(pow2(a), dst, 2, m)) < 65536,
        bitshift16_count(pow2(a), dst, 2, m) == m || bitshift16_count(pow2(a), dst, 2, m) == a
            || dst * pow2(2 * bitshift16_count(pow2(a), dst, 2, m)) > 16383,
    decreases m,
{
    let k = bitshift16_count(pow2(a), dst, 2, m);
    lemma2_to64();
    assert(overflow_bits(2) == 2);
    assert(headroom16(2) == 16383);
    if a == 0 {
        assert(k == 0);
    } else {
        lemma_pow2_unfold(a);
        if m == 0 || dst > 16383 {
            assert(k == 0);
        } else {
            let a1 = (a - 1) as nat;
            assert(pow2(a) / 2 == pow2(a1));
            assert(pow2(2u8 as nat) == 4);
            lemma_bitshift16_from_pow2(a1, dst * 4, (m - 1) as nat);
            let k1 = bitshift16_count(pow2(a1), dst * 4, 2, (m - 1) as nat);
            assert(k == 1 + k1);
            lemma_pow2_adds(2, 2 * k1);
            assert(2 + 2 * k1 == 2 * k);
            assert(dst * pow2(2 * k) == (dst * 4) * pow2(2 * k1)) by (nonlinear_arith)
                requires
                    pow2(2 * k) == 4 * pow2(2 * k1),
            ;
        }
    }
}

/// What the APA102 "high definition" bitshift does to a lit color (nonzero
/// global brightness and some nonzero channel):
///
/// - the global brightness is doubled `s1` times: as often as it stays below
///   256, at most 4 times;
/// - the channels are doubled `s2` times: as often as the brightest of them,
///   counted two bits per doubling, stays below 65536, at most `4 - s1`
///   times;
/// - the driver brightness keeps the `5 - s1 - s2` low bits, all set;
/// - each 8-bit channel is its doubled 16-bit value, scaled by the doubled
///   global brightness (unless that is 255), rounded to 8 bits.
pub proof fn lemma_five_bit_bitshift_shifts(r: u16, g: u16, b: u16, brightness: u8)
    requires
        brightness > 0,
        r > 0 || g > 0 || b > 0,
    ensures
        exists|s1: nat, s2: nat|
            #![trigger pow2(s1), pow2(s2)]
            {
                let out = five_bit_bitshift_spec(r, g, b, brightness);
                let bri = brightness * pow2(s1);
                let scaled = |c: u16|
                    if bri == 255 {
                        c * pow2(s2)
                    } else {
                        (c * pow2(s2) * (bri + 1)) / 256
                    };
                let to8 = |x: int|
                    if x == 0 {
                        0int
                    } else if x >= 0xff00 {
                        255int
                    } else {
                        (x + 128) / 256
                    };
                &&& s1 + s2 <= 4
                &&& bri < 256
                &&& (s1 == 4 || bri >= 128)
                &&& r * pow2(2 * s2) < 65536
                &&& g * pow2(2 * s2) < 65536
                &&& b * pow2(2 * s2) < 65536
                &&& (s1 + s2 == 4 || r * pow2(2 * s2) > 16383 || g * pow2(2 * s2) > 16383 || b
                    * pow2(2 * s2) > 16383)
                &&& out.1 == pow2((5 - s1 - s2) as nat) - 1
                &&& out.0.0 == to8(scaled(r))
                &&& out.0.1 == to8(scaled(g))
                &&& out.0.2 == to8(scaled(b))
            },
{
    lemma_hd_shift_counts(r, g, b, brightness);
    let s1 = hd_brightness_shifts(brightness);
    let s2 = hd_channel_shifts(r, g, b, brightness);
    let out = five_bit_bitshift_spec(r, g, b, brightness);
    let bri = brightness * pow2(s1);
    let scaled = |c: u16|
        if bri == 255 {
            c * pow2(s2)
        } else {
            (c * pow2(s2) * (bri + 1)) / 256
        };
    let to8 = |x: int|
        if x == 0 {
            0int
        } else if x >= 0xff00 {
            255int
        } else {
            (x + 128) / 256
        };
    assert(out.0.0 == to8(scaled(r)));
    assert(out.0.1 == to8(scaled(g)));
    assert(out.0.2 == to8(scaled(b)));
}

/// `2^a / 2^b == 2^(a - b)`.
proof fn lemma_pow2_quotient(a: nat, b: nat)
    requires
        b <= a,
    ensures
        pow2(a) / pow2(b) == pow2((a - b) as nat),
{
    lemma_pow2_adds((a - b) as nat, b);
    lemma_pow2_pos(b);
    let q = pow2((a - b) as nat);
    let d = pow2(b);
    assert((q * d) / d == q) by (nonlinear_arith)
        requires
            d > 0,
    ;
}

/// The shift counts of the "high definition" bitshift of a lit color, and
/// the driver brightness they leave.
proof fn lemma_hd_shift_counts(r: u16, g: u16, b: u16, brightness: u8)
    requires
        brightness > 0,
        r > 0 || g > 0 || b > 0,
    ensures
        ({
            let s1 = hd_brightness_shifts(brightness);
            let s2 = hd_channel_shifts(r, g, b, brightness);
            &&& s1 + s2 <= 4
            &&& brightness * pow2(s1) < 256
            &&& (s1 == 4 || brightness * pow2(s1) >= 128)
            &&& r * pow2(2 * s2) < 65536
            &&& g * pow2(2 * s2) < 65536
            &&& b * pow2(2 * s2) < 65536
            &&& (s1 + s2 == 4 || r * pow2(2 * s2) > 16383 || g * pow2(2 * s2) > 16383 || b
                * pow2(2 * s2) > 16383)
            &&& widen_v5(hd_driver(r, g, b, brightness)) == pow2((5 - s1 - s2) as nat) - 1
        }),
{
    lemma2_to64();
    let s1 = hd_brightness_shifts(brightness);
    let s2 = hd_channel_shifts(r, g, b, brightness);
    lemma_bitshift8_from_pow2(4, brightness as nat, 4);
    lemma_pow2_quotient(4, s1);
    assert(hd_driver_after_brightness(brightness) == pow2((4 - s1) as nat));
    let m = max3_spec(r as nat, g as nat, b as nat);
    lemma_bitshift16_from_pow2((4 - s1) as nat, m, 4);
    let p = pow2(2 * s2);
    lemma_pow2_pos(2 * s2);
    assert(r * p <= m * p && g * p <= m * p && b * p <= m * p) by (nonlinear_arith)
        requires
            r <= m,
            g <= m,
            b <= m,
            p > 0,
    ;
    lemma_pow2_quotient((4 - s1) as nat, s2);
    let t = (4 - s1 - s2) as nat;
    assert(hd_driver(r, g, b, brightness) == pow2(t));
    lemma_pow2_unfold(t + 1);
    if t > 0 {
        lemma_pow2_unfold(t);
        lemma_pow2_pos((t - 1) as nat);
    }
    assert((5 - s1 - s2) as nat == t + 1);
}

// ---------------------------------------------------------------------------
// Executable code
// ---------------------------------------------------------------------------

/// Steals brightness from `brightness_src` and adds it to `brightness_dst`
/// without changing the product of the two: each shift halves the source
/// and doubles the destination. Returns the number of shifts performed.
///
/// Nothing is shifted when either value is zero. Otherwise shifting stops
/// after `max_shifts` shifts, once the source is odd (so no bit of the
/// source is ever lost), or once the top bit of the destination is set.
pub fn brightness_bitshifter8(brightness_src: &mut u8, brightness_dst: &mut u8, max_shifts: u8) -> (shifts: u8)
    ensures
        shifts <= max_shifts,
        *old(brightness_dst) == 0 || *old(brightness_src) == 0 ==> {
            &&& shifts == 0
            &&& *final(brightness_src) == *old(brightness_src)
            &&& *final(brightness_dst) == *old(brightness_dst)
        },
        *old(brightness_dst) != 0 && *old(brightness_src) != 0 ==> {
            &&& shifts == bitshift8_count(*old(brightness_src) as nat, *old(brightness_dst) as nat, max_shifts as nat)
            &&& *final(brightness_dst) == *old(brightness_dst) * pow2(shifts as nat)
            &&& *final(brightness_src) == *old(brightness_src) as nat / pow2(shifts as nat)
        },
        *final(brightness_src) as nat * *final(brightness_dst) as nat == *old(brightness_src) as nat
            * *old(brightness_dst) as nat,
{
    let mut src = *brightness_src;
    if *brightness_dst == 0 || src == 0 {
        proof {
            lemma2_to64();
        }
        return 0;
    }
    let ghost src0 = src as nat;
    let ghost dst0 = *brightness_dst as nat;
    let mut curr = *brightness_dst;
    let mut shifts: u8 = 0;
    proof {
        lemma2_to64();
    }
    while shifts < max_shifts
        invariant_except_break
            shifts <= max_shifts,
            curr == dst0 * pow2(shifts as nat),
            src == src0 / pow2(shifts as nat),
            src0 == src as nat * pow2(shifts as nat),
            bitshift8_count(src0, dst0, max_shifts as nat) == shifts + bitshift8_count(
                src as nat,
                curr as nat,
                (max_shifts - shifts) as nat,
            ),
        ensures
            shifts <= max_shifts,
            curr == dst0 * pow2(shifts as nat),
            src == src0 / pow2(shifts as nat),
            src0 == src as nat * pow2(shifts as nat),
            bitshift8_count(src0, dst0, max_shifts as nat) == shifts,
        decreases max_shifts - shifts,
    {
        assert((src & 1u8 != 0) == (src % 2 == 1)) by (bit_vector);
        if src & 1 != 0 {
            break;
        }
        assert((curr & 0b1000_0000u8 != 0) == (curr >= 128)) by (bit_vector);
        if curr & 0b1000_0000 != 0 {
            break;
        }
        assert(curr < 128 ==> (curr << 1u8) == curr * 2) by (bit_vector);
        assert((src >> 1u8) == src / 2) by (bit_vector);
        proof {
            lemma_double_pow2(dst0, shifts as nat);
            lemma_halve_pow2(src0, shifts as nat);
            lemma_double_pow2((src / 2) as nat, shifts as nat);
            let half = (src / 2) as nat;
            let p = pow2(shifts as nat);
            assert(src as nat * p == (half * p) * 2) by (nonlinear_arith)
                requires
                    src as nat == half * 2,
            ;
        }
        curr = curr << 1u8;
        src = src >> 1u8;
        shifts = shifts + 1;
    }
    proof {
        assert(src as nat * curr as nat == src0 * dst0) by (nonlinear_arith)
            requires
                curr == dst0 * pow2(shifts as nat),
                src0 == src as nat * pow2(shifts as nat),
        ;
    }
    *brightness_dst = curr;
    *brightness_src = src;
    shifts
}

/// Steals brightness from `brightness_src` (an 8-bit brightness) and adds it
/// to `brightness_dst` (a 16-bit color channel): each shift halves the source
/// and multiplies the destination by `2^steps`. Returns the number of shifts
/// performed.
///
/// Nothing is shifted when either value is zero. Otherwise shifting stops
/// after `max_shifts` shifts, once the source is odd (so no bit of the source
/// is ever lost), or once the destination has a bit set among its top `steps`
/// bits (at least one, at most sixteen), so that it never overflows.
pub fn brightness_bitshifter16(
    brightness_src: &mut u8,
    brightness_dst: &mut u16,
    max_shifts: u8,
    steps: u8,
) -> (shifts: u8)
    ensures
        shifts <= max_shifts,
        *old(brightness_dst) == 0 || *old(brightness_src) == 0 ==> {
            &&& shifts == 0
            &&& *final(brightness_src) == *old(brightness_src)
            &&& *final(brightness_dst) == *old(brightness_dst)
        },
        *old(brightness_dst) != 0 && *old(brightness_src) != 0 ==> {
            &&& shifts == bitshift16_count(
                *old(brightness_src) as nat,
                *old(brightness_dst) as nat,
                steps,
                max_shifts as nat,
            )
            &&& *final(brightness_dst) == *old(brightness_dst) * pow2((steps * shifts) as nat)
            &&& *final(brightness_src) == *old(brightness_src) as nat / pow2(shifts as nat)
        },
{
    let mut src = *brightness_src;
    if *brightness_dst == 0 || src == 0 {
        proof {
            lemma2_to64();
        }
        return 0;
    }
    let ghost src0 = src as nat;
    let ghost dst0 = *brightness_dst as nat;

    // The top `overflow_bits(steps)` bits of a 16-bit word.
    let mut overflow_mask: u16 = 0b1000_0000_0000_0000;
    let mut j: u8 = 1;
    assert(overflow_mask as u32 == (0xFFFF_0000u32 >> 1u32) & 0xFFFF) by (bit_vector)
        requires
            overflow_mask == 0b1000_0000_0000_0000u16,
    ;
    while j < steps
        invariant
            1 <= j,
            j <= steps || (j == 1 && steps < 1),
            overflow_mask as u32 == (0xFFFF_0000u32 >> (if j >= 16 {
                16u32
            } else {
                j as u32
            })) & 0xFFFF,
        decreases steps - j,
    {
        let ghost k: u32 = if j >= 16 {
            16u32
        } else {
            j as u32
        };
        let ghost k2: u32 = if j + 1 >= 16 {
            16u32
        } else {
            (j + 1) as u32
        };
        let m = overflow_mask;
        assert(((m >> 1u16) | 0x8000u16) as u32 == (0xFFFF_0000u32 >> k2) & 0xFFFF) by (bit_vector)
            requires
                m as u32 == (0xFFFF_0000u32 >> k) & 0xFFFF,
                1 <= k <= 16,
                k2 == if k >= 16 {
                    16u32
                } else {
                    (k + 1) as u32
                },
        ;
        overflow_mask = overflow_mask >> 1u16;
        overflow_mask = overflow_mask | 0b1000_0000_0000_0000;
        j = j + 1;
    }
    let ghost kk: u32 = if j >= 16 {
        16u32
    } else {
        j as u32
    };
    assert(kk as nat == overflow_bits(steps));
    proof {
        lemma_u32_shr_is_div(0xFFFFu32, kk);
        lemma2_to64();
        lemma2_to64_rest();
    }
    assert(0xFFFFu32 >> kk == headroom16(steps));

    let underflow_mask: u8 = 0x1;
    let mut curr = *brightness_dst;
    let mut shifts: u8 = 0;
    proof {
        lemma2_to64();
        assert((steps * shifts) as nat == 0);
        assert(dst0 * pow2(0) == dst0);
    }
    while shifts < max_shifts
        invariant_except_break
            shifts <= max_shifts,
            dst0 >= 1,
            curr == dst0 * pow2((steps * shifts) as nat),
            src == src0 / pow2(shifts as nat),
            overflow_mask as u32 == (0xFFFF_0000u32 >> kk) & 0xFFFF,
            1 <= kk <= 16,
            kk as nat == overflow_bits(steps),
            0xFFFFu32 >> kk == headroom16(steps),
            underflow_mask == 1,
            bitshift16_count(src0, dst0, steps, max_shifts as nat) == shifts + bitshift16_count(
                src as nat,
                curr as nat,
                steps,
                (max_shifts - shifts) as nat,
            ),
        ensures
            shifts <= max_shifts,
            curr == dst0 * pow2((steps * shifts) as nat),
            src == src0 / pow2(shifts as nat),
            bitshift16_count(src0, dst0, steps, max_shifts as nat) == shifts,
        decreases max_shifts - shifts,
    {
        assert((src & 1u8 != 0) == (src % 2 == 1)) by (bit_vector);
        if src & underflow_mask != 0 {
            break;
        }
        let ghost c = curr;
        let ghost m = overflow_mask;
        assert((c & m != 0) == (c as u32 > (0xFFFFu32 >> kk))) by (bit_vector)
            requires
                m as u32 == (0xFFFF_0000u32 >> kk) & 0xFFFF,
                1 <= kk <= 16,
        ;
        if curr & overflow_mask != 0 {
            break;
        }
        // Here `curr <= headroom16(steps)`, and `curr >= 1`, so `steps < 16`.
        proof {
            lemma_pow2_pos((steps * shifts) as nat);
            lemma_mul_increases(pow2((steps * shifts) as nat) as int, dst0 as int);
            lemma_mul_is_commutative(pow2((steps * shifts) as nat) as int, dst0 as int);
            if steps >= 16 {
                assert(overflow_bits(steps) == 16);
                lemma2_to64();
                assert(headroom16(steps) == 0);
                assert(false);
            }
            let sh = steps as u16;
            lemma_u16_shr_is_div(0xFFFFu16, sh);
            if (steps as nat) < overflow_bits(steps) {
                lemma_pow2_strictly_increases(steps as nat, overflow_bits(steps));
            }
            lemma_pow2_pos(steps as nat);
            lemma_div_is_ordered_by_denominator(
                0xFFFF,
                pow2(steps as nat) as int,
                pow2(overflow_bits(steps)) as int,
            );
            lemma_u16_mul_pow2_le_max_iff_max_shr(curr, sh, 0xFFFFu16);
            lemma_u16_shl_is_mul(curr, sh);
            lemma_mul_pow2_step(dst0, steps as nat, shifts as nat);
            lemma_halve_pow2(src0, shifts as nat);
        }
        assert((src >> 1u8) == src / 2) by (bit_vector);
        curr = curr << (steps as u16);
        src = src >> 1u8;
        shifts = shifts + 1;
    }
    *brightness_dst = curr;
    *brightness_src = src;
    shifts
}

/// Scales a 16-bit value by an 8-bit value, treating the 8-bit value as a
/// fraction from `1/256` to `256/256`.
pub fn scale16_by_8(val: u16, scale: u8) -> (r: u16)
    ensures
        r == scale16_by_8_spec(val as nat, scale as nat),
        r <= val,
{
    assert((val as u32) * (scale as u32 + 1) <= 65535 * 256) by (nonlinear_arith)
        requires
            val <= 65535,
            scale <= 255,
    ;
    let prod: u32 = val as u32 * (scale as u32 + 1);
    assert(prod == val * (scale + 1)) by (nonlinear_arith)
        requires
            prod == (val as u32) * (scale as u32 + 1),
            val <= 0xFFFF,
            scale <= 0xFF,
    ;
    assert(prod >> 8u32 == prod / 256) by (bit_vector);
    assert((val * (scale + 1)) / 256 <= val) by (nonlinear_arith)
        requires
            scale <= 255,
    ;
    (prod >> 8u32) as u16
}

/// Maps a 16-bit value to an 8-bit value, with rounding.
pub fn map16_to_8(x: u16) -> (r: u8)
    ensures
        r == map16_to_8_spec(x as nat),
{
    if x == 0 {
        return 0;
    }
    if x >= 0xff00 {
        return 0xff;
    }
    let y = x + 128;
    assert(y >> 8u16 == y / 256) by (bit_vector);
    (y >> 8u16) as u8
}

/// Returns the maximum of three values.
pub fn max3(a: u16, b: u16, c: u16) -> (r: u16)
    ensures
        r == max3_spec(a as nat, b as nat, c as nat),
{
    let ab = if a >= b {
        a
    } else {
        b
    };
    if ab >= c {
        ab
    } else {
        c
    }
}

/// Implements the core APA102 "high definition" bitshift routine: takes
/// 16-bit color channels and an 8-bit global brightness, then moves
/// brightness bits from the color channels into a 5-bit driver brightness.
///
/// Returns the new 8-bit `(r, g, b)` channels and the 5-bit driver brightness.
pub fn five_bit_bitshift(r16: u16, g16: u16, b16: u16, brightness: u8) -> (out: ((u8, u8, u8), u8))
    ensures
        ((out.0.0 as nat, out.0.1 as nat, out.0.2 as nat), out.1 as nat) == five_bit_bitshift_spec(
            r16,
            g16,
            b16,
            brightness,
        ),
{
    if brightness == 0 {
        return ((0, 0, 0), 0);
    }
    if r16 == 0 && g16 == 0 && b16 == 0 {
        let out_power = if brightness <= 31 {
            brightness
        } else {
            31
        };
        return ((0, 0, 0), out_power);
    }
    let ghost bri0 = brightness;
    let mut brightness = brightness;
    let mut r16 = r16;
    let mut g16 = g16;
    let mut b16 = b16;
    let ghost (r0, g0, b0) = (r16, g16, b16);

    // The driver brightness starts at the middle of its 5-bit range.
    let mut v5: u8 = 0b00010000;
    brightness_bitshifter8(&mut v5, &mut brightness, 4);
    let ghost s1 = bitshift8_count(16, bri0 as nat, 4);
    proof {
        lemma2_to64();
        lemma_bitshift8_count_le(16, bri0 as nat, 4);
    }
    assert(v5 as nat == 16nat / pow2(s1));
    assert(brightness as nat == (bri0 as nat) * pow2(s1));

    let mut max_component = max3(r16, g16, b16);
    let ghost m0 = max_component;
    let ghost v5a = v5;
    proof {
        lemma_pow2_pos(s1);
        lemma_div_is_ordered_by_denominator(16, pow2(s1) as int, 16);
    }
    assert(v5a >= 1);
    let shifts = brightness_bitshifter16(&mut v5, &mut max_component, 4, 2);
    let ghost s2 = shifts as nat;
    proof {
        lemma_bitshift16_src_positive(v5a as nat, m0 as nat, 2, 4);
        lemma_v5_power_of_two(s1, s2);
        lemma_pow2_pos(s2);
        lemma_pow2_pos((2 * shifts) as nat);
    }
    assert(max_component as nat == (m0 as nat) * pow2((2 * shifts) as nat));

    if shifts > 0 {
        // No channel overflows: each is at most the brightest one, which fit
        // after being shifted by twice as many bits.
        proof {
            if s2 < 2 * s2 {
                lemma_pow2_strictly_increases(s2, 2 * s2);
            }
            lemma_mul_inequality(r16 as int, m0 as int, pow2(s2) as int);
            lemma_mul_inequality(g16 as int, m0 as int, pow2(s2) as int);
            lemma_mul_inequality(b16 as int, m0 as int, pow2(s2) as int);
            lemma_mul_inequality(pow2(s2) as int, pow2(2 * s2) as int, m0 as int);
            lemma_mul_is_commutative(pow2(s2) as int, m0 as int);
            lemma_mul_is_commutative(pow2(2 * s2) as int, m0 as int);
            assert(r16 * pow2(s2) <= 0xFFFF);
            assert(g16 * pow2(s2) <= 0xFFFF);
            assert(b16 * pow2(s2) <= 0xFFFF);
            assert((shifts as u16) as nat == s2);
            lemma_u16_shl_is_mul(r16, shifts as u16);
            lemma_u16_shl_is_mul(g16, shifts as u16);
            lemma_u16_shl_is_mul(b16, shifts as u16);
        }
        r16 = r16 << (shifts as u16);
        g16 = g16 << (shifts as u16);
        b16 = b16 << (shifts as u16);
    } else {
        assert(pow2(s2) == 1);
        proof {
            lemma_mul_basics(r0 as int);
            lemma_mul_basics(g0 as int);
            lemma_mul_basics(b0 as int);
        }
        assert((r0 as nat) * pow2(s2) == r0);
        assert((g0 as nat) * pow2(s2) == g0);
        assert((b0 as nat) * pow2(s2) == b0);
    }
    assert(r16 as nat == (r0 as nat) * pow2(s2));
    assert(g16 as nat == (g0 as nat) * pow2(s2));
    assert(b16 as nat == (b0 as nat) * pow2(s2));

    if brightness != 0xff {
        r16 = scale16_by_8(r16, brightness);
        g16 = scale16_by_8(g16, brightness);
        b16 = scale16_by_8(b16, brightness);
    }

    let v5b = v5;
    let v5 = if v5 > 1 {
        assert((v5b | ((v5b - 1) as u8)) == ((2 * v5b - 1) as u8)) by (bit_vector)
            requires
                v5b == 2 || v5b == 4 || v5b == 8 || v5b == 16,
        ;
        v5 | (v5 - 1)
    } else {
        v5
    };

    ((map16_to_8(r16), map16_to_8(g16), map16_to_8(b16)), v5)
}

/// The 4-byte LED frame of one APA102 LED: three set bits and the 5-bit
/// driver brightness, then the channels in blue, green, red order.
pub open spec fn apa102_led_frame_spec(r16: u16, g16: u16, b16: u16, brightness: u8) -> Seq<u8> {
    let out = five_bit_bitshift_spec(r16, g16, b16, brightness);
    seq![(0xE0 + out.1) as u8].add(
        reordered(
            rgb_order(RgbChannels::BGR),
            seq![out.0.0 as u8, out.0.1 as u8, out.0.2 as u8],
        ),
    )
}

/// The LED frame of each pixel at the global brightness.
pub open spec fn apa102_leds(pixels: Seq<(u16, u16, u16)>, brightness: u8) -> Seq<Seq<u8>> {
    pixels.map_values(|p: (u16, u16, u16)| apa102_led_frame_spec(p.0, p.1, p.2, brightness))
}

/// An APA102 frame for `n` LEDs is a 32-bit start frame, 32 bits per LED
/// and the end frame: `4 + 4 * n` bytes and the end frame's.
pub proof fn lemma_apa102_frame_len(pixels: Seq<(u16, u16, u16)>, brightness: u8)
    requires
        pixels.len() >= 1,
    ensures
        clocked_frame(apa102_leds(pixels, brightness), pixels.len()).len() == 4 + pixels.len() * 4
            + end_frame_len(pixels.len()),
{
    let leds = apa102_leds(pixels, brightness);
    assert forall|i: int| 0 <= i < leds.len() implies #[trigger] leds[i].len() == 4 by {
        let p = pixels[i];
        assert(apa102_led_frame_spec(p.0, p.1, p.2, brightness).len() == 4);
    }
    lemma_flatten_len(leds, 4);
}

/// The 8-bit channels of the "high definition" bitshift fit in a byte.
proof fn lemma_five_bit_channels_fit(r: u16, g: u16, b: u16, brightness: u8)
    ensures
        five_bit_bitshift_spec(r, g, b, brightness).0.0 <= 255,
        five_bit_bitshift_spec(r, g, b, brightness).0.1 <= 255,
        five_bit_bitshift_spec(r, g, b, brightness).0.2 <= 255,
{
}

/// An APA102 frame for `pixel_count` LEDs: four zero bytes, then for each
/// pixel, in turn, the three top bits set with its 5-bit driver brightness,
/// and its blue, green and red 8-bit channels, as the "high definition"
/// bitshift gives them for that pixel; then `(pixel_count - 1) / 16 + 1`
/// zero bytes.
pub proof fn lemma_apa102_frame_bytes(pixels: Seq<(u16, u16, u16)>, brightness: u8, pixel_count: nat)
    requires
        pixel_count >= 1,
    ensures
        ({
            let frame = clocked_frame(apa102_leds(pixels, brightness), pixel_count);
            &&& frame.len() == 4 + 4 * pixels.len() + (pixel_count - 1) / 16 + 1
            &&& forall|k: int| 0 <= k < 4 ==> #[trigger] frame[k] == 0
            &&& forall|i: int|
                #![trigger pixels[i]]
                0 <= i < pixels.len() ==> {
                    let out = five_bit_bitshift_spec(pixels[i].0, pixels[i].1, pixels[i].2, brightness);
                    &&& frame[4 + 4 * i] == 0xE0 + out.1
                    &&& frame[4 + 4 * i + 1] == out.0.2
                    &&& frame[4 + 4 * i + 2] == out.0.1
                    &&& frame[4 + 4 * i + 3] == out.0.0
                }
            &&& forall|k: int| 4 + 4 * pixels.len() <= k < frame.len() ==> #[trigger] frame[k] == 0
        }),
{
    let leds = apa102_leds(pixels, brightness);
    let frame = clocked_frame(leds, pixel_count);
    assert forall|k: int| 0 <= k < leds.len() implies #[trigger] leds[k].len() == 4 by {
        let p = pixels[k];
        assert(apa102_led_frame_spec(p.0, p.1, p.2, brightness).len() == 4);
    }
    lemma_flatten_len(leds, 4);
    let flat = leds.flatten();
    assert forall|i: int| 0 <= i < pixels.len() implies {
        let out = five_bit_bitshift_spec(#[trigger] pixels[i].0, pixels[i].1, pixels[i].2, brightness);
        &&& frame[4 + 4 * i] == 0xE0 + out.1
        &&& frame[4 + 4 * i + 1] == out.0.2
        &&& frame[4 + 4 * i + 2] == out.0.1
        &&& frame[4 + 4 * i + 3] == out.0.0
    } by {
        let p = pixels[i];
        let out = five_bit_bitshift_spec(p.0, p.1, p.2, brightness);
        lemma_five_bit_driver_brightness(p.0, p.1, p.2, brightness);
        lemma_five_bit_channels_fit(p.0, p.1, p.2, brightness);
        lemma_flatten_index(leds, 4, i, 0);
        lemma_flatten_index(leds, 4, i, 1);
        lemma_flatten_index(leds, 4, i, 2);
        lemma_flatten_index(leds, 4, i, 3);
        assert(i * 4 == 4 * i);
        assert(frame[4 + 4 * i] == flat[4 * i]);
        assert(frame[4 + 4 * i + 1] == flat[4 * i + 1]);
        assert(frame[4 + 4 * i + 2] == flat[4 * i + 2]);
        assert(frame[4 + 4 * i + 3] == flat[4 * i + 3]);
        assert(leds[i] == apa102_led_frame_spec(p.0, p.1, p.2, brightness));
    }
}

impl Apa102Led {
    /// The start frame: 32 bits of zeros.
    pub fn start() -> (frame: [u8; 4])
        ensures
            frame@ == seq![0u8, 0u8, 0u8, 0u8],
    {
        [0x00, 0x00, 0x00, 0x00]
    }

    /// The LED frame for one LED, from its 16-bit red, green and blue
    /// channels and the 8-bit global brightness, using the "high definition"
    /// bitshift to share brightness between the 5-bit driver brightness and
    /// the 8-bit channels.
    pub fn led(r16: u16, g16: u16, b16: u16, brightness: u8) -> (frame: [u8; 4])
        ensures
            frame@ == apa102_led_frame_spec(r16, g16, b16, brightness),
    {
        let ((red_u8, green_u8, blue_u8), v5) = five_bit_bitshift(r16, g16, b16, brightness);
        proof {
            lemma_five_bit_driver_brightness(r16, g16, b16, brightness);
        }
        let led_frame = RgbChannels::BGR.reorder([red_u8, green_u8, blue_u8]);
        assert((0b11100000u8 | (v5 & 0b00011111u8)) == 0xE0 + v5) by (bit_vector)
            requires
                v5 <= 31,
        ;
        let frame = [0b11100000 | (v5 & 0b00011111), led_frame[0], led_frame[1], led_frame[2]];
        assert(frame@ =~= apa102_led_frame_spec(r16, g16, b16, brightness));
        frame
    }

    /// The whole frame for `pixel_count` LEDs: the start frame, the LED
    /// frame of each pixel (its 16-bit red, green and blue channels) at the
    /// 8-bit global `brightness`, and the end frame.
    pub fn update(pixels: &[(u16, u16, u16)], brightness: u8, pixel_count: usize) -> (frame: Vec<
        u8,
    >)
        requires
            pixel_count >= 1,
        ensures
            frame@ == clocked_frame(apa102_leds(pixels@, brightness), pixel_count as nat),
    {
        let ghost leds = apa102_leds(pixels@, brightness);
        let start = Self::start();
        let mut frame: Vec<u8> = Vec::new();
        frame.push(start[0]);
        frame.push(start[1]);
        frame.push(start[2]);
        frame.push(start[3]);
        let mut i: usize = 0;
        assert(leds.take(0) =~= Seq::<Seq<u8>>::empty());
        assert(frame@ =~= seq![0u8, 0u8, 0u8, 0u8] + leds.take(0).flatten());
        while i < pixels.len()
            invariant
                i <= pixels.len(),
                leds == apa102_leds(pixels@, brightness),
                frame@ == seq![0u8, 0u8, 0u8, 0u8] + leds.take(i as int).flatten(),
            decreases pixels.len() - i,
        {
            let (r, g, b) = pixels[i];
            let led = Self::led(r, g, b, brightness);
            let ghost before = frame@;
            frame.push(led[0]);
            frame.push(led[1]);
            frame.push(led[2]);
            frame.push(led[3]);
            proof {
                assert(leds.take(i + 1) =~= leds.take(i as int).push(leds[i as int]));
                leds.take(i as int).lemma_flatten_push(leds[i as int]);
                assert(frame@ =~= before + led@);
            }
            i = i + 1;
        }
        assert(leds.take(pixels.len() as int) =~= leds);
        let mut end = Self::end(pixel_count);
        assert(end@ =~= Seq::new(end_frame_len(pixel_count as nat), |i: int| 0u8));
        frame.append(&mut end);
        frame
    }

    /// The end frame for `length` LEDs: `(length - 1) / 16 + 1` bytes of
    /// zeros.
    pub fn end(length: usize) -> (frame: Vec<u8>)
        requires
            length >= 1,
        ensures
            frame.len() == end_frame_len(length as nat),
            forall|i: int| 0 <= i < frame.len() ==> frame[i] == 0,
    {
        clocked_end_frame(length)
    }
}

} // verus!
