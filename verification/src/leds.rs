//! # LED chipsets
//!
//! - [`Ws2812`]: WS2812 (NeoPixel) LEDs
//! - [`Sk6812`]: SK6812 LEDs
//! - [`Lpd8806`]: LPD8806 LEDs

pub mod lpd8806;
pub mod sk6812;
pub mod ws2812;

pub use self::lpd8806::Lpd8806;
pub use self::sk6812::Sk6812;
pub use self::ws2812::Ws2812;

use vstd::prelude::*;

use crate::color::led::{channel_count_spec, reordered, rgb_order, rgbw_order};
use crate::color::{LedChannels, RgbChannels, RgbwChannels};
use crate::driver::clockless::{ClocklessLed, ClocklessTiming};
use crate::drivers::sk6812::Sk6812Led;

verus! {

/// The frame buffer size, in words, of `pixel_count` pixels of a clockless
/// chipset: one word per channel per pixel.
pub open spec fn clockless_frame_buffer_size_spec<Led: ClocklessLed>(pixel_count: nat) -> nat {
    pixel_count * channel_count_spec(Led::channels_spec())
}

/// The frame buffer size, in words, of `pixel_count` pixels of a clockless
/// chipset: one word per channel per pixel.
pub fn clockless_frame_buffer_size<Led: ClocklessLed>(pixel_count: usize) -> (size: usize)
    requires
        pixel_count * channel_count_spec(Led::channels_spec()) <= usize::MAX,
    ensures
        size == clockless_frame_buffer_size_spec::<Led>(pixel_count as nat),
{
    pixel_count * Led::led_channels().channel_count()
}

/// A timing that tells bits apart the way WS2812-like chipsets read them:
/// a '1' bit has the longer high pulse and the shorter low pulse, both bits
/// take about the same time, and the reset outlasts many bits.
pub open spec fn tells_bits_apart(timing: ClocklessTiming) -> bool {
    &&& timing.t_1h > timing.t_0h
    &&& timing.t_1l < timing.t_0l
    &&& timing.t_0h + timing.t_0l <= 2 * (timing.t_1h + timing.t_1l)
    &&& timing.t_1h + timing.t_1l <= 2 * (timing.t_0h + timing.t_0l)
    &&& timing.t_reset >= 20 * (timing.t_0h + timing.t_0l)
    &&& timing.t_reset >= 20 * (timing.t_1h + timing.t_1l)
}

/// The WS2812 and SK6812 timings send a '1' bit as a long high pulse and a
/// '0' bit as a short one: a '1' is 800 ns high and 450 ns low on the
/// WS2812, 600 ns and 600 ns on the SK6812; a '0' is 400 ns and 850 ns on
/// the WS2812, 300 ns and 900 ns on the SK6812; the resets are 50 and 80
/// microseconds.
pub proof fn lemma_chipset_timings()
    ensures
        tells_bits_apart(Ws2812::timing_spec()),
        tells_bits_apart(Sk6812::timing_spec()),
        tells_bits_apart(Sk6812Led::timing_spec()),
        Ws2812::timing_spec().t_1h == 800 && Ws2812::timing_spec().t_1l == 450,
        Ws2812::timing_spec().t_0h == 400 && Ws2812::timing_spec().t_0l == 850,
        Ws2812::timing_spec().t_reset == 50_000,
        Sk6812::timing_spec().t_1h == 600 && Sk6812::timing_spec().t_1l == 600,
        Sk6812::timing_spec().t_0h == 300 && Sk6812::timing_spec().t_0l == 900,
        Sk6812::timing_spec().t_reset == 80_000,
        Sk6812Led::timing_spec() == Sk6812::timing_spec(),
{
}

/// The WS2812 takes its channels in green, red, blue order; the SK6812 in
/// red, green, blue, white order: a frame carries each pixel's channels at
/// these places.
pub proof fn lemma_chipset_channels(values: Seq<u8>)
    requires
        values.len() == 4,
    ensures
        Ws2812::channels_spec() == LedChannels::Rgb(RgbChannels::GRB),
        Sk6812::channels_spec() == LedChannels::Rgbw(RgbwChannels::RGBW),
        Sk6812Led::channels_spec() == Sk6812::channels_spec(),
        reordered(rgb_order(RgbChannels::GRB), values.take(3)) == seq![values[1], values[0], values[2]],
        reordered(rgbw_order(RgbwChannels::RGBW), values) == values,
{
    assert(reordered(rgb_order(RgbChannels::GRB), values.take(3)) =~= seq![values[1], values[0], values[2]]);
    assert(reordered(rgbw_order(RgbwChannels::RGBW), values) =~= values);
}

/// The number of zero bytes in the end frame of a clocked protocol for
/// `pixel_count` LEDs: `(n - 1) / 16 + 1`, at least `n / 2` zero bits, so
/// that the clock pulses reach the last LED.
pub open spec fn end_frame_len(pixel_count: nat) -> nat {
    ((pixel_count - 1) as nat) / 16 + 1
}

/// A frame of a clocked protocol (APA102, LPD8806): the start frame of 32
/// zero bits, the bytes of each LED in turn, then the end frame of zeros for
/// `pixel_count` LEDs.
pub open spec fn clocked_frame(leds: Seq<Seq<u8>>, pixel_count: nat) -> Seq<u8> {
    seq![0u8, 0u8, 0u8, 0u8] + leds.flatten() + Seq::new(end_frame_len(pixel_count), |i: int| 0u8)
}

/// Where each LED takes `size` bytes, the LEDs together take `size` bytes
/// per LED.
pub proof fn lemma_flatten_len<A>(leds: Seq<Seq<A>>, size: nat)
    requires
        forall|i: int| 0 <= i < leds.len() ==> #[trigger] leds[i].len() == size,
    ensures
        leds.flatten().len() == leds.len() * size,
    decreases leds.len(),
{
    if leds.len() > 0 {
        let init = leds.drop_last();
        assert(init.push(leds.last()) =~= leds);
        init.lemma_flatten_push(leds.last());
        lemma_flatten_len(init, size);
        assert(leds.len() * size == init.len() * size + size) by (nonlinear_arith)
            requires
                leds.len() == init.len() + 1,
        ;
    }
}

/// Where each LED takes `size` values, value `j` of LED `i` stands at place
/// `i * size + j` of the LEDs' values together.
pub proof fn lemma_flatten_index<A>(leds: Seq<Seq<A>>, size: nat, i: int, j: int)
    requires
        forall|k: int| 0 <= k < leds.len() ==> #[trigger] leds[k].len() == size,
        0 <= i < leds.len(),
        0 <= j < size,
    ensures
        0 <= i * size + j < leds.flatten().len(),
        leds.flatten()[i * size + j] == leds[i][j],
    decreases leds.len(),
{
    let init = leds.drop_last();
    assert(init.push(leds.last()) =~= leds);
    init.lemma_flatten_push(leds.last());
    lemma_flatten_len(init, size);
    lemma_flatten_len(leds, size);
    let n = init.len();
    if i < n {
        lemma_flatten_index(init, size, i, j);
        assert(i * size + j < n * size) by (nonlinear_arith)
            requires
                0 <= i < n,
                0 <= j < size,
        ;
    } else {
        assert(i == n);
        assert(0 <= i * size + j) by (nonlinear_arith)
            requires
                0 <= i,
                0 <= j,
        ;
    }
}

/// The end frame of a clocked protocol (APA102, LPD8806) for `pixel_count`
/// LEDs: `(n - 1) / 16 + 1` zero bytes.
pub fn clocked_end_frame(pixel_count: usize) -> (frame: Vec<u8>)
    requires
        pixel_count >= 1,
    ensures
        frame.len() == end_frame_len(pixel_count as nat),
        forall|i: int| 0 <= i < frame.len() ==> frame[i] == 0,
{
    let num_bytes = (pixel_count - 1) / 16 + 1;
    let mut frame: Vec<u8> = Vec::new();
    while frame.len() < num_bytes
        invariant
            frame.len() <= num_bytes,
            forall|i: int| 0 <= i < frame.len() ==> frame[i] == 0,
        decreases num_bytes - frame.len(),
    {
        frame.push(0);
    }
    frame
}

} // verus!
