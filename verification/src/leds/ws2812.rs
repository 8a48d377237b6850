//! # WS2812 (NeoPixel) LEDs

use vstd::prelude::*;

use crate::color::{LedChannels, RgbChannels};
use crate::driver::clockless::{ClocklessLed, ClocklessTiming};

use super::clockless_frame_buffer_size;
use super::clockless_frame_buffer_size_spec;

verus! {

/// # WS2812 (NeoPixel) LEDs
///
/// Widely used for their simplicity and low cost: a single-wire clockless
/// protocol (data only, no clock) with 24-bit color (8 bits per channel,
/// 3 channels, in green, red, blue order).
///
/// ## Protocol details
///
/// - A '0' bit is a short high pulse (~400ns) followed by a long low pulse (~850ns)
/// - A '1' bit is a long high pulse (~800ns) followed by a short low pulse (~450ns)
/// - After sending all bits, a reset pulse of at least 50µs is required
pub struct Ws2812;

impl Ws2812 {
    /// The `FRAME_BUFFER_SIZE` for `pixel_count` pixels: 3 bytes per pixel.
    pub fn frame_buffer_size(pixel_count: usize) -> (size: usize)
        requires
            pixel_count * 3 <= usize::MAX,
        ensures
            size == pixel_count * 3,
            size == clockless_frame_buffer_size_spec::<Ws2812>(pixel_count as nat),
    {
        clockless_frame_buffer_size::<Self>(pixel_count)
    }
}

impl ClocklessLed for Ws2812 {
    open spec fn channels_spec() -> LedChannels {
        LedChannels::Rgb(RgbChannels::GRB)
    }

    open spec fn timing_spec() -> ClocklessTiming {
        ClocklessTiming { t_0h: 400, t_0l: 850, t_1h: 800, t_1l: 450, t_reset: 50_000 }
    }

    /// WS2812 uses GRB ordering
    fn led_channels() -> (channels: LedChannels)
        ensures
            channels == LedChannels::Rgb(RgbChannels::GRB),
    {
        LedChannels::Rgb(RgbChannels::GRB)
    }

    fn timing() -> (timing: ClocklessTiming)
        ensures
            timing.t_0h == 400,
            timing.t_0l == 850,
            timing.t_1h == 800,
            timing.t_1l == 450,
            timing.t_reset == 50_000,
    {
        ClocklessTiming { t_0h: 400, t_0l: 850, t_1h: 800, t_1l: 450, t_reset: 50_000 }
    }
}

} // verus!
