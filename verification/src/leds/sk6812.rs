//! # SK6812 LEDs

use vstd::prelude::*;

use crate::color::{LedChannels, RgbwChannels};
use crate::driver::clockless::{ClocklessLed, ClocklessTiming};

use super::clockless_frame_buffer_size;
use super::clockless_frame_buffer_size_spec;

verus! {

/// # SK6812 LEDs
///
/// Similar to [`super::Ws2812`] but with white: a single-wire clockless
/// protocol with 32-bit color (8 bits per channel, 4 channels).
///
/// ## Protocol details
///
/// - A '0' bit is a short high pulse (~300ns) followed by a long low pulse (~900ns)
/// - A '1' bit is a long high pulse (~600ns) followed by a long low pulse (~600ns)
/// - After sending all bits, a reset pulse of at least 80µs is required
pub struct Sk6812;

impl Sk6812 {
    /// The `FRAME_BUFFER_SIZE` for `pixel_count` pixels: 4 bytes per pixel.
    pub fn frame_buffer_size(pixel_count: usize) -> (size: usize)
        requires
            pixel_count * 4 <= usize::MAX,
        ensures
            size == pixel_count * 4,
            size == clockless_frame_buffer_size_spec::<Sk6812>(pixel_count as nat),
    {
        clockless_frame_buffer_size::<Self>(pixel_count)
    }
}

impl ClocklessLed for Sk6812 {
    open spec fn channels_spec() -> LedChannels {
        LedChannels::Rgbw(RgbwChannels::RGBW)
    }

    open spec fn timing_spec() -> ClocklessTiming {
        ClocklessTiming { t_0h: 300, t_0l: 900, t_1h: 600, t_1l: 600, t_reset: 80_000 }
    }

    /// SK6812 uses RGBW ordering
    fn led_channels() -> (channels: LedChannels)
        ensures
            channels == LedChannels::Rgbw(RgbwChannels::RGBW),
    {
        LedChannels::Rgbw(RgbwChannels::RGBW)
    }

    fn timing() -> (timing: ClocklessTiming)
        ensures
            timing.t_0h == 300,
            timing.t_0l == 900,
            timing.t_1h == 600,
            timing.t_1l == 600,
            timing.t_reset == 80_000,
    {
        ClocklessTiming { t_0h: 300, t_0l: 900, t_1h: 600, t_1l: 600, t_reset: 80_000 }
    }
}

} // verus!
