//! # SK6812 LED protocol
//!
//! SK6812 LEDs use a single-wire, timing-sensitive protocol similar to
//! WS2812, with 32-bit color (8 bits per channel: red, blue, green, white).
//!
//! - A '0' bit is a short high pulse (~300ns) followed by a long low pulse (~900ns)
//! - A '1' bit is a long high pulse (~600ns) followed by a long low pulse (~600ns)
//! - After sending all bits, a reset pulse of at least 80µs is required

use vstd::prelude::*;

use crate::color::{LedChannels, RgbwChannels};
use crate::driver::clockless::{ClocklessLed, ClocklessTiming};

verus! {

/// LED implementation for the SK6812 protocol: its timing requirements and
/// color channel ordering.
pub struct Sk6812Led;

impl ClocklessLed for Sk6812Led {
    open spec fn channels_spec() -> LedChannels {
        LedChannels::Rgbw(RgbwChannels::RGBW)
    }

    open spec fn timing_spec() -> ClocklessTiming {
        ClocklessTiming { t_0h: 300, t_0l: 900, t_1h: 600, t_1l: 600, t_reset: 80_000 }
    }

    /// SK6812 uses RGBW ordering
    fn led_channels() -> (channels: LedChannels)
        ensures
            channels == LedChannels::Rgbw(RgbwChannels::RGBW),
    {
        LedChannels::Rgbw(RgbwChannels::RGBW)
    }

    fn timing() -> (timing: ClocklessTiming)
        ensures
            timing.t_0h == 300,
            timing.t_0l == 900,
            timing.t_1h == 600,
            timing.t_1l == 600,
            timing.t_reset == 80_000,
    {
        ClocklessTiming { t_0h: 300, t_0l: 900, t_1h: 600, t_1l: 600, t_reset: 80_000 }
    }
}

} // verus!
