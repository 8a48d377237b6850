use blinksy::driver::clockless::{ClocklessLed, ClocklessTiming};
use blinksy::drivers::sk6812::Sk6812Led;
use blinksy::leds::{clocked_end_frame, clockless_frame_buffer_size, Lpd8806, Sk6812, Ws2812};
use blinksy::color::{LedChannels, RgbChannels, RgbwChannels};

#[test]
fn frame_buffer_sizes() {
    assert_eq!(Ws2812::frame_buffer_size(60), 180);
    assert_eq!(Sk6812::frame_buffer_size(60), 240);
    assert_eq!(clockless_frame_buffer_size::<Ws2812>(10), 30);
    assert_eq!(clockless_frame_buffer_size::<Sk6812Led>(10), 40);
    assert_eq!(Lpd8806::frame_buffer_size(1), 8);
    assert_eq!(Lpd8806::frame_buffer_size(17), 4 + 51 + 2);
    assert_eq!(Lpd8806::frame_buffer_size(18), 4 + 54 + 2);
    assert_eq!(Lpd8806::frame_buffer_size(60), 188);
}

#[test]
fn chipset_channels_and_timings() {
    assert_eq!(Ws2812::led_channels(), LedChannels::Rgb(RgbChannels::GRB));
    assert_eq!(Sk6812::led_channels(), LedChannels::Rgbw(RgbwChannels::RGBW));
    assert_eq!(Sk6812Led::led_channels(), LedChannels::Rgbw(RgbwChannels::RGBW));
    let ws = Ws2812::timing();
    assert_eq!(ws, ClocklessTiming { t_0h: 400, t_0l: 850, t_1h: 800, t_1l: 450, t_reset: 50_000 });
    assert_eq!(ws.t_cycle(), 1250);
    assert_eq!(ws.bit_pulse(false), (400, 850));
    assert_eq!(ws.bit_pulse(true), (800, 450));
    let sk = Sk6812Led::timing();
    assert_eq!(sk.t_cycle(), 1200);
    assert_eq!(sk.t_reset, 80_000);
    let lopsided = ClocklessTiming { t_0h: 100, t_0l: 100, t_1h: 300, t_1l: 200, t_reset: 0 };
    assert_eq!(lopsided.t_cycle(), 500);
}

#[test]
fn lpd8806_bytes() {
    assert_eq!(Lpd8806::start(), [0, 0, 0, 0]);
    assert_eq!(Lpd8806::channel(0), 0x80);
    assert_eq!(Lpd8806::channel(0xffff), 0xff);
    assert_eq!(Lpd8806::channel(0x8000), 0x80 | 64);
    // green, red, blue on the wire
    assert_eq!(Lpd8806::led(0xffff, 0, 0x8000), [0x80, 0xff, 0xc0]);
    assert_eq!(Lpd8806::end(33).len(), 3);
    assert_eq!(clocked_end_frame(1).len(), 1);
    assert_eq!(clocked_end_frame(16).len(), 1);
}
