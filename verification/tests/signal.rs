use blinksy::color::{LedColor, LedRgb, LedRgbw};
use blinksy::driver::clocked::{ClockedDelay, ClockedSignal, ClockedStep};
use blinksy::driver::clockless::{
    clockless_frame, ClocklessDelay, ClocklessLed, ClocklessSignal, ClocklessStep, ClocklessTiming,
};
use blinksy::drivers::apa102::Apa102Led;
use blinksy::leds::{Lpd8806, Ws2812};
use blinksy::time::Megahertz;

fn clockless_steps(frame: &[u8], timing: ClocklessTiming) -> Vec<ClocklessStep> {
    let mut signal = ClocklessSignal::new(frame, timing);
    let mut steps = Vec::new();
    while let Some(step) = signal.next() {
        steps.push(step);
    }
    assert_eq!(signal.next(), None);
    steps
}

fn clocked_steps<W: blinksy::util::bits::Word>(frame: &[W], half: u32) -> Vec<ClockedStep> {
    let mut signal = ClockedSignal::new(frame, half);
    let mut steps = Vec::new();
    while let Some(step) = signal.next() {
        steps.push(step);
    }
    assert_eq!(signal.next(), None);
    steps
}

#[test]
fn clockless_signal_sends_bits_msb_first_then_resets() {
    let timing = Ws2812::timing();
    let steps = clockless_steps(&[0b1000_0001], timing);
    assert_eq!(steps.len(), 17);
    assert_eq!(steps[0], ClocklessStep::High(800));
    assert_eq!(steps[1], ClocklessStep::Low(450));
    for bit in 1..7 {
        assert_eq!(steps[2 * bit], ClocklessStep::High(400));
        assert_eq!(steps[2 * bit + 1], ClocklessStep::Low(850));
    }
    assert_eq!(steps[14], ClocklessStep::High(800));
    assert_eq!(steps[15], ClocklessStep::Low(450));
    assert_eq!(steps[16], ClocklessStep::Reset(50_000));
}

#[test]
fn clockless_signal_of_empty_frame_is_the_reset() {
    let steps = clockless_steps(&[], Ws2812::timing());
    assert_eq!(steps, vec![ClocklessStep::Reset(50_000)]);
}

#[test]
fn clockless_signal_decodes_to_frame() {
    let timing = Ws2812::timing();
    let frame = [0x5a, 0x00, 0xff, 0x81];
    let steps = clockless_steps(&frame, timing);
    assert_eq!(steps.len(), 2 * 8 * frame.len() + 1);
    let mut decoded = Vec::new();
    for word in steps.chunks(16).take(frame.len()) {
        let mut value = 0u8;
        for pulse in word.chunks(2) {
            value = (value << 1) | u8::from(pulse[0] == ClocklessStep::High(timing.t_1h));
        }
        decoded.push(value);
    }
    assert_eq!(decoded, frame);
}

#[test]
fn clockless_delay_signal_uses_chipset_timing() {
    let writer: ClocklessDelay<Ws2812, (), ()> = ClocklessDelay::new((), ());
    let frame = [0u8];
    let mut signal = writer.signal(&frame);
    assert_eq!(signal.next(), Some(ClocklessStep::High(400)));
    assert_eq!(signal.next(), Some(ClocklessStep::Low(850)));
}

#[test]
fn clocked_signal_sets_data_then_pulses_clock() {
    let steps = clocked_steps(&[0b1010_0000u8], 250);
    assert_eq!(steps.len(), 24);
    assert_eq!(&steps[0..3], &[ClockedStep::Data(true, 250), ClockedStep::ClockHigh(250), ClockedStep::ClockLow]);
    assert_eq!(steps[3], ClockedStep::Data(false, 250));
    assert_eq!(steps[6], ClockedStep::Data(true, 250));
    assert_eq!(steps[21], ClockedStep::Data(false, 250));
    assert_eq!(steps[23], ClockedStep::ClockLow);
}

#[test]
fn clocked_signal_of_wide_words() {
    let steps = clocked_steps(&[0x8001u16, 0x0002u16], 10);
    assert_eq!(steps.len(), 3 * 32);
    let bits: Vec<bool> = steps
        .iter()
        .filter_map(|s| match s {
            ClockedStep::Data(b, _) => Some(*b),
            _ => None,
        })
        .collect();
    assert!(bits[0] && bits[15] && bits[30]);
    assert_eq!(bits.iter().filter(|b| **b).count(), 3);
}

#[test]
fn clocked_delay_signal_uses_half_cycle() {
    let writer = ClockedDelay::new((), (), (), Megahertz::MHz(2));
    let frame = [0xffu8];
    let mut signal = writer.signal(&frame);
    assert_eq!(signal.next(), Some(ClockedStep::Data(true, 250)));
    assert_eq!(signal.next(), Some(ClockedStep::ClockHigh(250)));
    assert_eq!(signal.next(), Some(ClockedStep::ClockLow));
}

#[test]
fn apa102_whole_frame() {
    let frame = Apa102Led::update(&[(0xffff, 0, 0), (0, 0, 0)], 255, 2);
    assert_eq!(frame, vec![0, 0, 0, 0, 0xE0 | 31, 0, 0, 255, 0xE0 | 31, 0, 0, 0, 0]);
    assert_eq!(Apa102Led::update(&[], 255, 1), vec![0, 0, 0, 0, 0]);
    let frame = Apa102Led::update(&[(1000, 2000, 3000); 20], 128, 20);
    assert_eq!(frame.len(), 4 + 4 * 20 + 2);
    assert_eq!(&frame[4..8], &Apa102Led::led(1000, 2000, 3000, 128));
}

#[test]
fn lpd8806_whole_frame() {
    let frame = Lpd8806::update(&[(0xffff, 0, 0x8000)], 1);
    assert_eq!(frame, vec![0, 0, 0, 0, 0x80, 0xff, 0xc0, 0]);
    let frame = Lpd8806::update(&[(0, 0, 0); 17], 17);
    assert_eq!(frame.len(), Lpd8806::frame_buffer_size(17));
    assert_eq!(frame[frame.len() - 1], 0);
    assert_eq!(frame[4], 0x80);
}

#[test]
fn clockless_frame_concatenates_led_channels() {
    let leds = [
        LedColor::Rgb(LedRgb::from_channels([1u8, 2, 3])),
        LedColor::Rgbw(LedRgbw::from_channels([4u8, 5, 6, 7])),
    ];
    assert_eq!(clockless_frame(&leds), vec![1, 2, 3, 4, 5, 6, 7]);
    let none: [LedColor<u8>; 0] = [];
    assert!(clockless_frame(&none).is_empty());
}
