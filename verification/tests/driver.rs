use blinksy::driver::clocked::{ClockedDelay, ClockedDelayBuilder, ClockedDriver};
use blinksy::driver::clockless::{ClocklessDelay, ClocklessDelayBuilder, ClocklessDriver};
use blinksy::drivers::apa102::Apa102Led;
use blinksy::leds::Ws2812;
use blinksy::time::Megahertz;

#[test]
fn clocked_delay_half_cycle() {
    let mut writer = ClockedDelayBuilder::default()
        .with_data(1u8)
        .with_clock(2u8)
        .with_delay(3u8)
        .with_data_rate(Megahertz::MHz(2))
        .build();
    assert_eq!(writer.half_cycle_ns(), 250);
    let (data, clock, delay) = writer.parts_mut();
    assert_eq!((*data, *clock, *delay), (1, 2, 3));
    *data = 9;
    let (data, _, _) = writer.parts_mut();
    assert_eq!(*data, 9);

    assert_eq!(ClockedDelay::new((), (), (), Megahertz::MHz(3)).half_cycle_ns(), 166);
    assert_eq!(ClockedDelay::new((), (), (), Megahertz::MHz(1)).half_cycle_ns(), 500);
    assert_eq!(ClockedDelay::new((), (), (), Megahertz::MHz(1000)).half_cycle_ns(), 0);
    assert_eq!(Megahertz::MHz(7).raw(), 7);
}

#[test]
fn clocked_driver_builder() {
    let mut driver = ClockedDriver::default().with_led::<Apa102Led>().with_writer(5u32);
    assert_eq!(*driver.writer_mut(), 5);
    *driver.writer_mut() = 6;
    assert_eq!(*driver.writer_mut(), 6);
}

#[test]
fn clockless_builders() {
    let mut writer = ClocklessDelayBuilder::default()
        .with_led::<Ws2812>()
        .with_data(4u8)
        .with_delay(5u8)
        .build();
    let (data, delay, timing) = writer.parts_mut();
    assert_eq!((*data, *delay), (4, 5));
    assert_eq!(timing.t_reset, 50_000);

    let other: ClocklessDelay<Ws2812, u8, u8> = ClocklessDelay::new(1, 2);
    let mut driver = ClocklessDriver::default().with_led::<Ws2812>().with_writer(other);
    let (data, _, _) = driver.writer_mut().parts_mut();
    assert_eq!(*data, 1);
}
