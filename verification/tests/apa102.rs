use blinksy::drivers::apa102::{
    brightness_bitshifter16, brightness_bitshifter8, five_bit_bitshift, map16_to_8, max3,
    scale16_by_8, Apa102Led,
};

#[test]
fn five_bit_zero_brightness_is_off() {
    assert_eq!(five_bit_bitshift(0xffff, 0x1234, 1, 0), ((0, 0, 0), 0));
}

#[test]
fn five_bit_black_keeps_capped_brightness() {
    assert_eq!(five_bit_bitshift(0, 0, 0, 200), ((0, 0, 0), 31));
    assert_eq!(five_bit_bitshift(0, 0, 0, 20), ((0, 0, 0), 20));
    assert_eq!(five_bit_bitshift(0, 0, 0, 31), ((0, 0, 0), 31));
}

#[test]
fn five_bit_values() {
    assert_eq!(five_bit_bitshift(0xffff, 0, 0, 255), ((255, 0, 0), 31));
    assert_eq!(five_bit_bitshift(0xffff, 0x8000, 0x100, 255), ((255, 128, 1), 31));
    assert_eq!(five_bit_bitshift(1000, 2000, 3000, 128), ((8, 16, 24), 7));
    assert_eq!(five_bit_bitshift(100, 50, 25, 10), ((0, 0, 0), 1));
    assert_eq!(five_bit_bitshift(0x1234, 0, 0x40, 255), ((36, 0, 1), 15));
    assert_eq!(five_bit_bitshift(65535, 65535, 65535, 1), ((17, 17, 17), 1));
    assert_eq!(five_bit_bitshift(300, 200, 100, 255), ((9, 6, 3), 3));
}

#[test]
fn five_bit_driver_brightness_is_five_bits() {
    for bri in [1u8, 2, 7, 31, 64, 128, 200, 255] {
        for c in [1u16, 7, 255, 4096, 0x8000, 0xffff] {
            let (_, v5) = five_bit_bitshift(c, c / 2, c / 3, bri);
            assert!([1, 3, 7, 15, 31].contains(&v5));
        }
    }
}

#[test]
fn five_bit_monotone_channels() {
    for bri in [1u8, 50, 128, 255] {
        let ((r, g, b), _) = five_bit_bitshift(100, 5000, 60000, bri);
        assert!(r <= g && g <= b);
    }
}

#[test]
fn bitshifter8_values() {
    let (mut src, mut dst) = (16u8, 1u8);
    assert_eq!(brightness_bitshifter8(&mut src, &mut dst, 4), 4);
    assert_eq!((src, dst), (1, 16));

    let (mut src, mut dst) = (16u8, 20u8);
    assert_eq!(brightness_bitshifter8(&mut src, &mut dst, 4), 3);
    assert_eq!((src, dst), (2, 160));

    let (mut src, mut dst) = (16u8, 200u8);
    assert_eq!(brightness_bitshifter8(&mut src, &mut dst, 4), 0);
    assert_eq!((src, dst), (16, 200));

    // an odd source is not shifted: the product stays the same
    let (mut src, mut dst) = (5u8, 3u8);
    assert_eq!(brightness_bitshifter8(&mut src, &mut dst, 8), 0);
    assert_eq!((src, dst), (5, 3));

    let (mut src, mut dst) = (12u8, 3u8);
    assert_eq!(brightness_bitshifter8(&mut src, &mut dst, 8), 2);
    assert_eq!((src, dst), (3, 12));
    assert_eq!(src as u32 * dst as u32, 36);

    let (mut src, mut dst) = (0u8, 3u8);
    assert_eq!(brightness_bitshifter8(&mut src, &mut dst, 8), 0);
    assert_eq!((src, dst), (0, 3));
}

#[test]
fn bitshifter16_values() {
    let (mut src, mut dst) = (16u8, 1u16);
    assert_eq!(brightness_bitshifter16(&mut src, &mut dst, 4, 2), 4);
    assert_eq!((src, dst), (1, 256));

    let (mut src, mut dst) = (16u8, 0x4000u16);
    assert_eq!(brightness_bitshifter16(&mut src, &mut dst, 4, 2), 0);
    assert_eq!((src, dst), (16, 0x4000));

    let (mut src, mut dst) = (12u8, 1u16);
    assert_eq!(brightness_bitshifter16(&mut src, &mut dst, 4, 2), 2);
    assert_eq!((src, dst), (3, 16));

    let (mut src, mut dst) = (8u8, 3u16);
    assert_eq!(brightness_bitshifter16(&mut src, &mut dst, 2, 1), 2);
    assert_eq!((src, dst), (2, 12));

    let (mut src, mut dst) = (8u8, 1u16);
    assert_eq!(brightness_bitshifter16(&mut src, &mut dst, 4, 16), 0);
    assert_eq!((src, dst), (8, 1));

    let (mut src, mut dst) = (8u8, 0u16);
    assert_eq!(brightness_bitshifter16(&mut src, &mut dst, 4, 2), 0);
    assert_eq!((src, dst), (8, 0));
}

#[test]
fn scale16_by_8_values() {
    assert_eq!(scale16_by_8(0xffff, 255), 0xffff);
    assert_eq!(scale16_by_8(0xffff, 0), 0xff);
    assert_eq!(scale16_by_8(1000, 127), 500);
    assert_eq!(scale16_by_8(0, 200), 0);
}

#[test]
fn map16_to_8_values() {
    assert_eq!(map16_to_8(0), 0);
    assert_eq!(map16_to_8(1), 0);
    assert_eq!(map16_to_8(128), 1);
    assert_eq!(map16_to_8(0x8000), 128);
    assert_eq!(map16_to_8(0xfeff), 255);
    assert_eq!(map16_to_8(0xff00), 255);
    assert_eq!(map16_to_8(0xffff), 255);
}

#[test]
fn max3_values() {
    assert_eq!(max3(1, 2, 3), 3);
    assert_eq!(max3(3, 2, 1), 3);
    assert_eq!(max3(2, 3, 1), 3);
    assert_eq!(max3(7, 7, 7), 7);
}

#[test]
fn apa102_frames() {
    assert_eq!(Apa102Led::start(), [0, 0, 0, 0]);
    // brightness byte, then blue, green, red
    assert_eq!(Apa102Led::led(0xffff, 0x8000, 0x100, 255), [0xff, 1, 128, 255]);
    assert_eq!(Apa102Led::led(1000, 2000, 3000, 128), [0xe7, 24, 16, 8]);
    assert_eq!(Apa102Led::led(0, 0, 0, 0), [0xe0, 0, 0, 0]);
    assert_eq!(Apa102Led::end(1).len(), 1);
    assert_eq!(Apa102Led::end(2).len(), 1);
    assert_eq!(Apa102Led::end(16).len(), 1);
    assert_eq!(Apa102Led::end(17).len(), 2);
    assert_eq!(Apa102Led::end(18).len(), 2);
    assert!(Apa102Led::end(60).iter().all(|b| *b == 0));
    assert_eq!(Apa102Led::end(60).len(), 4);
}
