use blinksy::util::bits::{word_to_bits_msb, BitsMsb};
use heapless::Vec;

fn collect_u8(word: u8) -> Vec<bool, 8> {
    let mut bits: Vec<bool, 8> = Vec::new();
    let mut iter = word_to_bits_msb(word);
    while let Some(bit) = iter.next() {
        bits.push(bit).unwrap();
    }
    bits
}

#[test]
fn test_u8_msb() {
    let bits: Vec<bool, 8> = collect_u8(0b1010_0001_u8);

    assert_eq!(
        bits,
        Vec::<bool, 8>::from_slice(&[true, false, true, false, false, false, false, true]).unwrap()
    );
}

#[test]
fn test_u16_msb() {
    let mut bits: Vec<bool, 16> = Vec::new();
    let mut iter = word_to_bits_msb(0x0408_u16);
    while let Some(bit) = iter.next() {
        bits.push(bit).unwrap();
    }

    assert_eq!(
        bits,
        Vec::<bool, 16>::from_slice(&[
            false, false, false, false, false, true, false, false, // 0x04
            false, false, false, false, true, false, false, false, // 0x08
        ])
        .unwrap()
    );
}

#[test]
fn bits_msb_stays_exhausted() {
    let mut iter = BitsMsb::new(0xffu8);
    for _ in 0..8 {
        assert_eq!(iter.next(), Some(true));
    }
    assert_eq!(iter.next(), None);
    assert_eq!(iter.next(), None);
}

#[test]
fn bits_msb_widths() {
    fn count<W: blinksy::util::bits::Word>(word: W) -> usize {
        let mut iter = word_to_bits_msb(word);
        let mut n = 0;
        while iter.next().is_some() {
            n += 1;
        }
        n
    }
    assert_eq!(count(0u8), 8);
    assert_eq!(count(0u16), 16);
    assert_eq!(count(0u32), 32);
    assert_eq!(count(0u64), 64);
    assert_eq!(count(0u128), 128);
}

#[test]
fn bits_msb_roundtrip() {
    for word in [0u32, 1, 0x8000_0000, 0xdead_beef, u32::MAX, 12345] {
        let mut iter = word_to_bits_msb(word);
        let mut value: u64 = 0;
        while let Some(bit) = iter.next() {
            value = value * 2 + bit as u64;
        }
        assert_eq!(value, word as u64);
    }
    let mut iter = word_to_bits_msb(0x8000_0000_0000_0001u64);
    assert_eq!(iter.next(), Some(true));
    for _ in 0..62 {
        assert_eq!(iter.next(), Some(false));
    }
    assert_eq!(iter.next(), Some(true));
    assert_eq!(iter.next(), None);
}

#[test]
fn bits_msb_clone_is_independent() {
    let mut a = word_to_bits_msb(0b1000_0000u8);
    let mut b = a.clone();
    assert_eq!(a.next(), Some(true));
    assert_eq!(a.next(), Some(false));
    assert_eq!(b.next(), Some(true));
}
