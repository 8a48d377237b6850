//! # LPD8806 LEDs

use vstd::prelude::*;

use crate::color::led::{reordered, rgb_order};
use crate::color::RgbChannels;
use crate::drivers::apa102::{map16_to_8, map16_to_8_spec};

use super::{clocked_end_frame, clocked_frame, end_frame_len, lemma_flatten_index, lemma_flatten_len};

verus! {

/// # LPD8806 LEDs
///
/// A clocked chipset: a start frame of 32 zero bits, then 3 bytes per LED
/// in green, red, blue order, each a 7-bit value with the top bit set, then
/// an end frame of zeros (as for APA102).
#[derive(Debug)]
pub struct Lpd8806;

/// A 16-bit channel as the LPD8806 sends it: mapped to 8 bits with
/// rounding, halved to 7 bits, with the top bit set.
pub open spec fn lpd8806_channel_spec(x: u16) -> nat {
    128 + map16_to_8_spec(x as nat) / 2
}

/// The bytes of one LED from its 16-bit red, green and blue channels, in
/// the green, red, blue order the LPD8806 expects on the wire.
pub open spec fn lpd8806_led_spec(r16: u16, g16: u16, b16: u16) -> Seq<u8> {
    reordered(
        rgb_order(RgbChannels::GRB),
        seq![
            lpd8806_channel_spec(r16) as u8,
            lpd8806_channel_spec(g16) as u8,
            lpd8806_channel_spec(b16) as u8,
        ],
    )
}

/// The LED bytes of each pixel.
pub open spec fn lpd8806_leds(pixels: Seq<(u16, u16, u16)>) -> Seq<Seq<u8>> {
    pixels.map_values(|p: (u16, u16, u16)| lpd8806_led_spec(p.0, p.1, p.2))
}

/// The frame of `n` pixels is exactly as long as the frame buffer for `n`
/// LEDs that [`Lpd8806::frame_buffer_size`] gives.
pub proof fn lemma_lpd8806_frame_fills_buffer(pixels: Seq<(u16, u16, u16)>)
    requires
        pixels.len() >= 1,
    ensures
        clocked_frame(lpd8806_leds(pixels), pixels.len()).len() == 4 + pixels.len() * 3
            + end_frame_len(pixels.len()),
{
    let leds = lpd8806_leds(pixels);
    assert forall|i: int| 0 <= i < leds.len() implies #[trigger] leds[i].len() == 3 by {
        let p = pixels[i];
        assert(lpd8806_led_spec(p.0, p.1, p.2).len() == 3);
    }
    lemma_flatten_len(leds, 3);
}

/// An LPD8806 frame for `pixel_count` LEDs: four zero bytes, then for each
/// pixel, in turn, its green, red and blue channels, each rounded from 16
/// to 8 bits, halved to 7 bits and with the top bit set, then
/// `(pixel_count - 1) / 16 + 1` zero bytes.
pub proof fn lemma_lpd8806_frame_bytes(pixels: Seq<(u16, u16, u16)>, pixel_count: nat)
    requires
        pixel_count >= 1,
    ensures
        ({
            let frame = clocked_frame(lpd8806_leds(pixels), pixel_count);
            let to7 = |x: u16|
                if x == 0 {
                    128int
                } else if x >= 0xff00 {
                    255int
                } else {
                    128 + ((x + 128) / 256) / 2
                };
            &&& frame.len() == 4 + 3 * pixels.len() + (pixel_count - 1) / 16 + 1
            &&& forall|k: int| 0 <= k < 4 ==> #[trigger] frame[k] == 0
            &&& forall|i: int|
                #![trigger pixels[i]]
                0 <= i < pixels.len() ==> {
                    &&& frame[4 + 3 * i] == to7(pixels[i].1)
                    &&& frame[4 + 3 * i + 1] == to7(pixels[i].0)
                    &&& frame[4 + 3 * i + 2] == to7(pixels[i].2)
                }
            &&& forall|k: int| 4 + 3 * pixels.len() <= k < frame.len() ==> #[trigger] frame[k] == 0
        }),
{
    let leds = lpd8806_leds(pixels);
    let frame = clocked_frame(leds, pixel_count);
    let to7 = |x: u16|
        if x == 0 {
            128int
        } else if x >= 0xff00 {
            255int
        } else {
            128 + ((x + 128) / 256) / 2
        };
    assert forall|k: int| 0 <= k < leds.len() implies #[trigger] leds[k].len() == 3 by {
        let p = pixels[k];
        assert(lpd8806_led_spec(p.0, p.1, p.2).len() == 3);
    }
    lemma_flatten_len(leds, 3);
    let flat = leds.flatten();
    assert forall|i: int| 0 <= i < pixels.len() implies {
        &&& frame[4 + 3 * i] == to7(#[trigger] pixels[i].1)
        &&& frame[4 + 3 * i + 1] == to7(pixels[i].0)
        &&& frame[4 + 3 * i + 2] == to7(pixels[i].2)
    } by {
        let p = pixels[i];
        lemma_flatten_index(leds, 3, i, 0);
        lemma_flatten_index(leds, 3, i, 1);
        lemma_flatten_index(leds, 3, i, 2);
        assert(i * 3 == 3 * i);
        assert(frame[4 + 3 * i] == flat[3 * i]);
        assert(frame[4 + 3 * i + 1] == flat[3 * i + 1]);
        assert(frame[4 + 3 * i + 2] == flat[3 * i + 2]);
        assert(leds[i] == lpd8806_led_spec(p.0, p.1, p.2));
        assert(lpd8806_channel_spec(p.0) == to7(p.0));
        assert(lpd8806_channel_spec(p.1) == to7(p.1));
        assert(lpd8806_channel_spec(p.2) == to7(p.2));
    }
}

impl Lpd8806 {
    /// The `FRAME_BUFFER_SIZE` for `pixel_count` LEDs: the 4-byte start
    /// frame, 3 bytes per LED and the end frame.
    pub fn frame_buffer_size(pixel_count: usize) -> (size: usize)
        requires
            pixel_count >= 1,
            4 + pixel_count * 3 + end_frame_len(pixel_count as nat) <= usize::MAX,
        ensures
            size == 4 + pixel_count * 3 + end_frame_len(pixel_count as nat),
    {
        let end = (pixel_count - 1) / 16 + 1;
        4 + pixel_count * 3 + end
    }

    /// The start frame: 32 zero bits.
    pub fn start() -> (frame: [u8; 4])
        ensures
            frame@ == seq![0u8, 0u8, 0u8, 0u8],
    {
        [0x00, 0x00, 0x00, 0x00]
    }

    /// One LED channel: mapped from 16 to 8 bits with rounding, then to 7
    /// bits, with the top bit set.
    pub fn channel(x: u16) -> (byte: u8)
        ensures
            byte == lpd8806_channel_spec(x),
    {
        let m = map16_to_8(x);
        assert((m >> 1u8) == m / 2) by (bit_vector);
        let v = m >> 1u8;
        assert((0x80u8 | v) == 128 + v) by (bit_vector)
            requires
                v < 128,
        ;
        0x80 | v
    }

    /// The bytes of one LED from its 16-bit red, green and blue channels,
    /// in the green, red, blue order the LPD8806 expects on the wire.
    pub fn led(r16: u16, g16: u16, b16: u16) -> (bytes: [u8; 3])
        ensures
            bytes@ == lpd8806_led_spec(r16, g16, b16),
    {
        let bytes = RgbChannels::GRB.reorder([Self::channel(r16), Self::channel(g16), Self::channel(b16)]);
        assert(bytes@ =~= reordered(
            rgb_order(RgbChannels::GRB),
            seq![
                lpd8806_channel_spec(r16) as u8,
                lpd8806_channel_spec(g16) as u8,
                lpd8806_channel_spec(b16) as u8,
            ],
        ));
        bytes
    }

    /// The whole frame for `pixel_count` LEDs: the start frame, the bytes of
    /// each pixel (its 16-bit red, green and blue channels), and the end
    /// frame.
    pub fn update(pixels: &[(u16, u16, u16)], pixel_count: usize) -> (frame: Vec<u8>)
        requires
            pixel_count >= 1,
        ensures
            frame@ == clocked_frame(lpd8806_leds(pixels@), pixel_count as nat),
    {
        let ghost leds = lpd8806_leds(pixels@);
        let start = Self::start();
        let mut frame: Vec<u8> = Vec::new();
        frame.push(start[0]);
        frame.push(start[1]);
        frame.push(start[2]);
        frame.push(start[3]);
        let mut i: usize = 0;
        assert(leds.take(0) =~= Seq::<Seq<u8>>::empty());
        assert(frame@ =~= seq![0u8, 0u8, 0u8, 0u8] + leds.take(0).flatten());
        while i < pixels.len()
            invariant
                i <= pixels.len(),
                leds == lpd8806_leds(pixels@),
                frame@ == seq![0u8, 0u8, 0u8, 0u8] + leds.take(i as int).flatten(),
            decreases pixels.len() - i,
        {
            let (r, g, b) = pixels[i];
            let led = Self::led(r, g, b);
            let ghost before = frame@;
            frame.push(led[0]);
            frame.push(led[1]);
            frame.push(led[2]);
            proof {
                assert(leds.take(i + 1) =~= leds.take(i as int).push(leds[i as int]));
                leds.take(i as int).lemma_flatten_push(leds[i as int]);
                assert(frame@ =~= before + led@);
            }
            i = i + 1;
        }
        assert(leds.take(pixels.len() as int) =~= leds);
        let mut end = Self::end(pixel_count);
        assert(end@ =~= Seq::new(end_frame_len(pixel_count as nat), |i: int| 0u8));
        frame.append(&mut end);
        frame
    }

    /// The end frame for `pixel_count` LEDs.
    pub fn end(pixel_count: usize) -> (frame: Vec<u8>)
        requires
            pixel_count >= 1,
        ensures
            frame.len() == end_frame_len(pixel_count as nat),
            forall|i: int| 0 <= i < frame.len() ==> frame[i] == 0,
    {
        clocked_end_frame(pixel_count)
    }
}

} // verus!
