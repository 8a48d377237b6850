//! # Clockless LED protocols
//!
//! Clockless protocols (WS2812, SK6812, ...) encode each bit as a high pulse
//! followed by a low pulse on a single data line: the durations of the two
//! pulses tell a '0' bit from a '1' bit. After all bits, the line is held low
//! for a reset period so that the LEDs latch the data.

use core::marker::PhantomData;
use vstd::arithmetic::mul::*;
use vstd::prelude::*;

use crate::color::led::channel_count_spec;
use crate::color::{LedChannels, LedColor};
use crate::leds::lemma_flatten_len;
use crate::util::bits::{
    frame_bits, lemma_frame_bits_index, lemma_frame_bits_roundtrip, msb_bits, msb_bits_value, Word,
};

verus! {

/// The pulse timings of a clockless LED chipset, in nanoseconds.
#[derive(Debug, Clone, Copy, PartialEq, Eq, Structural)]
pub struct ClocklessTiming {
    /// Duration of high signal for transmitting a '0' bit.
    pub t_0h: u32,
    /// Duration of low signal for transmitting a '0' bit.
    pub t_0l: u32,
    /// Duration of high signal for transmitting a '1' bit.
    pub t_1h: u32,
    /// Duration of low signal for transmitting a '1' bit.
    pub t_1l: u32,
    /// Duration of the low reset period at the end of a transmission.
    pub t_reset: u32,
}

impl ClocklessTiming {
    /// The (high, low) pulse durations that transmit `bit`.
    pub open spec fn pulse_spec(self, bit: bool) -> (u32, u32) {
        if bit {
            (self.t_1h, self.t_1l)
        } else {
            (self.t_0h, self.t_0l)
        }
    }

    /// The total cycle time for a bit transmission: the longer of the two
    /// bit encodings, so that timing is right whatever the bit.
    pub open spec fn t_cycle_spec(self) -> nat {
        let zero = self.t_0h + self.t_0l;
        let one = self.t_1h + self.t_1l;
        if zero >= one {
            zero as nat
        } else {
            one as nat
        }
    }

    /// The (high, low) pulse durations, in nanoseconds, that transmit `bit`.
    pub fn bit_pulse(&self, bit: bool) -> (pulse: (u32, u32))
        ensures
            pulse == self.pulse_spec(bit),
    {
        if bit {
            (self.t_1h, self.t_1l)
        } else {
            (self.t_0h, self.t_0l)
        }
    }

    /// Calculates the total cycle time for a bit transmission, in
    /// nanoseconds: the maximum of `T_0H + T_0L` and `T_1H + T_1L`.
    pub fn t_cycle(&self) -> (t: u32)
        requires
            self.t_0h + self.t_0l <= u32::MAX,
            self.t_1h + self.t_1l <= u32::MAX,
        ensures
            t == self.t_cycle_spec(),
    {
        let zero = self.t_0h + self.t_0l;
        let one = self.t_1h + self.t_1l;
        if zero >= one {
            zero
        } else {
            one
        }
    }
}

/// One step of sending a frame down a clockless data line.
#[derive(Debug, Clone, Copy, PartialEq, Eq, Structural)]
pub enum ClocklessStep {
    /// Drive the data line high, then wait this many nanoseconds.
    High(u32),
    /// Drive the data line low, then wait this many nanoseconds.
    Low(u32),
    /// Keep the data line low for the reset period of this many nanoseconds.
    Reset(u32),
}

/// The steps that send `bits` with `timing`: for each bit, in order, a high
/// pulse and a low pulse of the bit's durations; then the reset period.
pub open spec fn clockless_signal(bits: Seq<bool>, timing: ClocklessTiming) -> Seq<ClocklessStep> {
    Seq::new(
        2 * bits.len() + 1,
        |k: int|
            if k == 2 * bits.len() {
                ClocklessStep::Reset(timing.t_reset)
            } else if k % 2 == 0 {
                ClocklessStep::High(timing.pulse_spec(bits[k / 2]).0)
            } else {
                ClocklessStep::Low(timing.pulse_spec(bits[k / 2]).1)
            },
    )
}

/// What a receiver reads from the steps of a clockless signal: one bit for
/// each high pulse, set where the pulse lasts as long as a '1' bit's.
pub open spec fn clockless_decode(steps: Seq<ClocklessStep>, timing: ClocklessTiming) -> Seq<bool> {
    Seq::new(
        ((steps.len() - 1) / 2) as nat,
        |i: int| steps[2 * i] == ClocklessStep::High(timing.t_1h),
    )
}

/// Where the '0' and '1' bits have high pulses of different lengths, a
/// receiver reads back from the signal exactly the bits that were sent.
pub proof fn lemma_clockless_signal_carries_bits(bits: Seq<bool>, timing: ClocklessTiming)
    requires
        timing.t_0h != timing.t_1h,
    ensures
        clockless_decode(clockless_signal(bits, timing), timing) == bits,
{
    let decoded = clockless_decode(clockless_signal(bits, timing), timing);
    assert forall|i: int| 0 <= i < bits.len() implies #[trigger] decoded[i] == bits[i] by {
        assert((2 * i) / 2 == i);
        assert((2 * i) % 2 == 0);
    }
    assert(decoded =~= bits);
}

/// Where the '0' and '1' bits have high pulses of different lengths, a
/// receiver reading the signal of a frame word by word gets back each word
/// of the frame.
pub proof fn lemma_clockless_signal_carries_frame<W: Word>(
    frame: Seq<W>,
    timing: ClocklessTiming,
    k: int,
)
    requires
        timing.t_0h != timing.t_1h,
        0 <= k < frame.len(),
    ensures
        msb_bits_value(
            clockless_decode(clockless_signal(frame_bits(frame), timing), timing).subrange(
                k * W::width(),
                (k + 1) * W::width(),
            ),
        ) == frame[k].value(),
{
    lemma_clockless_signal_carries_bits(frame_bits(frame), timing);
    lemma_frame_bits_roundtrip(frame, k);
}

/// Every bit of a clockless signal, its high pulse and its low pulse
/// together, takes at most the cycle time of the timing.
pub proof fn lemma_clockless_bit_fits_cycle(bits: Seq<bool>, timing: ClocklessTiming, i: int)
    requires
        0 <= i < bits.len(),
    ensures
        clockless_signal(bits, timing)[2 * i] == ClocklessStep::High(timing.pulse_spec(bits[i]).0),
        clockless_signal(bits, timing)[2 * i + 1] == ClocklessStep::Low(timing.pulse_spec(bits[i]).1),
        timing.pulse_spec(bits[i]).0 + timing.pulse_spec(bits[i]).1 <= timing.t_cycle_spec(),
{
    assert((2 * i) / 2 == i && (2 * i) % 2 == 0);
    assert((2 * i + 1) / 2 == i && (2 * i + 1) % 2 == 1);
}

/// The steps that send a frame down a clockless data line, one at a time.
///
/// This holds the decisions of bit-banging a frame; whoever drives the pin
/// performs each step it hands out.
pub struct ClocklessSignal<'a, W: Word> {
    frame: &'a [W],
    timing: ClocklessTiming,
    /// The width of a word, in bits.
    width: u32,
    /// The word being sent.
    word: usize,
    /// How many bits of that word have been sent.
    bit: u32,
    /// Whether the high pulse of the current bit has been sent.
    low: bool,
    /// Whether the reset period has been sent.
    done: bool,
}

impl<'a, W: Word> ClocklessSignal<'a, W> {
    #[verifier::type_invariant]
    spec fn inv(self) -> bool {
        &&& self.width as nat == W::width()
        &&& self.bit < self.width
        &&& self.word <= self.frame@.len()
        &&& self.word == self.frame@.len() ==> self.bit == 0 && !self.low
        &&& self.done ==> self.word == self.frame@.len()
    }

    /// How many steps have been handed out.
    spec fn position(self) -> int {
        2 * (self.word * W::width() + self.bit) + (if self.low {
            1int
        } else {
            0int
        }) + (if self.done {
            1int
        } else {
            0int
        })
    }

    /// The frame being sent.
    pub closed spec fn frame(self) -> Seq<W> {
        self.frame@
    }

    /// The timing it is sent with.
    pub closed spec fn timing(self) -> ClocklessTiming {
        self.timing
    }
}

impl<'a, W: Word> View for ClocklessSignal<'a, W> {
    type V = Seq<ClocklessStep>;

    /// The steps still to come.
    closed spec fn view(&self) -> Seq<ClocklessStep> {
        clockless_signal(frame_bits(self.frame@), self.timing).skip(self.position())
    }
}

impl<'a, W: Word> ClocklessSignal<'a, W> {
    /// The steps that send `frame` with `timing`.
    pub fn new(frame: &'a [W], timing: ClocklessTiming) -> (signal: Self)
        ensures
            signal@ == clockless_signal(frame_bits(frame@), timing),
            signal.frame() == frame@,
            signal.timing() == timing,
    {
        let signal = ClocklessSignal { frame, timing, width: W::bits(), word: 0, bit: 0, low: false, done: false };
        assert(signal.position() == 0);
        signal
    }

    /// Hands out the next step, or `None` once the whole signal is out.
    pub fn next(&mut self) -> (step: Option<ClocklessStep>)
        ensures
            final(self).frame() == old(self).frame(),
            final(self).timing() == old(self).timing(),
            old(self)@.len() == 0 ==> step is None && final(self)@ == old(self)@,
            old(self)@.len() > 0 ==> step == Some(old(self)@[0]) && final(self)@ == old(
                self,
            )@.drop_first(),
    {
        proof {
            use_type_invariant(&*self);
        }
        let ghost steps = clockless_signal(frame_bits(self.frame@), self.timing);
        let ghost p = self.position();
        let ghost w = W::width() as int;
        if self.word < self.frame.len() {
            proof {
                lemma_frame_bits_index(self.frame@, self.word as int, self.bit as int);
            }
            let ghost k = self.word * w + self.bit;
            let b = self.frame[self.word].bit(self.width - 1 - self.bit);
            assert(b == frame_bits(self.frame@)[k]);
            let (high, low) = self.timing.bit_pulse(b);
            if !self.low {
                assert(p / 2 == k && p % 2 == 0);
                *self = ClocklessSignal { low: true, ..*self };
                assert(self@ =~= steps.skip(p).drop_first());
                Some(ClocklessStep::High(high))
            } else {
                assert(p / 2 == k && p % 2 == 1);
                if self.bit + 1 == self.width {
                    proof {
                        lemma_mul_is_distributive_add_other_way(w, self.word as int, 1);
                    }
                    *self = ClocklessSignal { word: self.word + 1, bit: 0, low: false, ..*self };
                } else {
                    *self = ClocklessSignal { bit: self.bit + 1, low: false, ..*self };
                }
                assert(self.position() == p + 1);
                assert(self@ =~= steps.skip(p).drop_first());
                Some(ClocklessStep::Low(low))
            }
        } else if !self.done {
            *self = ClocklessSignal { done: true, ..*self };
            assert(self@ =~= steps.skip(p).drop_first());
            Some(ClocklessStep::Reset(self.timing.t_reset))
        } else {
            None
        }
    }
}

/// The frame of a clockless chipset: the channel values of each LED in
/// turn, each LED's in output order.
pub open spec fn clockless_frame_spec<C>(leds: Seq<LedColor<C>>) -> Seq<C> {
    leds.map_values(|led: LedColor<C>| led@).flatten()
}

/// The frame of a clockless chipset: the channel values of each LED in
/// turn, each LED's in output order.
pub fn clockless_frame<C: Copy>(leds: &[LedColor<C>]) -> (frame: Vec<C>)
    ensures
        frame@ == clockless_frame_spec(leds@),
{
    let ghost colors = leds@.map_values(|led: LedColor<C>| led@);
    let mut frame: Vec<C> = Vec::new();
    let mut i: usize = 0;
    assert(colors.take(0) =~= Seq::<Seq<C>>::empty());
    while i < leds.len()
        invariant
            i <= leds.len(),
            colors == leds@.map_values(|led: LedColor<C>| led@),
            frame@ == colors.take(i as int).flatten(),
        decreases leds.len() - i,
    {
        let led = leds[i];
        let n = led.len();
        let ghost before = frame@;
        let mut j: usize = 0;
        while j < n
            invariant
                j <= n,
                n == led@.len(),
                frame@ == before + led@.take(j as int),
            decreases n - j,
        {
            frame.push(led.channel(j));
            assert(led@.take(j + 1) =~= led@.take(j as int).push(led@[j as int]));
            j = j + 1;
        }
        proof {
            assert(led@.take(n as int) =~= led@);
            assert(colors.take(i + 1) =~= colors.take(i as int).push(colors[i as int]));
            colors.take(i as int).lemma_flatten_push(colors[i as int]);
        }
        i = i + 1;
    }
    assert(colors.take(leds.len() as int) =~= colors);
    frame
}

/// Where every LED has the channels of the chipset, the frame holds one
/// value per channel per LED: it fills the frame buffer exactly.
pub proof fn lemma_clockless_frame_len<C>(leds: Seq<LedColor<C>>, channels: LedChannels)
    requires
        forall|i: int| 0 <= i < leds.len() ==> (#[trigger] leds[i])@.len() == channel_count_spec(channels),
    ensures
        clockless_frame_spec(leds).len() == leds.len() * channel_count_spec(channels),
{
    let colors = leds.map_values(|led: LedColor<C>| led@);
    assert forall|i: int| 0 <= i < colors.len() implies #[trigger] colors[i].len() == channel_count_spec(channels) by {
        assert(leds[i]@.len() == channel_count_spec(channels));
    }
    lemma_flatten_len(colors, channel_count_spec(channels));
}

/// The protocol specifics of a clockless LED chipset: its pulse timings and
/// the order in which it expects the color channels.
pub trait ClocklessLed {
    /// The channel format the chipset expects.
    spec fn channels_spec() -> LedChannels;

    /// The pulse timings of the chipset.
    spec fn timing_spec() -> ClocklessTiming;

    /// Specification of the color channel order and format.
    fn led_channels() -> (channels: LedChannels)
        ensures
            channels == Self::channels_spec(),
    ;

    /// The pulse timings of the chipset, in nanoseconds.
    fn timing() -> (timing: ClocklessTiming)
        ensures
            timing == Self::timing_spec(),
    ;
}

/// A generic driver for clockless LEDs and writers.
///
/// # Type Parameters
///
/// - `Led` - The LED protocol implementation
/// - `Writer` - The clockless writer
#[derive(Debug)]
pub struct ClocklessDriver<Led, Writer> {
    /// Marker for the LED protocol type
    led: PhantomData<Led>,
    /// Writer implementation for the clockless protocol
    writer: Writer,
}

impl Default for ClocklessDriver<(), ()> {
    fn default() -> (driver: Self)
        ensures
            driver.writer() == (),
    {
        ClocklessDriver { led: PhantomData, writer: () }
    }
}

impl<Writer> ClocklessDriver<(), Writer> {
    /// Chooses the LED protocol.
    pub fn with_led<Led>(self) -> (driver: ClocklessDriver<Led, Writer>)
        ensures
            driver.writer() == self.writer(),
    {
        ClocklessDriver { led: PhantomData, writer: self.writer }
    }
}

impl<Led> ClocklessDriver<Led, ()> {
    /// Chooses the writer.
    pub fn with_writer<Writer>(self, writer: Writer) -> (driver: ClocklessDriver<Led, Writer>)
        ensures
            driver.writer() == writer,
    {
        ClocklessDriver { led: self.led, writer }
    }
}

impl<Led, Writer> ClocklessDriver<Led, Writer> {
    /// The writer of the driver.
    pub closed spec fn writer(&self) -> Writer {
        self.writer
    }

    /// The writer of the driver, to send frames with.
    pub fn writer_mut(&mut self) -> (writer: &mut Writer)
        ensures
            *writer == old(self).writer(),
            final(self).writer() == *final(writer),
    {
        &mut self.writer
    }
}

/// Builder for [`ClocklessDelay`].
pub struct ClocklessDelayBuilder<Led, Data, Delay> {
    led: PhantomData<Led>,
    data: Data,
    delay: Delay,
}

impl Default for ClocklessDelayBuilder<(), (), ()> {
    fn default() -> (builder: Self)
        ensures
            builder.data() == (),
            builder.delay() == (),
    {
        ClocklessDelayBuilder { led: PhantomData, data: (), delay: () }
    }
}

impl<Led, Data, Delay> ClocklessDelayBuilder<Led, Data, Delay> {
    /// The data pin chosen so far.
    pub closed spec fn data(&self) -> Data {
        self.data
    }

    /// The delay provider chosen so far.
    pub closed spec fn delay(&self) -> Delay {
        self.delay
    }
}

impl<Data, Delay> ClocklessDelayBuilder<(), Data, Delay> {
    /// Chooses the LED protocol.
    pub fn with_led<Led>(self) -> (builder: ClocklessDelayBuilder<Led, Data, Delay>)
        ensures
            builder.data() == self.data(),
            builder.delay() == self.delay(),
    {
        ClocklessDelayBuilder { led: PhantomData, data: self.data, delay: self.delay }
    }
}

impl<Led, Delay> ClocklessDelayBuilder<Led, (), Delay> {
    /// Chooses the data pin.
    pub fn with_data<Data>(self, data: Data) -> (builder: ClocklessDelayBuilder<Led, Data, Delay>)
        ensures
            builder.data() == data,
            builder.delay() == self.delay(),
    {
        ClocklessDelayBuilder { led: self.led, data, delay: self.delay }
    }
}

impl<Led, Data> ClocklessDelayBuilder<Led, Data, ()> {
    /// Chooses the delay provider.
    pub fn with_delay<Delay>(self, delay: Delay) -> (builder: ClocklessDelayBuilder<Led, Data, Delay>)
        ensures
            builder.data() == self.data(),
            builder.delay() == delay,
    {
        ClocklessDelayBuilder { led: self.led, data: self.data, delay }
    }
}

impl<Led: ClocklessLed, Data, Delay> ClocklessDelayBuilder<Led, Data, Delay> {
    /// Builds the writer.
    pub fn build(self) -> (writer: ClocklessDelay<Led, Data, Delay>)
        ensures
            writer.data() == self.data(),
            writer.delay() == self.delay(),
            writer.timing() == Led::timing_spec(),
    {
        ClocklessDelay::new(self.data, self.delay)
    }
}

/// Writer for clockless LEDs using GPIO bit-banging with a delay timer:
/// a single output pin for data and a delay provider for timing, with the
/// timing parameters of the LED chipset.
pub struct ClocklessDelay<Led, Data, Delay> {
    /// Marker for the LED protocol type
    led: PhantomData<Led>,
    /// GPIO pin for data transmission
    data: Data,
    /// Delay provider for timing control
    delay: Delay,
    /// Pulse timings of the LED chipset
    timing: ClocklessTiming,
}

impl<Led, Data, Delay> ClocklessDelay<Led, Data, Delay> {
    /// The data pin.
    pub closed spec fn data(&self) -> Data {
        self.data
    }

    /// The delay provider.
    pub closed spec fn delay(&self) -> Delay {
        self.delay
    }

    /// The pulse timings the writer sends with.
    pub closed spec fn timing(&self) -> ClocklessTiming {
        self.timing
    }

    /// The data pin, the delay provider and the pulse timings, to send a
    /// frame with.
    pub fn parts_mut(&mut self) -> (parts: (&mut Data, &mut Delay, ClocklessTiming))
        ensures
            *parts.0 == old(self).data(),
            *parts.1 == old(self).delay(),
            parts.2 == old(self).timing(),
            final(self).data() == *final(parts.0),
            final(self).delay() == *final(parts.1),
            final(self).timing() == old(self).timing(),
    {
        (&mut self.data, &mut self.delay, self.timing)
    }

    /// The steps that send `frame` with the chipset's timings: drive the data
    /// pin and wait as each step says, in order.
    pub fn signal<'a, W: Word>(&self, frame: &'a [W]) -> (signal: ClocklessSignal<'a, W>)
        ensures
            signal@ == clockless_signal(frame_bits(frame@), self.timing()),
            signal.frame() == frame@,
            signal.timing() == self.timing(),
    {
        ClocklessSignal::new(frame, self.timing)
    }
}

impl<Led: ClocklessLed, Data, Delay> ClocklessDelay<Led, Data, Delay> {
    /// Creates a new clockless LED writer. Assumes the data pin is already low.
    pub fn new(data: Data, delay: Delay) -> (writer: Self)
        ensures
            writer.data() == data,
            writer.delay() == delay,
            writer.timing() == Led::timing_spec(),
    {
        ClocklessDelay { led: PhantomData, data, delay, timing: Led::timing() }
    }
}

} // verus!
