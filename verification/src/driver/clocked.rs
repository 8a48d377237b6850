//! # Clocked LED protocols
//!
//! Clocked protocols (APA102, LPD8806, ...) use a data line and a clock line:
//! the sender sets each data bit and then pulses the clock. The clock rate
//! is chosen by the sender, not by the LEDs.

use core::marker::PhantomData;
use vstd::arithmetic::mul::*;
use vstd::prelude::*;

use crate::time::{half_cycle_nanos, Megahertz};
use crate::util::bits::{
    frame_bits, lemma_frame_bits_index, lemma_frame_bits_roundtrip, msb_bits, msb_bits_value, Word,
};

verus! {

/// A generic driver for clocked LEDs and writers.
///
/// # Type Parameters
///
/// - `Led` - The LED protocol implementation
/// - `Writer` - The clocked writer
#[derive(Debug)]
pub struct ClockedDriver<Led, Writer> {
    /// Marker for the LED protocol type
    led: PhantomData<Led>,
    /// Writer implementation for the clocked protocol
    writer: Writer,
}

impl Default for ClockedDriver<(), ()> {
    fn default() -> (driver: Self)
        ensures
            driver.writer() == (),
    {
        ClockedDriver { led: PhantomData, writer: () }
    }
}

impl<Writer> ClockedDriver<(), Writer> {
    /// Chooses the LED protocol.
    pub fn with_led<Led>(self) -> (driver: ClockedDriver<Led, Writer>)
        ensures
            driver.writer() == self.writer(),
    {
        ClockedDriver { led: PhantomData, writer: self.writer }
    }
}

impl<Led> ClockedDriver<Led, ()> {
    /// Chooses the writer.
    pub fn with_writer<Writer>(self, writer: Writer) -> (driver: ClockedDriver<Led, Writer>)
        ensures
            driver.writer() == writer,
    {
        ClockedDriver { led: self.led, writer }
    }
}

impl<Led, Writer> ClockedDriver<Led, Writer> {
    /// The writer of the driver.
    pub closed spec fn writer(&self) -> Writer {
        self.writer
    }

    /// The writer of the driver, to send frames with.
    pub fn writer_mut(&mut self) -> (writer: &mut Writer)
        ensures
            *writer == old(self).writer(),
            final(self).writer() == *final(writer),
    {
        &mut self.writer
    }
}

/// Builder for [`ClockedDelay`].
pub struct ClockedDelayBuilder<Data, Clock, Delay, DataRate> {
    data: Data,
    clock: Clock,
    delay: Delay,
    data_rate: DataRate,
}

impl Default for ClockedDelayBuilder<(), (), (), ()> {
    fn default() -> (builder: Self)
        ensures
            builder.data() == (),
            builder.clock() == (),
            builder.delay() == (),
            builder.data_rate() == (),
    {
        ClockedDelayBuilder { data: (), clock: (), delay: (), data_rate: () }
    }
}

impl<Data, Clock, Delay, DataRate> ClockedDelayBuilder<Data, Clock, Delay, DataRate> {
    /// The data pin chosen so far.
    pub closed spec fn data(&self) -> Data {
        self.data
    }

    /// The clock pin chosen so far.
    pub closed spec fn clock(&self) -> Clock {
        self.clock
    }

    /// The delay provider chosen so far.
    pub closed spec fn delay(&self) -> Delay {
        self.delay
    }

    /// The data rate chosen so far.
    pub closed spec fn data_rate(&self) -> DataRate {
        self.data_rate
    }
}

impl<Clock, Delay, DataRate> ClockedDelayBuilder<(), Clock, Delay, DataRate> {
    /// Chooses the data pin.
    pub fn with_data<Data>(self, data: Data) -> (builder: ClockedDelayBuilder<
        Data,
        Clock,
        Delay,
        DataRate,
    >)
        ensures
            builder.data() == data,
            builder.clock() == self.clock(),
            builder.delay() == self.delay(),
            builder.data_rate() == self.data_rate(),
    {
        ClockedDelayBuilder {
            data,
            clock: self.clock,
            delay: self.delay,
            data_rate: self.data_rate,
        }
    }
}

impl<Data, Delay, DataRate> ClockedDelayBuilder<Data, (), Delay, DataRate> {
    /// Chooses the clock pin.
    pub fn with_clock<Clock>(self, clock: Clock) -> (builder: ClockedDelayBuilder<
        Data,
        Clock,
        Delay,
        DataRate,
    >)
        ensures
            builder.data() == self.data(),
            builder.clock() == clock,
            builder.delay() == self.delay(),
            builder.data_rate() == self.data_rate(),
    {
        ClockedDelayBuilder {
            data: self.data,
            clock,
            delay: self.delay,
            data_rate: self.data_rate,
        }
    }
}

impl<Data, Clock, DataRate> ClockedDelayBuilder<Data, Clock, (), DataRate> {
    /// Chooses the delay provider.
    pub fn with_delay<Delay>(self, delay: Delay) -> (builder: ClockedDelayBuilder<
        Data,
        Clock,
        Delay,
        DataRate,
    >)
        ensures
            builder.data() == self.data(),
            builder.clock() == self.clock(),
            builder.delay() == delay,
            builder.data_rate() == self.data_rate(),
    {
        ClockedDelayBuilder {
            data: self.data,
            clock: self.clock,
            delay,
            data_rate: self.data_rate,
        }
    }
}

impl<Data, Clock, Delay> ClockedDelayBuilder<Data, Clock, Delay, ()> {
    /// Chooses the data rate: the clock frequency.
    pub fn with_data_rate(self, data_rate: Megahertz) -> (builder: ClockedDelayBuilder<
        Data,
        Clock,
        Delay,
        Megahertz,
    >)
        ensures
            builder.data() == self.data(),
            builder.clock() == self.clock(),
            builder.delay() == self.delay(),
            builder.data_rate() == data_rate,
    {
        ClockedDelayBuilder { data: self.data, clock: self.clock, delay: self.delay, data_rate }
    }
}

impl<Data, Clock, Delay> ClockedDelayBuilder<Data, Clock, Delay, Megahertz> {
    /// Builds the writer.
    pub fn build(self) -> (writer: ClockedDelay<Data, Clock, Delay>)
        requires
            self.data_rate().value() > 0,
        ensures
            writer.data() == self.data(),
            writer.clock() == self.clock(),
            writer.delay() == self.delay(),
            writer.t_half_cycle_ns() == (1000nat / self.data_rate().value()) / 2,
    {
        ClockedDelay::new(self.data, self.clock, self.delay, self.data_rate)
    }
}

/// Writer for clocked LEDs using GPIO bit-banging with a delay timer:
/// separate output pins for data and clock, and a delay provider for timing.
///
/// For each bit, the data line is set to the bit, then after half a clock
/// cycle the clock line goes high, and after another half cycle it goes low.
#[derive(Debug)]
pub struct ClockedDelay<Data, Clock, Delay> {
    /// GPIO pin for data transmission
    data: Data,
    /// GPIO pin for clock signal
    clock: Clock,
    /// Delay provider for timing control
    delay: Delay,
    /// Half-cycle duration in nanoseconds
    t_half_cycle_ns: u32,
}

impl<Data, Clock, Delay> ClockedDelay<Data, Clock, Delay> {
    /// The data pin.
    pub closed spec fn data(&self) -> Data {
        self.data
    }

    /// The clock pin.
    pub closed spec fn clock(&self) -> Clock {
        self.clock
    }

    /// The delay provider.
    pub closed spec fn delay(&self) -> Delay {
        self.delay
    }

    /// The half-cycle duration in nanoseconds.
    pub closed spec fn t_half_cycle_ns(&self) -> nat {
        self.t_half_cycle_ns as nat
    }

    /// Creates a new writer, whose half-cycle duration is half the period of
    /// a clock at `data_rate`, in whole nanoseconds.
    pub fn new(data: Data, clock: Clock, delay: Delay, data_rate: Megahertz) -> (writer: Self)
        requires
            data_rate.value() > 0,
        ensures
            writer.data() == data,
            writer.clock() == clock,
            writer.delay() == delay,
            writer.t_half_cycle_ns() == (1000nat / data_rate.value()) / 2,
    {
        let t_half_cycle_ns = half_cycle_nanos(data_rate);
        ClockedDelay { data, clock, delay, t_half_cycle_ns }
    }

    /// The half-cycle duration in nanoseconds.
    pub fn half_cycle_ns(&self) -> (t: u32)
        ensures
            t == self.t_half_cycle_ns(),
    {
        self.t_half_cycle_ns
    }

    /// The data pin, the clock pin and the delay provider, to send a frame
    /// with.
    pub fn parts_mut(&mut self) -> (parts: (&mut Data, &mut Clock, &mut Delay))
        ensures
            *parts.0 == old(self).data(),
            *parts.1 == old(self).clock(),
            *parts.2 == old(self).delay(),
            final(self).data() == *final(parts.0),
            final(self).clock() == *final(parts.1),
            final(self).delay() == *final(parts.2),
            final(self).t_half_cycle_ns() == old(self).t_half_cycle_ns(),
    {
        (&mut self.data, &mut self.clock, &mut self.delay)
    }

    /// The steps that send `frame` at the writer's data rate: drive the pins
    /// and wait as each step says, in order.
    pub fn signal<'a, W: Word>(&self, frame: &'a [W]) -> (signal: ClockedSignal<'a, W>)
        ensures
            signal@ == clocked_signal(frame_bits(frame@), self.t_half_cycle_ns()),
            signal.frame() == frame@,
    {
        ClockedSignal::new(frame, self.t_half_cycle_ns)
    }
}

/// One step of sending a frame down a data line and a clock line.
#[derive(Debug, Clone, Copy, PartialEq, Eq, Structural)]
pub enum ClockedStep {
    /// Drive the data line to the bit (high for `true`), then wait this many
    /// nanoseconds.
    Data(bool, u32),
    /// Drive the clock line high, then wait this many nanoseconds.
    ClockHigh(u32),
    /// Drive the clock line low.
    ClockLow,
}

/// The steps that send `bits` with a half clock cycle of `half_cycle`
/// nanoseconds: for each bit, in order, set the data line to it, wait half a
/// cycle, raise the clock, wait half a cycle, and lower the clock.
pub open spec fn clocked_signal(bits: Seq<bool>, half_cycle: nat) -> Seq<ClockedStep> {
    Seq::new(
        3 * bits.len(),
        |k: int|
            if k % 3 == 0 {
                ClockedStep::Data(bits[k / 3], half_cycle as u32)
            } else if k % 3 == 1 {
                ClockedStep::ClockHigh(half_cycle as u32)
            } else {
                ClockedStep::ClockLow
            },
    )
}

/// What a receiver reads from the steps of a clocked signal: the data line
/// at each rising edge of the clock.
pub open spec fn clocked_decode(steps: Seq<ClockedStep>) -> Seq<bool> {
    Seq::new(
        (steps.len() / 3) as nat,
        |i: int|
            match steps[3 * i] {
                ClockedStep::Data(bit, _) => bit,
                _ => false,
            },
    )
}

/// In a clocked signal every rising edge of the clock comes right after the
/// data line was set and half a cycle went by, and the data line a receiver
/// reads at the rising edges gives back exactly the bits that were sent.
pub proof fn lemma_clocked_signal_carries_bits(bits: Seq<bool>, half_cycle: nat)
    ensures
        clocked_decode(clocked_signal(bits, half_cycle)) == bits,
        forall|k: int|
            0 <= k < clocked_signal(bits, half_cycle).len() && #[trigger] clocked_signal(
                bits,
                half_cycle,
            )[k] is ClockHigh ==> k >= 1 && clocked_signal(bits, half_cycle)[k - 1] == ClockedStep::Data(
                bits[(k - 1) / 3],
                half_cycle as u32,
            ),
{
    let steps = clocked_signal(bits, half_cycle);
    let decoded = clocked_decode(steps);
    assert forall|i: int| 0 <= i < bits.len() implies #[trigger] decoded[i] == bits[i] by {
        assert((3 * i) / 3 == i);
        assert((3 * i) % 3 == 0);
    }
    assert(decoded =~= bits);
}

/// A receiver reading the data line at the rising clock edges of the
/// signal of a frame, word by word, gets back each word of the frame.
pub proof fn lemma_clocked_signal_carries_frame<W: Word>(frame: Seq<W>, half_cycle: nat, k: int)
    requires
        0 <= k < frame.len(),
    ensures
        msb_bits_value(
            clocked_decode(clocked_signal(frame_bits(frame), half_cycle)).subrange(
                k * W::width(),
                (k + 1) * W::width(),
            ),
        ) == frame[k].value(),
{
    lemma_clocked_signal_carries_bits(frame_bits(frame), half_cycle);
    lemma_frame_bits_roundtrip(frame, k);
}

/// The steps that send a frame down a data line and a clock line, one at a
/// time.
///
/// This holds the decisions of bit-banging a frame; whoever drives the pins
/// performs each step it hands out.
pub struct ClockedSignal<'a, W: Word> {
    frame: &'a [W],
    half_cycle: u32,
    /// The width of a word, in bits.
    width: u32,
    /// The word being sent.
    word: usize,
    /// How many bits of that word have been sent.
    bit: u32,
    /// How many steps of the current bit have been sent.
    phase: u32,
}

impl<'a, W: Word> ClockedSignal<'a, W> {
    #[verifier::type_invariant]
    spec fn inv(self) -> bool {
        &&& self.width as nat == W::width()
        &&& self.bit < self.width
        &&& self.phase < 3
        &&& self.word <= self.frame@.len()
        &&& self.word == self.frame@.len() ==> self.bit == 0 && self.phase == 0
    }

    /// How many steps have been handed out.
    spec fn position(self) -> int {
        3 * (self.word * W::width() + self.bit) + self.phase
    }

    /// The frame being sent.
    pub closed spec fn frame(self) -> Seq<W> {
        self.frame@
    }
}

impl<'a, W: Word> View for ClockedSignal<'a, W> {
    type V = Seq<ClockedStep>;

    /// The steps still to come.
    closed spec fn view(&self) -> Seq<ClockedStep> {
        clocked_signal(frame_bits(self.frame@), self.half_cycle as nat).skip(self.position())
    }
}

impl<'a, W: Word> ClockedSignal<'a, W> {
    /// The steps that send `frame` with half clock cycles of `half_cycle`
    /// nanoseconds.
    pub fn new(frame: &'a [W], half_cycle: u32) -> (signal: Self)
        ensures
            signal@ == clocked_signal(frame_bits(frame@), half_cycle as nat),
            signal.frame() == frame@,
    {
        let signal = ClockedSignal { frame, half_cycle, width: W::bits(), word: 0, bit: 0, phase: 0 };
        assert(signal.position() == 0);
        signal
    }

    /// Hands out the next step, or `None` once the whole signal is out.
    pub fn next(&mut self) -> (step: Option<ClockedStep>)
        ensures
            final(self).frame() == old(self).frame(),
            old(self)@.len() == 0 ==> step is None && final(self)@ == old(self)@,
            old(self)@.len() > 0 ==> step == Some(old(self)@[0]) && final(self)@ == old(
                self,
            )@.drop_first(),
    {
        proof {
            use_type_invariant(&*self);
        }
        let ghost steps = clocked_signal(frame_bits(self.frame@), self.half_cycle as nat);
        let ghost p = self.position();
        let ghost w = W::width() as int;
        if self.word >= self.frame.len() {
            return None;
        }
        proof {
            lemma_frame_bits_index(self.frame@, self.word as int, self.bit as int);
        }
        let ghost k = self.word * w + self.bit;
        assert(p / 3 == k && p % 3 == self.phase);
        if self.phase == 0 {
            let b = self.frame[self.word].bit(self.width - 1 - self.bit);
            assert(b == frame_bits(self.frame@)[k]);
            *self = ClockedSignal { phase: 1, ..*self };
            assert(self@ =~= steps.skip(p).drop_first());
            Some(ClockedStep::Data(b, self.half_cycle))
        } else if self.phase == 1 {
            *self = ClockedSignal { phase: 2, ..*self };
            assert(self@ =~= steps.skip(p).drop_first());
            Some(ClockedStep::ClockHigh(self.half_cycle))
        } else {
            if self.bit + 1 == self.width {
                proof {
                    lemma_mul_is_distributive_add_other_way(w, self.word as int, 1);
                }
                *self = ClockedSignal { word: self.word + 1, bit: 0, phase: 0, ..*self };
            } else {
                *self = ClockedSignal { bit: self.bit + 1, phase: 0, ..*self };
            }
            assert(self.position() == p + 1);
            assert(self@ =~= steps.skip(p).drop_first());
            Some(ClockedStep::ClockLow)
        }
    }
}

} // verus!
