//! # Bits of a word
//!
//! Clocked and clockless LED protocols send each word of a frame one bit at
//! a time, most significant bit first.

use vstd::arithmetic::div_mod::*;
use vstd::arithmetic::mul::*;
use vstd::arithmetic::power2::*;
use vstd::bits::*;
use vstd::prelude::*;

verus! {

/// The order in which the bits of a word are sent.
#[derive(Debug, Clone, Copy, PartialEq, Eq, Structural)]
pub enum BitOrder {
    MostSignificantBit,
    LeastSignificantBit,
}

/// Bit `index` (0 is the least significant) of the number `value`.
pub open spec fn bit_of(value: nat, index: nat) -> bool {
    (value / pow2(index)) % 2 == 1
}

/// A word that can be sent bit by bit: an unsigned integer of a fixed width.
pub trait Word: Copy + Sized {
    /// The number the word holds.
    spec fn value(self) -> nat;

    /// The width of the word in bits.
    spec fn width() -> nat;

    /// The width of the word in bits.
    fn bits() -> (n: u32)
        ensures
            n as nat == Self::width(),
            8 <= n <= 128,
    ;

    /// Bit `index` of the word (0 is the least significant).
    fn bit(self, index: u32) -> (b: bool)
        requires
            (index as nat) < Self::width(),
        ensures
            b == bit_of(self.value(), index as nat),
    ;

    /// A word's value fits in its width.
    proof fn lemma_value_fits(self)
        ensures
            self.value() < pow2(Self::width()),
    ;
}


impl Word for u8 {
    open spec fn value(self) -> nat {
        self as nat
    }

    open spec fn width() -> nat {
        8
    }

    fn bits() -> (n: u32) {
        8
    }

    fn bit(self, index: u32) -> (b: bool) {
        let shifted = self >> (index as u8);
        proof {
            lemma_u8_shr_is_div(self, index as u8);
        }
        assert((shifted & 1u8 == 1u8) == (shifted % 2 == 1)) by (bit_vector);
        shifted & 1 == 1
    }

    proof fn lemma_value_fits(self) {
        lemma2_to64();
    }
}

impl Word for u16 {
    open spec fn value(self) -> nat {
        self as nat
    }

    open spec fn width() -> nat {
        16
    }

    fn bits() -> (n: u32) {
        16
    }

    fn bit(self, index: u32) -> (b: bool) {
        let shifted = self >> (index as u16);
        proof {
            lemma_u16_shr_is_div(self, index as u16);
        }
        assert((shifted & 1u16 == 1u16) == (shifted % 2 == 1)) by (bit_vector);
        shifted & 1 == 1
    }

    proof fn lemma_value_fits(self) {
        lemma2_to64();
    }
}

impl Word for u32 {
    open spec fn value(self) -> nat {
        self as nat
    }

    open spec fn width() -> nat {
        32
    }

    fn bits() -> (n: u32) {
        32
    }

    fn bit(self, index: u32) -> (b: bool) {
        let shifted = self >> (index as u32);
        proof {
            lemma_u32_shr_is_div(self, index as u32);
        }
        assert((shifted & 1u32 == 1u32) == (shifted % 2 == 1)) by (bit_vector);
        shifted & 1 == 1
    }

    proof fn lemma_value_fits(self) {
        lemma2_to64();
    }
}

impl Word for u64 {
    open spec fn value(self) -> nat {
        self as nat
    }

    open spec fn width() -> nat {
        64
    }

    fn bits() -> (n: u32) {
        64
    }

    fn bit(self, index: u32) -> (b: bool) {
        let shifted = self >> (index as u64);
        proof {
            lemma_u64_shr_is_div(self, index as u64);
        }
        assert((shifted & 1u64 == 1u64) == (shifted % 2 == 1)) by (bit_vector);
        shifted & 1 == 1
    }

    proof fn lemma_value_fits(self) {
        lemma2_to64();
    }
}

impl Word for u128 {
    open spec fn value(self) -> nat {
        self as nat
    }

    open spec fn width() -> nat {
        128
    }

    fn bits() -> (n: u32) {
        128
    }

    fn bit(self, index: u32) -> (b: bool) {
        let shifted = self >> (index as u128);
        proof {
            lemma_u128_shr_is_div(self, index as u128);
        }
        assert((shifted & 1u128 == 1u128) == (shifted % 2 == 1)) by (bit_vector);
        shifted & 1 == 1
    }

    proof fn lemma_value_fits(self) {
        lemma2_to64();
        lemma_pow2_adds(64, 64);
    }
}

/// The bits of the `n`-bit number `value`, most significant first.
pub open spec fn msb_bits(value: nat, n: nat) -> Seq<bool> {
    Seq::new(n, |i: int| bit_of(value, (n - 1 - i) as nat))
}

/// The number that a sequence of bits, most significant first, stands for.
pub open spec fn msb_bits_value(bits: Seq<bool>) -> nat
    decreases bits.len(),
{
    if bits.len() == 0 {
        0
    } else {
        2 * msb_bits_value(bits.drop_last()) + if bits.last() {
            1nat
        } else {
            0nat
        }
    }
}

/// The bits of a number, most significant first, stand for that number: no
/// bit is lost or changed on the way.
pub proof fn lemma_msb_bits_roundtrip(value: nat, n: nat)
    requires
        value < pow2(n),
    ensures
        msb_bits_value(msb_bits(value, n)) == value,
    decreases n,
{
    lemma2_to64();
    if n == 0 {
        assert(value == 0);
    } else {
        let bits = msb_bits(value, n);
        let m = (n - 1) as nat;
        lemma_pow2_unfold(n);
        lemma_pow2_pos(m);
        assert(value / 2 < pow2(m)) by {
            lemma_div_by_multiple_is_strongly_ordered(value as int, (2 * pow2(m)) as int, pow2(m) as int, 2);
        }
        assert forall|i: int| 0 <= i < m implies #[trigger] bits.drop_last()[i] == msb_bits(value / 2, m)[i] by {
            let k = (m - 1 - i) as nat;
            lemma_pow2_pos(k);
            lemma_div_denominator(value as int, 2, pow2(k) as int);
            lemma_pow2_adds(1, k);
            assert(n - 1 - i == k + 1);
        }
        assert(bits.drop_last() =~= msb_bits(value / 2, m));
        lemma_msb_bits_roundtrip(value / 2, m);
        assert(bits.last() == bit_of(value, 0));
        assert(value / pow2(0) == value);
    }
}

/// The bits of a frame of words, word after word, each word most
/// significant bit first: the order in which they go down the wire.
pub open spec fn frame_bits<W: Word>(frame: Seq<W>) -> Seq<bool> {
    Seq::new(
        frame.len() * W::width(),
        |i: int| bit_of(frame[i / (W::width() as int)].value(), (W::width() - 1 - i % (W::width() as int)) as nat),
    )
}

/// Bit `j` (most significant first) of word `k` of a frame stands at place
/// `k * width + j` of the frame's bits.
pub proof fn lemma_frame_bits_index<W: Word>(frame: Seq<W>, k: int, j: int)
    requires
        0 <= k < frame.len(),
        0 <= j < W::width(),
    ensures
        0 <= k * W::width() + j < frame_bits(frame).len(),
        frame_bits(frame)[k * W::width() + j] == msb_bits(frame[k].value(), W::width())[j],
{
    let w = W::width() as int;
    lemma_fundamental_div_mod_converse(k * w + j, w, k, j);
    lemma_mul_inequality(k + 1, frame.len() as int, w);
    lemma_mul_is_distributive_add_other_way(w, k, 1);
    lemma_mul_nonnegative(k, w);
}

/// The bits of a frame, read back word by word, give the frame: word `k`
/// is the number that bits `k * width` up to `(k + 1) * width` stand for.
pub proof fn lemma_frame_bits_roundtrip<W: Word>(frame: Seq<W>, k: int)
    requires
        0 <= k < frame.len(),
    ensures
        (k + 1) * W::width() <= frame_bits(frame).len(),
        msb_bits_value(frame_bits(frame).subrange(k * W::width(), (k + 1) * W::width()))
            == frame[k].value(),
{
    let w = W::width() as int;
    let bits = frame_bits(frame);
    lemma_mul_is_distributive_add_other_way(w, k, 1);
    lemma_mul_inequality(k + 1, frame.len() as int, w);
    assert forall|j: int| 0 <= j < w implies #[trigger] bits.subrange(k * w, k * w + w)[j]
        == msb_bits(frame[k].value(), W::width())[j] by {
        lemma_frame_bits_index(frame, k, j);
    }
    assert(bits.subrange(k * w, k * w + w) =~= msb_bits(frame[k].value(), W::width()));
    frame[k].lemma_value_fits();
    lemma_msb_bits_roundtrip(frame[k].value(), W::width());
}

/// MSB-first bit iterator over a word.
#[derive(Debug, Copy)]
pub struct BitsMsb<W: Word> {
    value: W,
    remaining: u32,
}

impl<W: Word> Clone for BitsMsb<W> {
    fn clone(&self) -> (copy: Self)
        ensures
            copy@ == self@,
    {
        *self
    }
}

impl<W: Word> BitsMsb<W> {
    #[verifier::type_invariant]
    spec fn inv(self) -> bool {
        self.remaining as nat <= W::width()
    }
}

impl<W: Word> View for BitsMsb<W> {
    type V = Seq<bool>;

    /// The bits still to come, most significant first.
    closed spec fn view(&self) -> Seq<bool> {
        msb_bits(self.value.value(), self.remaining as nat)
    }
}

impl<W: Word> BitsMsb<W> {
    /// An iterator over all the bits of `word`, most significant first.
    pub fn new(word: W) -> (bits: Self)
        ensures
            bits@ == msb_bits(word.value(), W::width()),
    {
        Self { value: word, remaining: W::bits() }
    }

    /// Hands out the next bit, or `None` once all the bits are out.
    pub fn next(&mut self) -> (bit: Option<bool>)
        ensures
            old(self)@.len() == 0 ==> bit is None && final(self)@ == old(self)@,
            old(self)@.len() > 0 ==> bit == Some(old(self)@[0]) && final(self)@ == old(
                self,
            )@.drop_first(),
    {
        proof {
            use_type_invariant(&*self);
        }
        if self.remaining == 0 {
            return None;
        }
        let ghost before = self@;
        let bit = self.value.bit(self.remaining - 1);
        self.remaining = self.remaining - 1;
        assert(self@ =~= before.drop_first());
        Some(bit)
    }
}

/// An iterator over the bits of `word`, most significant first.
pub fn word_to_bits_msb<W: Word>(word: W) -> (bits: BitsMsb<W>)
    ensures
        bits@ == msb_bits(word.value(), W::width()),
{
    BitsMsb::new(word)
}

} // verus!
