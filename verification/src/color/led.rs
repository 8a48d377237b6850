//! # LED output colors
//!
//! Color data ready for output to LED hardware, and the channel orders of the
//! different LED chipsets.

use vstd::prelude::*;

verus! {

/// Enumeration of RGB channel orders.
///
/// Different RGB LED chipsets may use different ordering of the R, G, and B channels.
#[derive(Debug, Clone, Copy, PartialEq, Eq, Structural)]
pub enum RgbChannels {
    /// Red, Green, Blue
    RGB,
    /// Red, Blue, Green
    RBG,
    /// Green, Red, Blue
    GRB,
    /// Green, Blue, Red
    GBR,
    /// Blue, Red, Green
    BRG,
    /// Blue, Green, Red
    BGR,
}

/// Enumeration of RGBW channel orders.
///
/// Different RGBW LED chipsets may use different ordering of the R, G, B, and W channels.
#[derive(Debug, Clone, Copy, PartialEq, Eq, Structural)]
pub enum RgbwChannels {
    // RGB
    /// White, Red, Green, Blue
    WRGB,
    /// Red, White, Green, Blue
    RWGB,
    /// Red, Green, White, Blue
    RGWB,
    /// Red, Green, Blue, White
    RGBW,

    // RBG
    /// White, Red, Blue, Green
    WRBG,
    /// Red, White, Blue, Green
    RWBG,
    /// Red, Blue, White, Green
    RBWG,
    /// Red, Blue, Green, White
    RBGW,

    // GRB
    /// White, Green, Red, Blue
    WGRB,
    /// Green, White, Red, Blue
    GWRB,
    /// Green, Red, White, Blue
    GRWB,
    /// Green, Red, Blue, White
    GRBW,

    // GBR
    /// White, Green, Blue, Red
    WGBR,
    /// Green, White, Blue, Red
    GWBR,
    /// Green, Blue, White, Red
    GBWR,
    /// Green, Blue, Red, White
    GBRW,

    // BRG
    /// White, Blue, Red, Green
    WBRG,
    /// Blue, White, Red, Green
    BWRG,
    /// Blue, Red, White, Green
    BRWG,
    /// Blue, Red, Green, White
    BRGW,

    // BGR
    /// White, Blue, Green, Red
    WBGR,
    /// Blue, White, Green, Red
    BWGR,
    /// Blue, Green, White, Red
    BGWR,
    /// Blue, Green, Red, White
    BGRW,
}

/// Enumeration of color channel formats.
///
/// Different LED chipsets have different ordering of color channels.
/// This enum represents the possible arrangements.
#[derive(Debug, Clone, Copy, PartialEq, Eq, Structural)]
pub enum LedChannels {
    /// RGB with 3 channels
    Rgb(RgbChannels),
    /// RGBW with 4 channels
    Rgbw(RgbwChannels),
}

/// The canonical index (red 0, green 1, blue 2) of the channel written at
/// each position by an RGB channel order: the order's name spells it.
pub open spec fn rgb_order(channels: RgbChannels) -> Seq<int> {
    match channels {
        RgbChannels::RGB => seq![0, 1, 2],
        RgbChannels::RBG => seq![0, 2, 1],
        RgbChannels::GRB => seq![1, 0, 2],
        RgbChannels::GBR => seq![1, 2, 0],
        RgbChannels::BRG => seq![2, 0, 1],
        RgbChannels::BGR => seq![2, 1, 0],
    }
}

/// The canonical index (red 0, green 1, blue 2, white 3) of the channel
/// written at each position by an RGBW channel order: the order's name
/// spells it.
pub open spec fn rgbw_order(channels: RgbwChannels) -> Seq<int> {
    match channels {
        RgbwChannels::WRGB => seq![3, 0, 1, 2],
        RgbwChannels::RWGB => seq![0, 3, 1, 2],
        RgbwChannels::RGWB => seq![0, 1, 3, 2],
        RgbwChannels::RGBW => seq![0, 1, 2, 3],
        RgbwChannels::WRBG => seq![3, 0, 2, 1],
        RgbwChannels::RWBG => seq![0, 3, 2, 1],
        RgbwChannels::RBWG => seq![0, 2, 3, 1],
        RgbwChannels::RBGW => seq![0, 2, 1, 3],
        RgbwChannels::WGRB => seq![3, 1, 0, 2],
        RgbwChannels::GWRB => seq![1, 3, 0, 2],
        RgbwChannels::GRWB => seq![1, 0, 3, 2],
        RgbwChannels::GRBW => seq![1, 0, 2, 3],
        RgbwChannels::WGBR => seq![3, 1, 2, 0],
        RgbwChannels::GWBR => seq![1, 3, 2, 0],
        RgbwChannels::GBWR => seq![1, 2, 3, 0],
        RgbwChannels::GBRW => seq![1, 2, 0, 3],
        RgbwChannels::WBRG => seq![3, 2, 0, 1],
        RgbwChannels::BWRG => seq![2, 3, 0, 1],
        RgbwChannels::BRWG => seq![2, 0, 3, 1],
        RgbwChannels::BRGW => seq![2, 0, 1, 3],
        RgbwChannels::WBGR => seq![3, 2, 1, 0],
        RgbwChannels::BWGR => seq![2, 3, 1, 0],
        RgbwChannels::BGWR => seq![2, 1, 3, 0],
        RgbwChannels::BGRW => seq![2, 1, 0, 3],
    }
}

/// The values of `values` taken in `order`: position `i` holds
/// `values[order[i]]`.
pub open spec fn reordered<A>(order: Seq<int>, values: Seq<A>) -> Seq<A> {
    Seq::new(order.len(), |i: int| values[order[i]])
}

/// The RGB channel order that undoes `channels`.
pub open spec fn rgb_inverse(channels: RgbChannels) -> RgbChannels {
    match channels {
        RgbChannels::RGB => RgbChannels::RGB,
        RgbChannels::RBG => RgbChannels::RBG,
        RgbChannels::GRB => RgbChannels::GRB,
        RgbChannels::GBR => RgbChannels::BRG,
        RgbChannels::BRG => RgbChannels::GBR,
        RgbChannels::BGR => RgbChannels::BGR,
    }
}

/// The RGBW channel order that undoes `channels`.
pub open spec fn rgbw_inverse(channels: RgbwChannels) -> RgbwChannels {
    match channels {
        RgbwChannels::WRGB => RgbwChannels::GBWR,
        RgbwChannels::RWGB => RgbwChannels::RBWG,
        RgbwChannels::RGWB => RgbwChannels::RGWB,
        RgbwChannels::RGBW => RgbwChannels::RGBW,
        RgbwChannels::WRBG => RgbwChannels::GWBR,
        RgbwChannels::RWBG => RgbwChannels::RWBG,
        RgbwChannels::RBWG => RgbwChannels::RWGB,
        RgbwChannels::RBGW => RgbwChannels::RBGW,
        RgbwChannels::WGRB => RgbwChannels::BGWR,
        RgbwChannels::GWRB => RgbwChannels::BRWG,
        RgbwChannels::GRWB => RgbwChannels::GRWB,
        RgbwChannels::GRBW => RgbwChannels::GRBW,
        RgbwChannels::WGBR => RgbwChannels::WGBR,
        RgbwChannels::GWBR => RgbwChannels::WRBG,
        RgbwChannels::GBWR => RgbwChannels::WRGB,
        RgbwChannels::GBRW => RgbwChannels::BRGW,
        RgbwChannels::WBRG => RgbwChannels::BWGR,
        RgbwChannels::BWRG => RgbwChannels::BWRG,
        RgbwChannels::BRWG => RgbwChannels::GWRB,
        RgbwChannels::BRGW => RgbwChannels::GBRW,
        RgbwChannels::WBGR => RgbwChannels::WBGR,
        RgbwChannels::BWGR => RgbwChannels::WBRG,
        RgbwChannels::BGWR => RgbwChannels::WGRB,
        RgbwChannels::BGRW => RgbwChannels::BGRW,
    }
}

/// The number of channels of a channel format.
pub open spec fn channel_count_spec(channels: LedChannels) -> nat {
    match channels {
        LedChannels::Rgb(_) => 3,
        LedChannels::Rgbw(_) => 4,
    }
}

impl LedChannels {
    /// Returns the number of color channels.
    pub fn channel_count(&self) -> (n: usize)
        ensures
            n == channel_count_spec(*self),
    {
        match self {
            LedChannels::Rgb(_) => 3,
            LedChannels::Rgbw(_) => 4,
        }
    }
}

impl RgbChannels {
    /// Reorders RGB values according to the channel order.
    ///
    /// # Arguments
    ///
    /// - `rgb` - Array of [R, G, B] values in canonical order
    ///
    /// # Returns
    ///
    /// Array of values reordered according to the channel specification
    pub fn reorder<Word: Copy>(&self, rgb: [Word; 3]) -> (out: [Word; 3])
        ensures
            out@ == reordered(rgb_order(*self), rgb@),
    {
        match self {
            RgbChannels::RGB => [rgb[0], rgb[1], rgb[2]],
            RgbChannels::RBG => [rgb[0], rgb[2], rgb[1]],
            RgbChannels::GRB => [rgb[1], rgb[0], rgb[2]],
            RgbChannels::GBR => [rgb[1], rgb[2], rgb[0]],
            RgbChannels::BRG => [rgb[2], rgb[0], rgb[1]],
            RgbChannels::BGR => [rgb[2], rgb[1], rgb[0]],
        }
    }
}

impl RgbwChannels {
    /// Reorders RGBW values according to the channel order.
    ///
    /// # Arguments
    ///
    /// - `rgbw` - Array of [R, G, B, W] values in canonical order
    ///
    /// # Returns
    ///
    /// Array of values reordered according to the channel specification
    pub fn reorder<Word: Copy>(&self, rgbw: [Word; 4]) -> (out: [Word; 4])
        ensures
            out@ == reordered(rgbw_order(*self), rgbw@),
    {
        match self {
            // RGB
            RgbwChannels::WRGB => [rgbw[3], rgbw[0], rgbw[1], rgbw[2]],
            RgbwChannels::RWGB => [rgbw[0], rgbw[3], rgbw[1], rgbw[2]],
            RgbwChannels::RGWB => [rgbw[0], rgbw[1], rgbw[3], rgbw[2]],
            RgbwChannels::RGBW => [rgbw[0], rgbw[1], rgbw[2], rgbw[3]],
            // RBG
            RgbwChannels::WRBG => [rgbw[3], rgbw[0], rgbw[2], rgbw[1]],
            RgbwChannels::RWBG => [rgbw[0], rgbw[3], rgbw[2], rgbw[1]],
            RgbwChannels::RBWG => [rgbw[0], rgbw[2], rgbw[3], rgbw[1]],
            RgbwChannels::RBGW => [rgbw[0], rgbw[2], rgbw[1], rgbw[3]],
            // GRB
            RgbwChannels::WGRB => [rgbw[3], rgbw[1], rgbw[0], rgbw[2]],
            RgbwChannels::GWRB => [rgbw[1], rgbw[3], rgbw[0], rgbw[2]],
            RgbwChannels::GRWB => [rgbw[1], rgbw[0], rgbw[3], rgbw[2]],
            RgbwChannels::GRBW => [rgbw[1], rgbw[0], rgbw[2], rgbw[3]],
            // GBR
            RgbwChannels::WGBR => [rgbw[3], rgbw[1], rgbw[2], rgbw[0]],
            RgbwChannels::GWBR => [rgbw[1], rgbw[3], rgbw[2], rgbw[0]],
            RgbwChannels::GBWR => [rgbw[1], rgbw[2], rgbw[3], rgbw[0]],
            RgbwChannels::GBRW => [rgbw[1], rgbw[2], rgbw[0], rgbw[3]],
            // BRG
            RgbwChannels::WBRG => [rgbw[3], rgbw[2], rgbw[0], rgbw[1]],
            RgbwChannels::BWRG => [rgbw[2], rgbw[3], rgbw[0], rgbw[1]],
            RgbwChannels::BRWG => [rgbw[2], rgbw[0], rgbw[3], rgbw[1]],
            RgbwChannels::BRGW => [rgbw[2], rgbw[0], rgbw[1], rgbw[3]],
            // BGR
            RgbwChannels::WBGR => [rgbw[3], rgbw[2], rgbw[1], rgbw[0]],
            RgbwChannels::BWGR => [rgbw[2], rgbw[3], rgbw[1], rgbw[0]],
            RgbwChannels::BGWR => [rgbw[2], rgbw[1], rgbw[3], rgbw[0]],
            RgbwChannels::BGRW => [rgbw[2], rgbw[1], rgbw[0], rgbw[3]],
        }
    }
}


/// RGB color values ready for output to LED hardware
#[derive(Debug, Clone, Copy, PartialEq)]
pub struct LedRgb<C>([C; 3]);

/// RGBW color values ready for output to LED hardware
#[derive(Debug, Clone, Copy, PartialEq)]
pub struct LedRgbw<C>([C; 4]);

/// Color data ready for output to LED hardware
#[derive(Debug, Clone, Copy, PartialEq)]
pub enum LedColor<C> {
    /// Output RGB color data
    Rgb(LedRgb<C>),
    /// Output RGBW color data
    Rgbw(LedRgbw<C>),
}

/// Iterator over the channel values of a [`LedColor`], in output order.
///
/// Each variant holds the channel values and the position of the next value
/// to hand out.
pub enum LedColorIntoIter<C> {
    /// Iterator over RGB channel values
    Rgb([C; 3], usize),
    /// Iterator over RGBW channel values
    Rgbw([C; 4], usize),
}

impl<C> View for LedRgb<C> {
    type V = Seq<C>;

    closed spec fn view(&self) -> Seq<C> {
        self.0@
    }
}

impl<C> View for LedRgbw<C> {
    type V = Seq<C>;

    closed spec fn view(&self) -> Seq<C> {
        self.0@
    }
}

impl<C> View for LedColor<C> {
    type V = Seq<C>;

    open spec fn view(&self) -> Seq<C> {
        match self {
            LedColor::Rgb(rgb) => rgb@,
            LedColor::Rgbw(rgbw) => rgbw@,
        }
    }
}

impl<C> LedRgb<C> {
    /// The number of channels an RGB value always has.
    pub proof fn lemma_len(&self)
        ensures
            self@.len() == 3,
    {
    }

    /// Creates RGB LED output values from channel values in [R, G, B] order.
    pub fn from_channels(channels: [C; 3]) -> (rgb: Self)
        ensures
            rgb@ == channels@,
    {
        LedRgb(channels)
    }

    /// The channel values, in their current order.
    pub fn channels(&self) -> (channels: &[C; 3])
        ensures
            channels@ == self@,
    {
        &self.0
    }

    /// The channel values, in their current order.
    pub fn into_channels(self) -> (channels: [C; 3])
        ensures
            channels@ == self@,
    {
        self.0
    }
}

impl<C: Copy> LedRgb<C> {
    /// Reorders the RGB components according to the specified channel order
    pub fn reorder(self, channels: RgbChannels) -> (out: Self)
        ensures
            out@ == reordered(rgb_order(channels), self@),
    {
        LedRgb(channels.reorder(self.0))
    }
}

impl<C> LedRgbw<C> {
    /// The number of channels an RGBW value always has.
    pub proof fn lemma_len(&self)
        ensures
            self@.len() == 4,
    {
    }

    /// Creates RGBW LED output values from channel values in [R, G, B, W] order.
    pub fn from_channels(channels: [C; 4]) -> (rgbw: Self)
        ensures
            rgbw@ == channels@,
    {
        LedRgbw(channels)
    }

    /// The channel values, in their current order.
    pub fn channels(&self) -> (channels: &[C; 4])
        ensures
            channels@ == self@,
    {
        &self.0
    }

    /// The channel values, in their current order.
    pub fn into_channels(self) -> (channels: [C; 4])
        ensures
            channels@ == self@,
    {
        self.0
    }
}

impl<C: Copy> LedRgbw<C> {
    /// Reorders the RGBW components according to the specified channel order
    pub fn reorder(self, channels: RgbwChannels) -> (out: Self)
        ensures
            out@ == reordered(rgbw_order(channels), self@),
    {
        LedRgbw(channels.reorder(self.0))
    }
}

impl<C> LedColorIntoIter<C> {
    /// The channel values that are still to be handed out.
    pub open spec fn remaining(&self) -> Seq<C> {
        match self {
            LedColorIntoIter::Rgb(channels, next) => if *next < 3 {
                channels@.subrange(*next as int, 3)
            } else {
                Seq::empty()
            },
            LedColorIntoIter::Rgbw(channels, next) => if *next < 4 {
                channels@.subrange(*next as int, 4)
            } else {
                Seq::empty()
            },
        }
    }
}

impl<C: Copy> LedColorIntoIter<C> {
    /// Hands out the next channel value, or `None` once all are out.
    pub fn next(&mut self) -> (item: Option<C>)
        ensures
            old(self).remaining().len() == 0 ==> item is None && final(self).remaining()
                == old(self).remaining(),
            old(self).remaining().len() > 0 ==> item == Some(old(self).remaining()[0])
                && final(self).remaining() == old(self).remaining().drop_first(),
    {
        match self {
            LedColorIntoIter::Rgb(channels, next) => {
                if *next < 3 {
                    let item = channels[*next];
                    *next = *next + 1;
                    Some(item)
                } else {
                    None
                }
            },
            LedColorIntoIter::Rgbw(channels, next) => {
                if *next < 4 {
                    let item = channels[*next];
                    *next = *next + 1;
                    Some(item)
                } else {
                    None
                }
            },
        }
    }
}

impl<C: Copy> LedColor<C> {
    /// The number of channel values: 3 for RGB, 4 for RGBW.
    pub fn len(&self) -> (n: usize)
        ensures
            n == self@.len(),
            n == 3 || n == 4,
    {
        match self {
            LedColor::Rgb(rgb) => {
                proof {
                    rgb.lemma_len();
                }
                3
            },
            LedColor::Rgbw(rgbw) => {
                proof {
                    rgbw.lemma_len();
                }
                4
            },
        }
    }

    /// The channel value at `index`, in output order.
    pub fn channel(&self, index: usize) -> (value: C)
        requires
            index < self@.len(),
        ensures
            value == self@[index as int],
    {
        match self {
            LedColor::Rgb(rgb) => rgb.channels()[index],
            LedColor::Rgbw(rgbw) => rgbw.channels()[index],
        }
    }

    /// An iterator over the channel values, in output order.
    pub fn into_iter(self) -> (iter: LedColorIntoIter<C>)
        ensures
            iter.remaining() == self@,
    {
        match self {
            LedColor::Rgb(rgb) => {
                let channels = rgb.into_channels();
                assert(channels@.subrange(0, 3) == channels@);
                LedColorIntoIter::Rgb(channels, 0)
            },
            LedColor::Rgbw(rgbw) => {
                let channels = rgbw.into_channels();
                assert(channels@.subrange(0, 4) == channels@);
                LedColorIntoIter::Rgbw(channels, 0)
            },
        }
    }
}

/// A sequence of channel indices that puts each of the `n` canonical
/// channels at exactly one position.
pub open spec fn is_channel_permutation(order: Seq<int>, n: nat) -> bool {
    &&& order.len() == n
    &&& forall|i: int| 0 <= i < n ==> 0 <= #[trigger] order[i] < n
    &&& forall|i: int, j: int| 0 <= i < j < n ==> order[i] != order[j]
}

/// Every RGB channel order writes each of red, green and blue exactly once.
pub proof fn lemma_rgb_order_is_permutation(channels: RgbChannels)
    ensures
        is_channel_permutation(rgb_order(channels), 3),
{
}

/// Every RGBW channel order writes each of red, green, blue and white
/// exactly once.
pub proof fn lemma_rgbw_order_is_permutation(channels: RgbwChannels)
    ensures
        is_channel_permutation(rgbw_order(channels), 4),
{
}

/// Reordering by the inverse RGB channel order gives back the canonical
/// red, green, blue values.
pub proof fn lemma_rgb_reorder_inverse<A>(channels: RgbChannels, values: Seq<A>)
    requires
        values.len() == 3,
    ensures
        reordered(rgb_order(rgb_inverse(channels)), reordered(rgb_order(channels), values))
            == values,
{
    assert(reordered(rgb_order(rgb_inverse(channels)), reordered(rgb_order(channels), values))
        =~= values);
}

/// Reordering by the inverse RGBW channel order gives back the canonical
/// red, green, blue, white values.
pub proof fn lemma_rgbw_reorder_inverse<A>(channels: RgbwChannels, values: Seq<A>)
    requires
        values.len() == 4,
    ensures
        reordered(rgbw_order(rgbw_inverse(channels)), reordered(rgbw_order(channels), values))
            == values,
{
    assert(reordered(rgbw_order(rgbw_inverse(channels)), reordered(rgbw_order(channels), values))
        =~= values);
}

} // verus!
