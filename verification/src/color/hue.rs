//! # Hue maps
//!
//! A hue map defines how a hue (0.0 to 1.0) is mapped to a color. These are
//! the hue maps of FastLED's HSV colors.

use vstd::prelude::*;

verus! {

/// Spectrum hue mapping as used in FastLED's `hsv2rgb_spectrum`.
///
/// This hue mapping produces a mathematically straight spectrum with
/// equal distribution of hues: wide red, green and blue bands, with a
/// narrow and muddy yellow band.
#[derive(Debug, Clone, Copy, PartialEq, Eq, Structural)]
pub struct HueSpectrum;

/// Rainbow hue mapping as used in FastLED's `hsv2rgb_rainbow`.
///
/// This hue mapping produces a visually balanced rainbow effect with
/// enhanced yellow and deep purple.
#[derive(Debug, Clone, Copy, PartialEq, Eq, Structural)]
pub struct HueRainbow;

/// Spectrum hue mapping for HSV colors, as used in FastLED's
/// `hsv2rgb_spectrum`.
#[derive(Debug, Clone, Copy, PartialEq, Eq, Structural)]
pub struct HsvHueSpectrum;

/// Rainbow hue mapping for HSV colors, as used in FastLED's
/// `hsv2rgb_rainbow`.
#[derive(Debug, Clone, Copy, PartialEq, Eq, Structural)]
pub struct HsvHueRainbow;

} // verus!
