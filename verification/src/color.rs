//! # Color types
//!
//! - Conversion traits: [`FromColor`], [`IntoColor`]
//! - Hue maps: [`HueRainbow`], [`HueSpectrum`], [`HsvHueRainbow`], [`HsvHueSpectrum`]
//! - LED output: [`LedColor`] ([`LedRgb`], [`LedRgbw`]), ready for LED hardware
//! - Channel formats of LED chipsets: [`LedChannels`] ([`RgbChannels`], [`RgbwChannels`])

pub mod convert;
pub mod hue;
pub mod led;

pub use self::convert::{FromColor, IntoColor};
pub use self::hue::{HsvHueRainbow, HsvHueSpectrum, HueRainbow, HueSpectrum};
pub use self::led::{LedChannels, LedColor, LedColorIntoIter, LedRgb, LedRgbw, RgbChannels, RgbwChannels};
