//! # Blinksy
//!
//! Blinksy is an LED control library for 1D, 2D and 3D LED setups, inspired
//! by FastLED and WLED. This crate holds its verified core:
//!
//! - [`color`]: LED output colors, channel orders of LED chipsets, hue maps
//! - [`driver`]: clocked and clockless drivers and writers
//! - [`drivers`]: the APA102 and SK6812 protocols, with APA102's "high
//!   definition" brightness handling
//! - [`leds`]: the WS2812, SK6812 and LPD8806 chipsets and their frame sizes
//! - [`layout`]: the walks over lines and grids of LEDs
//! - [`markers`]: dimension and execution markers
//! - [`time`]: clock rates
//! - [`util`]: bit iteration over words
#![allow(non_snake_case)]

pub mod color;
pub mod driver;
pub mod drivers;
pub mod layout;
pub mod leds;
pub mod markers;
pub mod time;
pub mod util;
