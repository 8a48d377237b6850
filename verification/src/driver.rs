//! # Driver building blocks
//!
//! - [`clocked`]: for clocked (two-wire) protocols, like APA102
//! - [`clockless`]: for clockless (one-wire) protocols, like WS2812

pub mod clocked;
pub mod clockless;
