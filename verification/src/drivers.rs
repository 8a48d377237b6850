//! # LED chipset protocols
//!
//! - [`apa102`]: APA102 (DotStar) LEDs
//! - [`sk6812`]: SK6812 LEDs

pub mod apa102;
pub mod sk6812;
