//! Utilities: bit iteration over words.

pub mod bits;
