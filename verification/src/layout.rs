//! # LED layouts
//!
//! A layout maps each LED of a setup to a position in 1D, 2D or 3D space.
//! Lines and grids of LEDs are walked by the step iterators here, which
//! say how many steps along each axis the next LED is from the start.

pub mod iterators;

pub use self::iterators::{GridStepIterator, LineStepIterator, StepIterator};
