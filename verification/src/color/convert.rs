//! # Color conversion traits

use vstd::prelude::*;

verus! {

/// Trait for converting from another color type
pub trait FromColor<Color>: Sized {
    /// Converts from the source color type
    fn from_color(color: Color) -> Self;
}

/// Trait for converting to another color type
pub trait IntoColor<Color>: Sized {
    /// Converts into the target color type
    fn into_color(self) -> Color;
}

impl<T, U> IntoColor<U> for T where U: FromColor<T> {
    /// Converts by way of the target's [`FromColor`]: the result is what
    /// `U::from_color` gives for `self`.
    fn into_color(self) -> (converted: U)
        ensures
            call_ensures(<U as FromColor<T>>::from_color, (self,), converted),
    {
        U::from_color(self)
    }
}

impl<T> FromColor<T> for T {
    /// Every color converts to its own type unchanged.
    fn from_color(color: T) -> (same: T)
        ensures
            same == color,
    {
        color
    }
}

} // verus!
