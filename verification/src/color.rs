//! Colors: the charting side's color with a fractional opacity, and the
//! engine's color with four 8-bit channels.

use vstd::prelude::*;
use crate::alpha::{alpha_channel, alpha_to_channel};

verus! {

/// A color as the charting side gives it: red, green and blue as 8-bit
/// channels, and an opacity between 0 and 1.
#[derive(Debug, Clone, Copy, PartialEq, Eq)]
pub struct Color {
    /// Red, green and blue.
    pub rgb: (u8, u8, u8),
    /// The opacity, a double-precision number, as its IEEE-754 bit pattern.
    pub alpha_bits: u64,
}

/// A color as the engine takes it: four 8-bit channels.
#[derive(Debug, Clone, Copy, PartialEq, Eq, Structural)]
pub struct Argb {
    pub alpha: u8,
    pub red: u8,
    pub green: u8,
    pub blue: u8,
}

impl Color {
    /// The engine's color for this one: the same red, green and blue, and the
    /// opacity scaled to a byte.
    pub open spec fn argb(self) -> Argb {
        Argb {
            alpha: alpha_channel(self.alpha_bits),
            red: self.rgb.0,
            green: self.rgb.1,
            blue: self.rgb.2,
        }
    }

    /// Converts the color to the engine's four channels.
    pub fn to_argb(&self) -> (c: Argb)
        ensures
            c == self.argb(),
    {
        Argb {
            alpha: alpha_to_channel(self.alpha_bits),
            red: self.rgb.0,
            green: self.rgb.1,
            blue: self.rgb.2,
        }
    }
}

} // verus!
