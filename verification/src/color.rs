//! Colours with four 8-bit channels.
use vstd::prelude::*;

verus! {

/// A colour: red, green, blue and alpha, each from 0 to 255.
#[derive(Clone, Copy, Debug, PartialEq, Eq, Structural)]
pub struct Color {
    pub r: u8,
    pub g: u8,
    pub b: u8,
    pub a: u8,
}

impl Color {
    /// The colour with the given red, green and blue and full opacity.
    pub open spec fn opaque_spec(r: u8, g: u8, b: u8) -> Color {
        Color { r, g, b, a: 255 }
    }

    /// Opaque white, the colour without saturation.
    pub open spec fn white() -> Color {
        Color { r: 255, g: 255, b: 255, a: 255 }
    }

    /// Builds the colour with the given red, green and blue and full opacity.
    #[verifier::when_used_as_spec(opaque_spec)]
    pub fn opaque(r: u8, g: u8, b: u8) -> (c: Color)
        ensures
            c == Color::opaque_spec(r, g, b),
    {
        Color { r, g, b, a: 255 }
    }
}

} // verus!
