//! Display colours, kept as three 8-bit channels.

use vstd::prelude::*;

verus! {

/// A colour by its red, green and blue channels.
#[derive(Clone, Copy, Debug, PartialEq, Eq, Structural)]
pub struct Rgb {
    pub r: u8,
    pub g: u8,
    pub b: u8,
}

impl Rgb {
    /// The colour with the given channels.
    pub fn from_u8(r: u8, g: u8, b: u8) -> (c: Rgb)
        ensures
            c == (Rgb { r, g, b }),
    {
        Rgb { r, g, b }
    }
}

/// The named colours that tiles and items are drawn in.
impl Rgb {
    pub fn black() -> (c: Rgb)
        ensures
            c == (Rgb { r: 0, g: 0, b: 0 }),
    {
        Rgb { r: 0, g: 0, b: 0 }
    }

    pub fn red() -> (c: Rgb)
        ensures
            c == (Rgb { r: 255, g: 0, b: 0 }),
    {
        Rgb { r: 255, g: 0, b: 0 }
    }

    pub fn orange() -> (c: Rgb)
        ensures
            c == (Rgb { r: 255, g: 165, b: 0 }),
    {
        Rgb { r: 255, g: 165, b: 0 }
    }

    pub fn magenta() -> (c: Rgb)
        ensures
            c == (Rgb { r: 255, g: 0, b: 255 }),
    {
        Rgb { r: 255, g: 0, b: 255 }
    }

    pub fn light_blue() -> (c: Rgb)
        ensures
            c == (Rgb { r: 173, g: 216, b: 230 }),
    {
        Rgb { r: 173, g: 216, b: 230 }
    }
}

} // verus!
