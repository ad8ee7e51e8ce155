use vstd::prelude::*;

verus! {

/// An 8-bit-per-channel RGB colour.
#[derive(Copy, Clone, PartialEq, Eq, Structural, Debug)]
pub struct Colour {
    pub r: u8,
    pub g: u8,
    pub b: u8,
}

impl Colour {
    /// Creates a new colour with the given channels.
    pub fn new(r: u8, g: u8, b: u8) -> (c: Colour)
        ensures
            c.r == r,
            c.g == g,
            c.b == b,
    {
        Colour { r, g, b }
    }
}

} // verus!
