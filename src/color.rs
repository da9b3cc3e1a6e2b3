use vstd::prelude::*;

verus! {

/// An RGB colour with one byte per channel.
#[derive(Clone, Copy, Debug, PartialEq, Eq, Structural)]
pub struct Color {
    pub r: u8,
    pub g: u8,
    pub b: u8,
}

impl Color {
    pub fn new(r: u8, g: u8, b: u8) -> (c: Color)
        ensures
            c == (Color { r, g, b }),
    {
        Color { r, g, b }
    }

    /// The three bytes of the colour, in the order red, green, blue.
    pub open spec fn bytes(self) -> Seq<u8> {
        seq![self.r, self.g, self.b]
    }
}

/// The surface description of a scene object: a flat colour, with no lighting.
#[derive(Clone, Copy, Debug, PartialEq, Eq, Structural)]
pub struct Material {
    pub base_color: Color,
}

impl Material {
    pub fn new(r: u8, g: u8, b: u8) -> (m: Material)
        ensures
            m.base_color == (Color { r, g, b }),
    {
        Material { base_color: Color::new(r, g, b) }
    }
}

} // verus!
