use vstd::prelude::*;

verus! {

/// A colour sample. Each channel counts steps of 1/256 of full intensity and
/// is not clamped: 256 and above is full, below 0 is none.
#[derive(Debug, Copy, Clone, PartialEq, Eq, Structural)]
pub struct Color {
    pub r: i32,
    pub g: i32,
    pub b: i32,
}

impl Color {
    /// Whether two samples agree in every channel.
    pub fn equals(&self, c: Color) -> (same: bool)
        ensures
            same == (*self == c),
    {
        self.r == c.r && self.g == c.g && self.b == c.b
    }
}

pub fn color(r: i32, g: i32, b: i32) -> (c: Color)
    ensures
        c == (Color { r, g, b }),
{
    Color { r, g, b }
}

} // verus!
