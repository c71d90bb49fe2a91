use vstd::prelude::*;

verus! {

/// An 8-bit display colour in red, green, blue order.
#[derive(Clone, Copy, Debug, PartialEq, Eq, Structural, Hash, Default)]
pub struct Srgb8 {
    pub red: u8,
    pub green: u8,
    pub blue: u8,
}

impl Srgb8 {
    pub fn new(red: u8, green: u8, blue: u8) -> (r: Srgb8)
        ensures
            r == (Srgb8 { red, green, blue }),
    {
        Srgb8 { red, green, blue }
    }
}

/// One of the two colour stops of a segment.
#[derive(Clone, Copy, Debug, PartialEq, Eq, Structural, Hash, Default)]
pub struct Wrap(pub Srgb8);

} // verus!
