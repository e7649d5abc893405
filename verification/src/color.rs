use vstd::prelude::*;

verus! {

/// One LED's colour: red, green and blue intensities.
#[derive(Clone, Copy, Debug, PartialEq, Eq, Structural)]
pub struct Color {
    pub r: u8,
    pub g: u8,
    pub b: u8,
}

impl Color {
    pub fn new(r: u8, g: u8, b: u8) -> (c: Color)
        ensures
            c == (Color { r, g, b }),
    {
        Color { r, g, b }
    }
}

/// The colour shown for an idle machine.
pub open spec fn spec_white_color() -> Color {
    Color { r: 127, g: 127, b: 127 }
}

/// The colour shown for a saturated machine.
pub open spec fn spec_red_color() -> Color {
    Color { r: 127, g: 0, b: 0 }
}

#[verifier::when_used_as_spec(spec_white_color)]
pub fn white_color() -> (c: Color)
    ensures
        c == spec_white_color(),
{
    Color { r: 127, g: 127, b: 127 }
}

#[verifier::when_used_as_spec(spec_red_color)]
pub fn red_color() -> (c: Color)
    ensures
        c == spec_red_color(),
{
    Color { r: 127, g: 0, b: 0 }
}

} // verus!
