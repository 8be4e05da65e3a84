use vstd::prelude::*;

verus! {

/// An RGBA color, one byte per channel.
#[derive(Clone, Copy, Debug, PartialEq, Eq, Structural)]
pub struct Color {
    pub r: u8,
    pub g: u8,
    pub b: u8,
    pub a: u8,
}

impl Color {
    pub fn new(r: u8, g: u8, b: u8, a: u8) -> (c: Color)
        ensures
            c == (Color { r, g, b, a }),
    {
        Color { r, g, b, a }
    }
}

pub open spec fn spec_white() -> Color {
    Color { r: 255, g: 255, b: 255, a: 255 }
}

#[verifier::when_used_as_spec(spec_white)]
pub fn white() -> (c: Color)
    ensures
        c == spec_white(),
{
    Color { r: 255, g: 255, b: 255, a: 255 }
}

pub open spec fn spec_black() -> Color {
    Color { r: 0, g: 0, b: 0, a: 255 }
}

#[verifier::when_used_as_spec(spec_black)]
pub fn black() -> (c: Color)
    ensures
        c == spec_black(),
{
    Color { r: 0, g: 0, b: 0, a: 255 }
}

pub open spec fn spec_red() -> Color {
    Color { r: 255, g: 0, b: 0, a: 255 }
}

#[verifier::when_used_as_spec(spec_red)]
pub fn red() -> (c: Color)
    ensures
        c == spec_red(),
{
    Color { r: 255, g: 0, b: 0, a: 255 }
}

pub open spec fn spec_green() -> Color {
    Color { r: 0, g: 128, b: 0, a: 255 }
}

#[verifier::when_used_as_spec(spec_green)]
pub fn green() -> (c: Color)
    ensures
        c == spec_green(),
{
    Color { r: 0, g: 128, b: 0, a: 255 }
}

pub open spec fn spec_yellow() -> Color {
    Color { r: 255, g: 255, b: 0, a: 255 }
}

#[verifier::when_used_as_spec(spec_yellow)]
pub fn yellow() -> (c: Color)
    ensures
        c == spec_yellow(),
{
    Color { r: 255, g: 255, b: 0, a: 255 }
}

pub open spec fn spec_violet() -> Color {
    Color { r: 238, g: 130, b: 238, a: 255 }
}

#[verifier::when_used_as_spec(spec_violet)]
pub fn violet() -> (c: Color)
    ensures
        c == spec_violet(),
{
    Color { r: 238, g: 130, b: 238, a: 255 }
}

pub open spec fn spec_blueviolet() -> Color {
    Color { r: 138, g: 43, b: 226, a: 255 }
}

#[verifier::when_used_as_spec(spec_blueviolet)]
pub fn blueviolet() -> (c: Color)
    ensures
        c == spec_blueviolet(),
{
    Color { r: 138, g: 43, b: 226, a: 255 }
}

pub open spec fn spec_skyblue() -> Color {
    Color { r: 135, g: 206, b: 235, a: 255 }
}

#[verifier::when_used_as_spec(spec_skyblue)]
pub fn skyblue() -> (c: Color)
    ensures
        c == spec_skyblue(),
{
    Color { r: 135, g: 206, b: 235, a: 255 }
}

pub open spec fn spec_lightgreen() -> Color {
    Color { r: 144, g: 238, b: 144, a: 255 }
}

#[verifier::when_used_as_spec(spec_lightgreen)]
pub fn lightgreen() -> (c: Color)
    ensures
        c == spec_lightgreen(),
{
    Color { r: 144, g: 238, b: 144, a: 255 }
}

pub open spec fn spec_whitesmoke() -> Color {
    Color { r: 245, g: 245, b: 245, a: 255 }
}

#[verifier::when_used_as_spec(spec_whitesmoke)]
pub fn whitesmoke() -> (c: Color)
    ensures
        c == spec_whitesmoke(),
{
    Color { r: 245, g: 245, b: 245, a: 255 }
}

/// The color key that sprite images use for "no pixel here".
pub open spec fn spec_transparent_color() -> Color {
    Color { r: 152, g: 0, b: 136, a: 255 }
}

#[verifier::when_used_as_spec(spec_transparent_color)]
pub fn transparent_color() -> (c: Color)
    ensures
        c == spec_transparent_color(),
{
    Color { r: 152, g: 0, b: 136, a: 255 }
}

/// A sprite texel is skipped when fully transparent or equal to the color key.
pub open spec fn is_transparent(c: Color) -> bool {
    c.a == 0 || c == spec_transparent_color()
}

pub fn transparent(c: Color) -> (r: bool)
    ensures
        r == is_transparent(c),
{
    c.a == 0 || (c.r == 152 && c.g == 0 && c.b == 136 && c.a == 255)
}

} // verus!
