//! The sixteen-color text-mode palette and the packed attribute byte.

use vstd::prelude::*;

verus! {

/// One of the sixteen fixed colors of the text-mode palette. Each color
/// has a 4-bit numeric code, given by [`color_code`].
#[derive(Copy, Clone, PartialEq, Eq, Structural, Debug)]
pub enum Color {
    Black,
    Blue,
    Green,
    Cyan,
    Red,
    Magenta,
    Brown,
    LightGray,
    DarkGray,
    LightBlue,
    LightGreen,
    LightCyan,
    LightRed,
    Pink,
    Yellow,
    White,
}

/// The 4-bit numeric code of a color, in the range 0..=15.
pub open spec fn color_code(c: Color) -> u8 {
    match c {
        Color::Black => 0,
        Color::Blue => 1,
        Color::Green => 2,
        Color::Cyan => 3,
        Color::Red => 4,
        Color::Magenta => 5,
        Color::Brown => 6,
        Color::LightGray => 7,
        Color::DarkGray => 8,
        Color::LightBlue => 9,
        Color::LightGreen => 10,
        Color::LightCyan => 11,
        Color::LightRed => 12,
        Color::Pink => 13,
        Color::Yellow => 14,
        Color::White => 15,
    }
}

/// Every color code fits in the low nibble of a byte.
pub proof fn lemma_color_code_bound(c: Color)
    ensures
        color_code(c) <= 15,
{
}

impl Color {
    /// Returns this color's 4-bit numeric code.
    pub fn code(self) -> (r: u8)
        ensures
            r == color_code(self),
    {
        match self {
            Color::Black => 0,
            Color::Blue => 1,
            Color::Green => 2,
            Color::Cyan => 3,
            Color::Red => 4,
            Color::Magenta => 5,
            Color::Brown => 6,
            Color::LightGray => 7,
            Color::DarkGray => 8,
            Color::LightBlue => 9,
            Color::LightGreen => 10,
            Color::LightCyan => 11,
            Color::LightRed => 12,
            Color::Pink => 13,
            Color::Yellow => 14,
            Color::White => 15,
        }
    }
}

/// A packed color attribute byte: the background code in the high
/// nibble, the foreground code in the low nibble. The only producer is
/// [`ColorCode::new`], so both nibbles are always valid color codes.
#[derive(Copy, Clone, PartialEq, Eq, Structural, Debug)]
pub struct ColorCode(pub u8);

/// The attribute byte packed from a (foreground, background) pair.
pub open spec fn packed_attribute(foreground: Color, background: Color) -> u8 {
    (color_code(background) << 4) | color_code(foreground)
}

impl ColorCode {
    /// Packs a foreground and a background color into one attribute
    /// byte: the low nibble is exactly the foreground's code and the
    /// high nibble exactly the background's code.
    pub fn new(foreground: Color, background: Color) -> (r: ColorCode)
        ensures
            r.0 == packed_attribute(foreground, background),
            r.0 & 0x0f == color_code(foreground),
            r.0 >> 4 == color_code(background),
    {
        let fg = foreground.code();
        let bg = background.code();
        proof {
            lemma_color_code_bound(foreground);
            lemma_color_code_bound(background);
            assert(((bg << 4) | fg) & 0x0f == fg && ((bg << 4) | fg) >> 4 == bg) by (bit_vector)
                requires
                    fg <= 15,
                    bg <= 15,
            ;
        }
        ColorCode((bg << 4) | fg)
    }
}

} // verus!
