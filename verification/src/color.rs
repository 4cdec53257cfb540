//! The color value the helper reads out of a screen pixel, and its hex
//! rendering.

use vstd::prelude::*;
use crate::text::push_char;

verus! {

/// One RGBA color, eight bits per channel.
#[derive(Clone, Copy, PartialEq, Eq, Structural, Debug)]
pub struct Color {
    pub r: u8,
    pub g: u8,
    pub b: u8,
    pub a: u8,
}

/// The uppercase hex digit for a value below sixteen.
pub open spec fn spec_hex_digit(n: u8) -> char {
    if n == 0 {
        '0'
    } else if n == 1 {
        '1'
    } else if n == 2 {
        '2'
    } else if n == 3 {
        '3'
    } else if n == 4 {
        '4'
    } else if n == 5 {
        '5'
    } else if n == 6 {
        '6'
    } else if n == 7 {
        '7'
    } else if n == 8 {
        '8'
    } else if n == 9 {
        '9'
    } else if n == 10 {
        'A'
    } else if n == 11 {
        'B'
    } else if n == 12 {
        'C'
    } else if n == 13 {
        'D'
    } else if n == 14 {
        'E'
    } else {
        'F'
    }
}

pub fn hex_digit(n: u8) -> (c: char)
    requires
        n < 16,
    ensures
        c == spec_hex_digit(n),
{
    if n == 0 {
        '0'
    } else if n == 1 {
        '1'
    } else if n == 2 {
        '2'
    } else if n == 3 {
        '3'
    } else if n == 4 {
        '4'
    } else if n == 5 {
        '5'
    } else if n == 6 {
        '6'
    } else if n == 7 {
        '7'
    } else if n == 8 {
        '8'
    } else if n == 9 {
        '9'
    } else if n == 10 {
        'A'
    } else if n == 11 {
        'B'
    } else if n == 12 {
        'C'
    } else if n == 13 {
        'D'
    } else if n == 14 {
        'E'
    } else {
        'F'
    }
}

/// The two uppercase hex digits of one byte.
pub open spec fn spec_hex_byte(n: u8) -> Seq<char> {
    seq![spec_hex_digit(n / 16), spec_hex_digit(n % 16)]
}

/// The `#RRGGBB` rendering of a color; the alpha channel is not shown.
pub open spec fn spec_color_hex(c: Color) -> Seq<char> {
    seq!['#'] + spec_hex_byte(c.r) + spec_hex_byte(c.g) + spec_hex_byte(c.b)
}

impl Color {
    /// A color from one RGBA pixel, channel order red, green, blue, alpha.
    pub fn from_rgba(rgba: [u8; 4]) -> (c: Color)
        ensures
            c == (Color { r: rgba[0], g: rgba[1], b: rgba[2], a: rgba[3] }),
    {
        Color { r: rgba[0], g: rgba[1], b: rgba[2], a: rgba[3] }
    }

    /// Renders the color as `#RRGGBB` with uppercase hex digits.
    pub fn to_hex_string(&self) -> (s: String)
        ensures
            s@ == spec_color_hex(*self),
    {
        let mut s = String::new();
        push_char(&mut s, '#');
        push_char(&mut s, hex_digit(self.r / 16));
        push_char(&mut s, hex_digit(self.r % 16));
        push_char(&mut s, hex_digit(self.g / 16));
        push_char(&mut s, hex_digit(self.g % 16));
        push_char(&mut s, hex_digit(self.b / 16));
        push_char(&mut s, hex_digit(self.b % 16));
        proof {
            assert(s@ =~= spec_color_hex(*self));
        }
        s
    }
}

} // verus!
