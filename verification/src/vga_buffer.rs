//! Values for the text console collaborator.
//!
//! The console itself — the lock-protected writer over the memory-mapped
//! text buffer — is hardware I/O and lives outside this library. What the
//! library supplies are the pure decisions behind it: the sixteen hardware
//! colors, the packing of a foreground/background pair into the one
//! attribute byte the text buffer expects, and the filtering of arbitrary
//! bytes down to what the buffer can display.

use vstd::prelude::*;

verus! {

/// The sixteen colors of the text-mode palette, in hardware order: each
/// variant's position is the 4-bit value the hardware assigns it.
#[allow(dead_code)]
#[derive(Clone, Copy, Debug, PartialEq, Eq, Structural)]
pub enum Color {
    Black,
    Blue,
    Green,
    Cyan,
    Red,
    Magenta,
    Brown,
    LightGray,
    DarkGray,
    LightBlue,
    LightGreen,
    LightCyan,
    LightRed,
    Pink,
    Yellow,
    White,
}

impl Color {
    /// The 4-bit hardware value of the color.
    pub open spec fn spec_code(self) -> u8 {
        match self {
            Color::Black => 0,
            Color::Blue => 1,
            Color::Green => 2,
            Color::Cyan => 3,
            Color::Red => 4,
            Color::Magenta => 5,
            Color::Brown => 6,
            Color::LightGray => 7,
            Color::DarkGray => 8,
            Color::LightBlue => 9,
            Color::LightGreen => 10,
            Color::LightCyan => 11,
            Color::LightRed => 12,
            Color::Pink => 13,
            Color::Yellow => 14,
            Color::White => 15,
        }
    }

    pub fn code(self) -> (r: u8)
        ensures
            r == self.spec_code(),
    {
        match self {
            Color::Black => 0,
            Color::Blue => 1,
            Color::Green => 2,
            Color::Cyan => 3,
            Color::Red => 4,
            Color::Magenta => 5,
            Color::Brown => 6,
            Color::LightGray => 7,
            Color::DarkGray => 8,
            Color::LightBlue => 9,
            Color::LightGreen => 10,
            Color::LightCyan => 11,
            Color::LightRed => 12,
            Color::Pink => 13,
            Color::Yellow => 14,
            Color::White => 15,
        }
    }
}

/// The attribute byte of one screen cell: background color in the high
/// nibble, foreground color in the low nibble.
#[derive(Clone, Copy, Debug, PartialEq, Eq, Structural)]
pub struct ColorCode(pub u8);

impl ColorCode {
    /// Packs a foreground and a background color into one attribute byte.
    pub fn new(foreground: Color, background: Color) -> (r: ColorCode)
        ensures
            r.0 == background.spec_code() * 16 + foreground.spec_code(),
    {
        let fg = foreground.code();
        let bg = background.code();
        proof {
            let fgg = fg;
            let bgg = bg;
            assert(fgg < 16 && bgg < 16 ==> (bgg << 4) | fgg == bgg * 16 + fgg) by (bit_vector);
        }
        ColorCode((bg << 4) | fg)
    }
}

/// What one byte of output looks like on screen: a printable code page 437
/// byte or a newline passes through, anything else is shown as the
/// replacement character `0xfe`.
pub open spec fn spec_displayable_byte(byte: u8) -> u8 {
    if byte == 0x0a || (0x20 <= byte && byte <= 0x7e) {
        byte
    } else {
        0xfe
    }
}

/// Filters one byte of console output down to what the text buffer can
/// display.
pub fn displayable_byte(byte: u8) -> (r: u8)
    ensures
        r == spec_displayable_byte(byte),
{
    if byte == 0x0a || (0x20 <= byte && byte <= 0x7e) {
        byte
    } else {
        0xfe
    }
}

} // verus!
