//! colors and text modifiers of the interface
use vstd::prelude::*;

verus! {

/// a color of the terminal
#[derive(Debug, Clone, Copy, PartialEq, Eq, Structural)]
pub enum Color {
    Reset,
    Black,
    Red,
    Green,
    Yellow,
    Blue,
    Magenta,
    Cyan,
    Gray,
    DarkGray,
    LightRed,
    LightGreen,
    LightYellow,
    LightBlue,
    LightMagenta,
    LightCyan,
    White,
    Rgb(u8, u8, u8),
    Indexed(u8),
}

/// the modifiers of a piece of text, as a set of bits
#[derive(Debug, Clone, Copy, PartialEq, Eq, Structural)]
pub struct Modifier {
    pub bits: u16,
}

impl Modifier {
    /// no modifier
    pub fn empty() -> (r: Modifier)
        ensures
            r.bits == 0,
    {
        Modifier { bits: 0 }
    }

    /// bold text
    pub fn bold() -> (r: Modifier)
        ensures
            r.bits == 1,
    {
        Modifier { bits: 1 }
    }

    /// italic text
    pub fn italic() -> (r: Modifier)
        ensures
            r.bits == 4,
    {
        Modifier { bits: 4 }
    }

    /// underlined text
    pub fn underlined() -> (r: Modifier)
        ensures
            r.bits == 8,
    {
        Modifier { bits: 8 }
    }

    /// slowly blinking text
    pub fn slow_blink() -> (r: Modifier)
        ensures
            r.bits == 16,
    {
        Modifier { bits: 16 }
    }
}

} // verus!
