//! The colours of the program, by their numbers.

use vstd::prelude::*;

verus! {

/// A colour by its red, green and blue parts.
#[derive(Debug, Clone, Copy, PartialEq, Eq, Structural)]
pub struct Rgb(pub u8, pub u8, pub u8);

/// A colour by its number among the 256 colours of a terminal.
#[derive(Debug, Clone, Copy, PartialEq, Eq, Structural)]
pub struct AnsiValue(pub u8);

/// The three colours that mark what is fine, what is wrong and what is in
/// between.
pub struct Palette<C> {
    pub green: C,
    pub red: C,
    pub orange: C,
}

impl Palette<Rgb> {
    /// The palette in true colours.
    pub fn new() -> (palette: Palette<Rgb>)
        ensures
            palette.green == Rgb(129, 199, 132),
            palette.red == Rgb(229, 115, 115),
            palette.orange == Rgb(255, 183, 77),
    {
        Palette { green: Rgb(129, 199, 132), red: Rgb(229, 115, 115), orange: Rgb(255, 183, 77) }
    }
}

impl Palette<AnsiValue> {
    /// The palette in the colours every terminal has.
    pub fn new() -> (palette: Palette<AnsiValue>)
        ensures
            palette.green == AnsiValue(2),
            palette.red == AnsiValue(1),
            palette.orange == AnsiValue(208),
    {
        Palette { green: AnsiValue(2), red: AnsiValue(1), orange: AnsiValue(208) }
    }
}

} // verus!
