use vstd::prelude::*;

verus! {

/// Width of one grid cell, in pixels. Grid sizing and painting both read it.
pub const CELL_WIDTH: u16 = 10;

/// Height of one grid cell, in pixels. Grid sizing and painting both read it.
pub const CELL_HEIGHT: u16 = 20;

/// The character that marks a blank cell: only its background is painted.
pub const EMPTY_CHARACTER: char = '\0';

/// An RGB color with one byte per channel.
#[derive(Copy, Clone, Debug, PartialEq, Eq, Structural)]
pub struct WaferColor {
    pub r: u8,
    pub g: u8,
    pub b: u8,
}

impl WaferColor {
    pub fn new(r: u8, g: u8, b: u8) -> (c: Self)
        ensures
            c == (WaferColor { r, g, b }),
    {
        Self { r, g, b }
    }
}

/// The painted state of one grid position.
#[derive(Copy, Clone, Debug, PartialEq, Eq, Structural)]
pub struct Cell {
    pub character: char,
    pub foreground: WaferColor,
    pub background: WaferColor,
}

/// White, the foreground of a fresh cell.
pub open spec fn white() -> WaferColor {
    WaferColor { r: 255, g: 255, b: 255 }
}

/// Black, the background of a fresh cell and the color the surface is cleared to.
pub open spec fn black() -> WaferColor {
    WaferColor { r: 0, g: 0, b: 0 }
}

/// A blank cell: no character, white on black.
pub open spec fn default_cell() -> Cell {
    Cell { character: EMPTY_CHARACTER, foreground: white(), background: black() }
}

impl Cell {
    pub open spec fn is_empty(&self) -> bool {
        self.character == EMPTY_CHARACTER
    }

    pub fn new() -> (c: Self)
        ensures
            c == default_cell(),
    {
        Self {
            character: EMPTY_CHARACTER,
            foreground: WaferColor::new(255, 255, 255),
            background: WaferColor::new(0, 0, 0),
        }
    }
}

} // verus!
