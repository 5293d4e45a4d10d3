use vstd::prelude::*;

use crate::geometry::Point;

verus! {

pub const MAP_Z_ORDER: usize = 0;

pub const CHAR_Z_ORDER: usize = 5000;

pub const INFO_Z_ORDER: usize = 0;

/// Width and height, in cells, of the main console.
pub const MAIN_CONSOLE_WIDTH: i32 = 100;

pub const MAIN_CONSOLE_HEIGHT: i32 = 50;

/// Width and height, in cells, of the additional text console.
pub const ADDITIONAL_CONSOLE_WIDTH: i32 = 200;

pub const ADDITIONAL_CONSOLE_HEIGHT: i32 = 50;

/// The consoles the terminal is built from, in layer order.
#[derive(Clone, Copy, Debug, PartialEq, Eq, Structural)]
pub enum Consoles {
    Main,
    AdditionalVga,
}

impl Consoles {
    /// Layer index of the console.
    pub open spec fn spec_num(self) -> usize {
        match self {
            Consoles::Main => 0,
            Consoles::AdditionalVga => 1,
        }
    }

    pub fn num(&self) -> (r: usize)
        ensures
            r == self.spec_num(),
    {
        match *self {
            Consoles::Main => 0,
            Consoles::AdditionalVga => 1,
        }
    }

    pub fn dimensions(&self) -> (r: Point)
        ensures
            *self == Consoles::Main ==> r == (Point { x: MAIN_CONSOLE_WIDTH, y: MAIN_CONSOLE_HEIGHT }),
            *self == Consoles::AdditionalVga ==> r == (Point {
                x: ADDITIONAL_CONSOLE_WIDTH,
                y: ADDITIONAL_CONSOLE_HEIGHT,
            }),
    {
        match *self {
            Consoles::Main => Point { x: MAIN_CONSOLE_WIDTH, y: MAIN_CONSOLE_HEIGHT },
            Consoles::AdditionalVga => Point { x: ADDITIONAL_CONSOLE_WIDTH, y: ADDITIONAL_CONSOLE_HEIGHT },
        }
    }

    /// File name of the font the console is drawn with.
    pub fn font(&self) -> (r: &'static str)
        ensures
            *self == Consoles::Main ==> r@ == "unicode_16x16.png"@,
            *self == Consoles::AdditionalVga ==> r@ == "vga8x16.png"@,
    {
        match *self {
            Consoles::Main => "unicode_16x16.png",
            Consoles::AdditionalVga => "vga8x16.png",
        }
    }

    /// Width and height, in pixels, of one glyph of the console's font.
    pub fn font_dimensions(&self) -> (r: (usize, usize))
        ensures
            *self == Consoles::Main ==> r == (16usize, 16usize),
            *self == Consoles::AdditionalVga ==> r == (8usize, 16usize),
    {
        match *self {
            Consoles::Main => (16, 16),
            Consoles::AdditionalVga => (8, 16),
        }
    }
}

} // verus!
