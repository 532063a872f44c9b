//! Points, sizes and colors, and what is drawn with them.

pub mod display;

use vstd::prelude::*;

verus! {

/// A position on a display, in pixels from the upper left corner.
#[derive(Clone, Copy, Debug, PartialEq, Eq, Structural)]
pub struct Point {
    pub x: isize,
    pub y: isize,
}

/// The size of an area of a display, in pixels.
#[derive(Clone, Copy, Debug, PartialEq, Eq, Structural)]
pub struct Size {
    pub width: usize,
    pub height: usize,
}

/// A color: alpha, red, green and blue, eight bits each, from the top.
#[derive(Clone, Copy, Debug, PartialEq, Eq, Structural)]
pub struct Color {
    pub data: u32,
}

/// The data of the color of that name in the palette of the console.
pub const BLACK: u32 = 0xFF00_0000;

/// The data of the color of that name in the palette of the console.
pub const RED: u32 = 0xFFC2_3621;

/// The data of the color of that name in the palette of the console.
pub const GREEN: u32 = 0xFF25_BC24;

/// The data of the color of that name in the palette of the console.
pub const YELLOW: u32 = 0xFFAD_AD27;

/// The data of the color of that name in the palette of the console.
pub const BLUE: u32 = 0xFF49_2EE1;

/// The data of the color of that name in the palette of the console.
pub const MAGENTA: u32 = 0xFFD3_38D3;

/// The data of the color of that name in the palette of the console.
pub const CYAN: u32 = 0xFF33_BBC8;

/// The data of the color of that name in the palette of the console.
pub const WHITE: u32 = 0xFFCB_CCCD;

impl Point {
    /// The point at `x` and `y`.
    pub fn new(x: isize, y: isize) -> (p: Point)
        ensures
            p == (Point { x, y }),
    {
        Point { x, y }
    }
}

impl Size {
    /// The size of `width` by `height`.
    pub fn new(width: usize, height: usize) -> (s: Size)
        ensures
            s == (Size { width, height }),
    {
        Size { width, height }
    }
}

impl Color {
    /// The opaque color of the three parts.
    pub open spec fn spec_new(r: u8, g: u8, b: u8) -> Color {
        Color { data: (0xFF00_0000 + r as int * 0x1_0000 + g as int * 0x100 + b as int) as u32 }
    }

    /// The opaque color of the three parts.
    pub fn new(r: u8, g: u8, b: u8) -> (c: Color)
        ensures
            c == Color::spec_new(r, g, b),
    {
        Color { data: 0xFF00_0000 + (r as u32) * 0x1_0000 + (g as u32) * 0x100 + (b as u32) }
    }
}

} // verus!
