//! The display: a frame of pixels of 32 bits in memory, one behind the
//! other, row by row. The display says which memory is to be set and
//! copied; the caller does it.

use vstd::prelude::*;
use crate::graphics::{Color, Point, Size};

verus! {

/// The bytes of a pixel.
pub const PIXEL_SIZE: usize = 4;

/// The rows of a character of the font.
pub const FONT_ROWS: usize = 16;

/// The columns of a character of the font.
pub const FONT_COLUMNS: usize = 8;

/// The bytes of a font: 16 rows for each of 256 characters.
pub const FONT_SIZE: usize = 4096;

/// What the firmware says of the video mode.
#[derive(Clone, Copy, Debug, PartialEq, Eq, Structural)]
pub struct VBEModeInfo {
    pub attributes: u16,
    pub win_a: u8,
    pub win_b: u8,
    pub granularity: u16,
    pub winsize: u16,
    pub segment_a: u16,
    pub segment_b: u16,
    pub winfuncptr: u32,
    pub bytesperscanline: u16,
    pub xresolution: u16,
    pub yresolution: u16,
    pub xcharsize: u8,
    pub ycharsize: u8,
    pub numberofplanes: u8,
    pub bitsperpixel: u8,
    pub numberofbanks: u8,
    pub memorymodel: u8,
    pub banksize: u8,
    pub numberofimagepages: u8,
    pub unused: u8,
    pub redmasksize: u8,
    pub redfieldposition: u8,
    pub greenmasksize: u8,
    pub greenfieldposition: u8,
    pub bluemasksize: u8,
    pub bluefieldposition: u8,
    pub rsvdmasksize: u8,
    pub rsvdfieldposition: u8,
    pub directcolormodeinfo: u8,
    pub physbaseptr: u32,
    pub offscreenmemoryoffset: u32,
    pub offscreenmemsize: u16,
}

/// A display.
#[derive(Clone, Copy, Debug, PartialEq, Eq, Structural)]
pub struct Display {
    /// The address of the frame that is drawn to.
    pub offscreen: usize,
    /// The address of the frame that is shown.
    pub onscreen: usize,
    /// The bytes of a frame.
    pub size: usize,
    /// The bytes of a row.
    pub bytesperrow: usize,
    /// The pixels of a row.
    pub width: usize,
    /// The rows.
    pub height: usize,
    /// The display is the screen: its shown frame is the memory of the
    /// video card.
    pub root: bool,
}

/// Work on the memory of a frame.
#[derive(Clone, Copy, Debug, PartialEq, Eq, Structural)]
pub enum Run {
    /// Set `len` bytes at `dst`, pixel by pixel, to `data`.
    Fill { data: u32, dst: usize, len: usize },
    /// Copy `len` bytes from `src` to `dst`.
    Copy { src: usize, dst: usize, len: usize },
    /// Blend `len` bytes at `dst`, pixel by pixel: what is there, weighted
    /// with `n_alpha`, plus `premul`.
    Blend { premul: u32, n_alpha: u32, dst: usize, len: usize },
}

/// `v`, but at least `low` and at most `high`.
pub open spec fn spec_clamp(v: int, low: int, high: int) -> int {
    if v < low {
        low
    } else if v > high {
        high
    } else {
        v
    }
}

/// The smaller of two numbers.
pub open spec fn spec_min(a: int, b: int) -> int {
    if a < b {
        a
    } else {
        b
    }
}

/// The alpha of a color.
pub open spec fn spec_alpha(data: u32) -> u32 {
    (data & 0xFF00_0000) >> 24
}

/// A color weighted with `alpha`, part by part.
pub open spec fn spec_weighted(data: u32, alpha: u32) -> u32 {
    let r = (((data >> 16) & 0xFF) * alpha) as u32 >> 8;
    let g = (((data >> 8) & 0xFF) * alpha) as u32 >> 8;
    let b = ((data & 0xFF) * alpha) as u32 >> 8;
    (r << 16) | (g << 8) | b
}

/// The bit of column `col` in the row `row_data` of a character.
pub open spec fn spec_font_bit(row_data: u8, col: int) -> bool {
    (row_data >> ((7 - col) as u8)) & 1 > 0
}

impl Display {
    /// The frames lie inside the address space, a row holds its pixels and
    /// a frame its rows.
    pub open spec fn wf(&self) -> bool {
        &&& self.offscreen + self.size <= usize::MAX
        &&& self.onscreen + self.size <= usize::MAX
        &&& self.width * PIXEL_SIZE <= self.bytesperrow
        &&& self.height * self.bytesperrow <= self.size
        &&& self.size <= isize::MAX
    }

    /// Tells whether the display is well formed.
    pub fn check(&self) -> (r: bool)
        ensures
            r == self.wf(),
    {
        if self.size > isize::MAX as usize || self.offscreen > usize::MAX - self.size
            || self.onscreen > usize::MAX - self.size || self.width > self.bytesperrow
            / PIXEL_SIZE {
            return false;
        }
        if self.bytesperrow == 0 {
            assert(self.height * self.bytesperrow == 0) by (nonlinear_arith)
                requires
                    self.bytesperrow == 0,
            ;
            return true;
        }
        let rows = self.size / self.bytesperrow;
        proof {
            let (h, b, z) = (self.height as int, self.bytesperrow as int, self.size as int);
            assert(h <= z / b <==> h * b <= z) by (nonlinear_arith)
                requires
                    b > 0,
                    h >= 0,
                    z >= 0,
            ;
        }
        self.height <= rows
    }

    /// The screen for the video mode `mode_info`, drawn to in the frame at
    /// `offscreen`, and the work that clears and shows it.
    pub fn root(mode_info: &VBEModeInfo, offscreen: usize) -> (r: (Display, Vec<Run>))
        ensures
            r.0 == (Display {
                offscreen,
                onscreen: mode_info.physbaseptr as usize,
                size: (mode_info.bytesperscanline * mode_info.yresolution) as usize,
                bytesperrow: mode_info.bytesperscanline as usize,
                width: mode_info.xresolution as usize,
                height: mode_info.yresolution as usize,
                root: true,
            }),
            r.1@ == seq![
                Run::Fill { data: 0xFF00_0000, dst: offscreen, len: r.0.size },
                Run::Copy { src: offscreen, dst: r.0.onscreen, len: r.0.size },
            ],
    {
        assert(mode_info.bytesperscanline * mode_info.yresolution <= 0xFFFF * 0xFFFF)
            by (nonlinear_arith)
            requires
                mode_info.bytesperscanline <= 0xFFFF,
                mode_info.yresolution <= 0xFFFF,
        ;
        let size: usize = ((mode_info.bytesperscanline as u32) * (mode_info.yresolution as u32))
            as usize;
        let display = Display {
            offscreen,
            onscreen: mode_info.physbaseptr as usize,
            size,
            bytesperrow: mode_info.bytesperscanline as usize,
            width: mode_info.xresolution as usize,
            height: mode_info.yresolution as usize,
            root: true,
        };
        let mut work: Vec<Run> = Vec::new();
        work.push(Run::Fill { data: 0xFF00_0000, dst: offscreen, len: size });
        work.push(Run::Copy { src: offscreen, dst: display.onscreen, len: size });
        (display, work)
    }

    /// A display of `width` by `height` pixels with its frames at
    /// `offscreen` and `onscreen`, and the work that clears it. After the
    /// first flip the frame at `offscreen` is the one that is shown.
    pub fn new(width: usize, height: usize, offscreen: usize, onscreen: usize) -> (r: (
        Display,
        Vec<Run>,
    ))
        requires
            width * PIXEL_SIZE <= usize::MAX,
            width * PIXEL_SIZE * height <= usize::MAX,
        ensures
            r.0 == (Display {
                offscreen: onscreen,
                onscreen: offscreen,
                size: (width * PIXEL_SIZE * height) as usize,
                bytesperrow: (width * PIXEL_SIZE) as usize,
                width,
                height,
                root: false,
            }),
            r.1@ == seq![Run::Fill { data: 0xFF00_0000, dst: offscreen, len: r.0.size }],
    {
        let bytesperrow: usize = width * PIXEL_SIZE;
        let memory_size: usize = bytesperrow * height;
        let mut work: Vec<Run> = Vec::new();
        work.push(Run::Fill { data: 0xFF00_0000, dst: offscreen, len: memory_size });
        // The first flip of a display that is not the screen swaps the
        // frames.
        (
            Display {
                offscreen: onscreen,
                onscreen: offscreen,
                size: memory_size,
                bytesperrow,
                width,
                height,
                root: false,
            },
            work,
        )
    }

    /// The work that fills the display with `color`.
    pub fn set(&self, color: Color) -> (run: Run)
        ensures
            run == (Run::Fill { data: color.data, dst: self.offscreen, len: self.size }),
    {
        Run::Fill { data: color.data, dst: self.offscreen, len: self.size }
    }

    /// The work that moves the content `rows` rows up and clears what
    /// comes free below. Nothing for no rows, and for as many rows as the
    /// display has or more.
    pub fn scroll(&self, rows: usize) -> (work: Vec<Run>)
        requires
            self.wf(),
        ensures
            0 < rows < self.height ==> work@ == seq![
                Run::Copy {
                    src: (self.offscreen + rows * self.bytesperrow) as usize,
                    dst: self.offscreen,
                    len: (self.size - rows * self.bytesperrow) as usize,
                },
                Run::Fill {
                    data: 0,
                    dst: (self.offscreen + self.size - rows * self.bytesperrow) as usize,
                    len: (rows * self.bytesperrow) as usize,
                },
            ],
            !(0 < rows < self.height) ==> work@.len() == 0,
    {
        let mut work: Vec<Run> = Vec::new();
        if rows > 0 && rows < self.height {
            assert(rows * self.bytesperrow <= self.height * self.bytesperrow) by (nonlinear_arith)
                requires
                    rows < self.height,
            ;
            let offset: usize = rows * self.bytesperrow;
            work.push(
                Run::Copy {
                    src: self.offscreen + offset,
                    dst: self.offscreen,
                    len: self.size - offset,
                },
            );
            work.push(Run::Fill { data: 0, dst: self.offscreen + self.size - offset, len: offset });
        }
        work
    }

    /// Shows what was drawn: on the screen by the copy that is returned, on
    /// any other display by the exchange of its two frames.
    pub fn flip(&mut self) -> (run: Option<Run>)
        ensures
            old(self).root ==> *final(self) == *old(self) && run == Some(
                Run::Copy {
                    src: old(self).offscreen,
                    dst: old(self).onscreen,
                    len: old(self).size,
                },
            ),
            !old(self).root ==> run is None && *final(self) == (Display {
                offscreen: old(self).onscreen,
                onscreen: old(self).offscreen,
                ..*old(self)
            }),
    {
        if self.root {
            Some(Run::Copy { src: self.offscreen, dst: self.onscreen, len: self.size })
        } else {
            let frame = self.offscreen;
            self.offscreen = self.onscreen;
            self.onscreen = frame;
            None
        }
    }

    /// The address of the pixel at `point`, where it lies on the display.
    pub open spec fn spec_pixel(&self, point: Point) -> Option<usize> {
        if 0 <= point.x < self.width && 0 <= point.y < self.height {
            Some((self.offscreen + point.y * self.bytesperrow + point.x * PIXEL_SIZE) as usize)
        } else {
            None
        }
    }

    /// The address of the pixel at `point`, which is to be set to `color`;
    /// none where the point lies outside the display.
    pub fn pixel(&self, point: Point, color: Color) -> (r: Option<(usize, u32)>)
        requires
            self.wf(),
        ensures
            r == match self.spec_pixel(point) {
                Some(address) => Some((address, color.data)),
                None => None,
            },
    {
        if point.x >= 0 && (point.x as usize) < self.width && point.y >= 0 && (point.y as usize)
            < self.height {
            let x = point.x as usize;
            let y = point.y as usize;
            assert(y * self.bytesperrow + x * PIXEL_SIZE + PIXEL_SIZE <= self.height
                * self.bytesperrow) by (nonlinear_arith)
                requires
                    y < self.height,
                    x < self.width,
                    self.width * PIXEL_SIZE <= self.bytesperrow,
            ;
            Some((self.offscreen + y * self.bytesperrow + x * PIXEL_SIZE, color.data))
        } else {
            None
        }
    }

    /// The pixels of the first `n` bits of the character `character` of
    /// `font`, drawn at `point`: bit `k` is the one of row `k / 8` and
    /// column `k % 8`.
    pub open spec fn spec_char(&self, font: Seq<u8>, point: Point, character: u8, n: int) -> Seq<
        usize,
    >
        decreases n,
    {
        if n <= 0 {
            Seq::empty()
        } else {
            let rest = self.spec_char(font, point, character, n - 1);
            let row = (n - 1) / (FONT_COLUMNS as int);
            let col = (n - 1) % (FONT_COLUMNS as int);
            let at = Point { x: (point.x + col) as isize, y: (point.y + row) as isize };
            if spec_font_bit(font[FONT_ROWS * character + row], col) && self.spec_pixel(at)
                is Some {
                rest.push(self.spec_pixel(at)->0)
            } else {
                rest
            }
        }
    }

    /// The addresses of the pixels that show the character `character` of
    /// `font` at `point`, row by row; each is to be set to `color`.
    pub fn char(&self, font: &[u8], point: Point, character: u8, color: Color) -> (pixels: Vec<
        usize,
    >)
        requires
            self.wf(),
            font@.len() >= FONT_SIZE,
            -isize::MAX / 2 <= point.x <= isize::MAX / 2,
            -isize::MAX / 2 <= point.y <= isize::MAX / 2,
        ensures
            pixels@ == self.spec_char(
                font@,
                point,
                character,
                FONT_ROWS as int * FONT_COLUMNS as int,
            ),
    {
        let font_i: usize = 16 * (character as usize);
        let mut pixels: Vec<usize> = Vec::new();
        let mut row: usize = 0;
        while row < 16
            invariant
                row <= 16,
                self.wf(),
                font@.len() >= FONT_SIZE,
                font_i == FONT_ROWS * character,
                -isize::MAX / 2 <= point.x <= isize::MAX / 2,
                -isize::MAX / 2 <= point.y <= isize::MAX / 2,
                pixels@ == self.spec_char(font@, point, character, row * FONT_COLUMNS as int),
            decreases 16 - row,
        {
            let row_data = font[font_i + row];
            let mut col: usize = 0;
            while col < 8
                invariant
                    col <= 8,
                    row < 16,
                    self.wf(),
                    font@.len() >= FONT_SIZE,
                    font_i == FONT_ROWS * character,
                    row_data == font@[FONT_ROWS * character + row],
                    -isize::MAX / 2 <= point.x <= isize::MAX / 2,
                    -isize::MAX / 2 <= point.y <= isize::MAX / 2,
                    pixels@ == self.spec_char(
                        font@,
                        point,
                        character,
                        row * FONT_COLUMNS as int + col,
                    ),
                decreases 8 - col,
            {
                let bit = (row_data >> ((7 - col) as u8)) & 1;
                if bit > 0 {
                    let at = Point { x: point.x + col as isize, y: point.y + row as isize };
                    if let Some((address, _)) = self.pixel(at, color) {
                        pixels.push(address);
                    }
                }
                col += 1;
            }
            row += 1;
        }
        pixels
    }

    /// The rows and the bytes of each row that a rectangle of `size` at
    /// `point` covers on the display: the first row, the row behind the
    /// last, the offset of the first byte in a row and the number of
    /// bytes. The rectangle is cut at the edges of the display, short of
    /// its last row and column.
    pub open spec fn spec_rect_area(&self, point: Point, size: Size) -> (int, int, int, int) {
        let start_y = spec_clamp(point.y as int, 0, self.height - 1);
        let end_y = spec_clamp(point.y + size.height, 0, self.height - 1);
        let start_x = spec_clamp(point.x as int, 0, self.width - 1) * PIXEL_SIZE;
        let end_x = spec_clamp(point.x + size.width, 0, self.width - 1) * PIXEL_SIZE;
        (start_y, end_y, start_x, end_x - start_x)
    }

    /// The work for the first `n` rows of a rectangle.
    pub open spec fn spec_rect_rows(&self, point: Point, size: Size, color: Color, n: int) -> Seq<
        Run,
    >
        decreases n,
    {
        if n <= 0 {
            Seq::empty()
        } else {
            let area = self.spec_rect_area(point, size);
            let dst = (self.offscreen + (area.0 + n - 1) * self.bytesperrow + area.2) as usize;
            let alpha = spec_alpha(color.data);
            self.spec_rect_rows(point, size, color, n - 1).push(
                if alpha >= 255 {
                    Run::Fill { data: color.data, dst, len: area.3 as usize }
                } else {
                    Run::Blend {
                        premul: spec_weighted(color.data, alpha),
                        n_alpha: (255 - alpha) as u32,
                        dst,
                        len: area.3 as usize,
                    }
                },
            )
        }
    }

    /// The work that draws a rectangle: one run for each row that it
    /// covers. An opaque color is set; a color that lets through what is
    /// below is blended; a color with no alpha draws nothing.
    pub open spec fn spec_rect(&self, point: Point, size: Size, color: Color) -> Seq<Run> {
        let area = self.spec_rect_area(point, size);
        if spec_alpha(color.data) > 0 && self.width > 0 && self.height > 0 && area.1 > area.0 {
            self.spec_rect_rows(point, size, color, area.1 - area.0)
        } else {
            Seq::empty()
        }
    }

    /// The work that draws a rectangle of `size` at `point` in `color`.
    pub fn rect(&self, point: Point, size: Size, color: Color) -> (work: Vec<Run>)
        requires
            self.wf(),
        ensures
            work@ == self.spec_rect(point, size, color),
    {
        if self.width == 0 || self.height == 0 {
            return Vec::new();
        }
        let data = color.data;
        let alpha: u32 = (data & 0xFF00_0000) >> 24;
        assert(alpha <= 255) by (bit_vector)
            requires
                alpha == (data & 0xFF00_0000) >> 24,
        ;
        let mut work: Vec<Run> = Vec::new();
        if alpha > 0 {
            let start_y = clamp(point.y as i128, self.height);
            let end_y = clamp(point.y as i128 + size.height as i128, self.height);
            let first_x = clamp(point.x as i128, self.width);
            let last_x = clamp(point.x as i128 + size.width as i128, self.width);
            assert(first_x <= last_x);
            assert(last_x * PIXEL_SIZE <= self.width * PIXEL_SIZE) by (nonlinear_arith)
                requires
                    last_x < self.width,
            ;
            assert(first_x * PIXEL_SIZE <= last_x * PIXEL_SIZE) by (nonlinear_arith)
                requires
                    first_x <= last_x,
            ;
            let start_x: usize = first_x * PIXEL_SIZE;
            let len: usize = last_x * PIXEL_SIZE - start_x;
            let premul: u32 = weighted(data, alpha);
            let mut y: usize = start_y;
            while y < end_y
                invariant
                    self.wf(),
                    start_y <= y,
                    end_y < self.height,
                    y <= end_y || start_y > end_y,
                    alpha == spec_alpha(data),
                    data == color.data,
                    0 < alpha <= 255,
                    premul == spec_weighted(data, alpha),
                    start_x + len <= self.width * PIXEL_SIZE,
                    self.spec_rect_area(point, size) == (
                        start_y as int,
                        end_y as int,
                        start_x as int,
                        len as int,
                    ),
                    work@ == self.spec_rect_rows(point, size, color, y - start_y),
                decreases end_y - y,
            {
                assert(y * self.bytesperrow + self.bytesperrow <= self.height * self.bytesperrow)
                    by (nonlinear_arith)
                    requires
                        y < self.height,
                ;
                let dst: usize = self.offscreen + y * self.bytesperrow + start_x;
                if alpha >= 255 {
                    work.push(Run::Fill { data, dst, len });
                } else {
                    work.push(Run::Blend { premul, n_alpha: 255 - alpha, dst, len });
                }
                y += 1;
            }
        }
        work
    }
}

/// `v`, but at least 0 and at most `limit - 1`.
fn clamp(v: i128, limit: usize) -> (r: usize)
    requires
        limit > 0,
    ensures
        r == spec_clamp(v as int, 0, limit - 1),
        r < limit,
{
    if v < 0 {
        0
    } else if v > (limit - 1) as i128 {
        limit - 1
    } else {
        v as usize
    }
}

/// What a pixel `orig` becomes when it is blended: weighted with `n_alpha`,
/// plus `premul`.
pub open spec fn spec_blend(orig: u32, premul: u32, n_alpha: u32) -> u32 {
    (spec_weighted(orig, n_alpha) + premul) as u32
}

/// What a pixel `orig` becomes when the pixel `new` is put over it: `new`
/// where it is opaque, `orig` where `new` has no alpha, and else both,
/// each weighted with its share of the alpha of `new`.
pub open spec fn spec_over(new: u32, orig: u32) -> u32 {
    let alpha = (new >> 24) & 0xFF;
    if alpha == 0 {
        orig
    } else if alpha >= 255 {
        new
    } else {
        (spec_weighted(orig, (255 - alpha) as u32) + spec_weighted(new, alpha)) as u32
    }
}

/// Blends a pixel: what is there, weighted with `n_alpha`, plus `premul`.
pub fn blend(orig: u32, premul: u32, n_alpha: u32) -> (r: u32)
    requires
        n_alpha <= 255,
        premul <= 0x00FF_FFFF,
    ensures
        r == spec_blend(orig, premul, n_alpha),
{
    weighted(orig, n_alpha) + premul
}

/// Puts the pixel `new` over the pixel `orig`.
pub fn over(new: u32, orig: u32) -> (r: u32)
    ensures
        r == spec_over(new, orig),
{
    let alpha: u32 = (new >> 24) & 0xFF;
    assert(alpha <= 255) by (bit_vector)
        requires
            alpha == (new >> 24) & 0xFF,
    ;
    if alpha == 0 {
        orig
    } else if alpha >= 255 {
        new
    } else {
        weighted(orig, 255 - alpha) + weighted(new, alpha)
    }
}

/// A color weighted with `alpha`, part by part.
fn weighted(data: u32, alpha: u32) -> (r: u32)
    requires
        alpha <= 255,
    ensures
        r == spec_weighted(data, alpha),
        r <= 0x00FF_FFFF,
{
    let red: u32 = (data >> 16) & 0xFF;
    let green: u32 = (data >> 8) & 0xFF;
    let blue: u32 = data & 0xFF;
    assert(red <= 255 && green <= 255 && blue <= 255) by (bit_vector)
        requires
            red == (data >> 16) & 0xFF,
            green == (data >> 8) & 0xFF,
            blue == data & 0xFF,
    ;
    assert(red * alpha <= 255 * 255 && green * alpha <= 255 * 255 && blue * alpha <= 255 * 255)
        by (nonlinear_arith)
        requires
            red <= 255,
            green <= 255,
            blue <= 255,
            alpha <= 255,
    ;
    let weighted_red: u32 = red * alpha;
    let weighted_green: u32 = green * alpha;
    let weighted_blue: u32 = blue * alpha;
    let r = weighted_red >> 8;
    let g = weighted_green >> 8;
    let b = weighted_blue >> 8;
    assert(((r << 16) | (g << 8) | b) <= 0x00FF_FFFF) by (bit_vector)
        requires
            r == weighted_red >> 8,
            g == weighted_green >> 8,
            b == weighted_blue >> 8,
            weighted_red <= 65025,
            weighted_green <= 65025,
            weighted_blue <= 65025,
    ;
    (r << 16) | (g << 8) | b
}

} // verus!
