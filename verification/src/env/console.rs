//! The console of the kernel: a terminal of characters of 8 by 16 pixels
//! that knows the escape sequences for colors and for a reset. It keeps
//! the state of the terminal and says what is to be drawn.

use vstd::prelude::*;
use crate::graphics::{Color, Point, Size, BLACK, BLUE, CYAN, GREEN, MAGENTA, RED, WHITE, YELLOW};

verus! {

/// The width of a character, in pixels.
pub const CELL_WIDTH: usize = 8;

/// The height of a character, in pixels.
pub const CELL_HEIGHT: usize = 16;

/// The largest width and height of a display that the console draws on.
pub const DISPLAY_MAX: usize = 0x1_0000;

pub const ESCAPE: u8 = 0x1B;

pub const NEWLINE: u8 = 0x0A;

pub const BACKSPACE: u8 = 0x08;

/// The scancode of the key that shows the console.
pub const K_F1: u8 = 0x3B;

/// The scancode of the key that hides the console.
pub const K_F2: u8 = 0x3C;

/// The scancode of the backspace key.
pub const K_BKSP: u8 = 0x0E;

/// A key that was pressed or released.
#[derive(Clone, Copy, Debug, PartialEq, Eq, Structural)]
pub struct KeyEvent {
    /// The character of the key; 0 where it has none.
    pub character: u8,
    pub scancode: u8,
    pub pressed: bool,
}

/// One thing to draw.
#[derive(Clone, Copy, Debug, PartialEq, Eq, Structural)]
pub enum Draw {
    /// Fill the area of `size` at `point` with `color`.
    Rect { point: Point, size: Size, color: Color },
    /// Draw the character `character` at `point` in `color`.
    Char { point: Point, character: u8, color: Color },
    /// Move the content of the display `rows` pixels up.
    Scroll { rows: usize },
    /// Fill the display with `color`.
    Fill { color: Color },
    /// Show what was drawn.
    Flip,
}

/// The console.
#[derive(Debug)]
pub struct Console {
    /// The width of the display, in pixels.
    pub width: usize,
    /// The height of the display, in pixels.
    pub height: usize,
    /// Where the next character goes.
    pub point: Point,
    pub foreground: Color,
    pub background: Color,
    /// The console is shown.
    pub draw: bool,
    /// What was drawn is not shown yet.
    pub redraw: bool,
    /// The command line that was entered last and not read yet.
    pub command: Option<Vec<u8>>,
    /// An escape character has come and its sequence is not over.
    pub escape: bool,
    /// The escape sequence is one of parameters.
    pub escape_sequence: bool,
    /// The parameters of the escape sequence read so far.
    pub sequence: Vec<Vec<u8>>,
}

/// What the terminal decides on.
pub struct ConsoleState {
    pub width: usize,
    pub height: usize,
    pub point: Point,
    pub foreground: Color,
    pub background: Color,
    pub draw: bool,
    pub redraw: bool,
    pub escape: bool,
    pub escape_sequence: bool,
    pub sequence: Seq<Seq<u8>>,
}

/// The color with the number `k` of the palette.
pub open spec fn spec_palette(k: int) -> Color {
    if k == 0 {
        Color { data: BLACK }
    } else if k == 1 {
        Color { data: RED }
    } else if k == 2 {
        Color { data: GREEN }
    } else if k == 3 {
        Color { data: YELLOW }
    } else if k == 4 {
        Color { data: BLUE }
    } else if k == 5 {
        Color { data: MAGENTA }
    } else if k == 6 {
        Color { data: CYAN }
    } else {
        Color { data: WHITE }
    }
}

/// The colors after the display attribute `value`: `0` resets both, `30`
/// to `37` set the foreground, `40` to `47` the background; any other
/// value changes nothing.
pub open spec fn spec_attribute(colors: (Color, Color), value: Seq<u8>) -> (Color, Color) {
    if value == seq![0x30u8] {
        (Color { data: WHITE }, Color { data: BLACK })
    } else if value.len() == 2 && 0x30 <= value[1] <= 0x37 {
        if value[0] == 0x33 {
            (spec_palette(value[1] - 0x30), colors.1)
        } else if value[0] == 0x34 {
            (colors.0, spec_palette(value[1] - 0x30))
        } else {
            colors
        }
    } else {
        colors
    }
}

/// The colors after the first `n` display attributes of `values`.
pub open spec fn spec_attributes(colors: (Color, Color), values: Seq<Seq<u8>>, n: int) -> (
    Color,
    Color,
)
    decreases n,
{
    if n <= 0 {
        colors
    } else {
        spec_attribute(spec_attributes(colors, values, n - 1), values[n - 1])
    }
}

/// The state after the byte `c` of an escape sequence, and what is to be
/// drawn.
///
/// Inside a sequence of parameters a digit goes to the last parameter, a
/// semicolon starts a new one, `m` sets the colors as the parameters say
/// and ends the sequence, and any other byte ends it too. Outside, `[`
/// starts a sequence of parameters, `c` resets the terminal, and any other
/// byte ends the escape.
pub open spec fn spec_code(s: ConsoleState, c: u8) -> (ConsoleState, Seq<Draw>) {
    if s.escape_sequence {
        if 0x30 <= c <= 0x39 {
            if s.sequence.len() > 0 {
                (
                    ConsoleState {
                        sequence: s.sequence.update(
                            s.sequence.len() - 1,
                            s.sequence.last().push(c),
                        ),
                        ..s
                    },
                    Seq::empty(),
                )
            } else {
                (s, Seq::empty())
            }
        } else if c == 0x3B {
            (ConsoleState { sequence: s.sequence.push(Seq::empty()), ..s }, Seq::empty())
        } else if c == 0x6D {
            let colors = spec_attributes(
                (s.foreground, s.background),
                s.sequence,
                s.sequence.len() as int,
            );
            (
                ConsoleState {
                    foreground: colors.0,
                    background: colors.1,
                    escape_sequence: false,
                    escape: false,
                    sequence: Seq::empty(),
                    ..s
                },
                Seq::empty(),
            )
        } else {
            (
                ConsoleState { escape_sequence: false, escape: false, sequence: Seq::empty(), ..s },
                Seq::empty(),
            )
        }
    } else if c == 0x5B {
        (
            ConsoleState { escape_sequence: true, sequence: s.sequence.push(Seq::empty()), ..s },
            Seq::empty(),
        )
    } else if c == 0x63 {
        (
            ConsoleState {
                point: Point { x: 0, y: 0 },
                foreground: Color { data: WHITE },
                background: Color { data: BLACK },
                redraw: true,
                escape: false,
                ..s
            },
            seq![Draw::Fill { color: Color { data: BLACK } }],
        )
    } else {
        (ConsoleState { escape: false, ..s }, Seq::empty())
    }
}

/// The size of a character.
pub open spec fn spec_cell() -> Size {
    Size { width: CELL_WIDTH, height: CELL_HEIGHT }
}

/// The position after the byte `c` was shown at `point`, before the line
/// is wrapped: a line feed goes to the start of the next line, a backspace
/// one character back, as far as the start of the line, an escape
/// nowhere, and any other byte one character on.
pub open spec fn spec_advance(point: Point, c: u8) -> Point {
    if c == ESCAPE {
        point
    } else if c == NEWLINE {
        Point { x: 0, y: (point.y + CELL_HEIGHT) as isize }
    } else if c == BACKSPACE {
        Point {
            x: if point.x - CELL_WIDTH < 0 {
                0
            } else {
                (point.x - CELL_WIDTH) as isize
            },
            y: point.y,
        }
    } else {
        Point { x: (point.x + CELL_WIDTH) as isize, y: point.y }
    }
}

/// The position after the line was wrapped at the right edge.
pub open spec fn spec_wrap(point: Point, width: usize) -> Point {
    if point.x >= width {
        Point { x: 0, y: (point.y + CELL_HEIGHT) as isize }
    } else {
        point
    }
}

/// How many times the display is scrolled by a line so that a character at
/// the height `y` fits.
pub open spec fn spec_scrolls(y: int, height: int) -> nat
    decreases y + 2 * CELL_HEIGHT - height,
{
    if y + CELL_HEIGHT > height {
        1 + spec_scrolls(y - CELL_HEIGHT, height)
    } else {
        0
    }
}

/// What is drawn for the byte `c` itself.
pub open spec fn spec_glyph(s: ConsoleState, c: u8) -> Seq<Draw> {
    if c == ESCAPE || c == NEWLINE {
        Seq::empty()
    } else if c == BACKSPACE {
        seq![Draw::Rect { point: spec_advance(s.point, c), size: spec_cell(), color: s.background }]
    } else {
        seq![Draw::Char { point: s.point, character: c, color: s.foreground }]
    }
}

/// The state after the byte `c` was shown, and what is to be drawn: the
/// cursor is taken away, the byte is shown, the line is wrapped, the
/// display is scrolled as far as needed, and the cursor is drawn again.
pub open spec fn spec_character(s: ConsoleState, c: u8) -> (ConsoleState, Seq<Draw>) {
    let moved = spec_wrap(spec_advance(s.point, c), s.width);
    let scrolls = spec_scrolls(moved.y as int, s.height as int);
    let point = Point { x: moved.x, y: (moved.y - scrolls * CELL_HEIGHT) as isize };
    (
        ConsoleState { point, escape: s.escape || c == ESCAPE, redraw: true, ..s },
        seq![Draw::Rect { point: s.point, size: spec_cell(), color: s.background }] + spec_glyph(
            s,
            c,
        ) + Seq::new(scrolls, |k: int| Draw::Scroll { rows: CELL_HEIGHT }) + seq![
            Draw::Rect { point, size: spec_cell(), color: s.foreground },
        ],
    )
}

/// The state after one byte, and what is to be drawn.
pub open spec fn spec_byte(s: ConsoleState, c: u8) -> (ConsoleState, Seq<Draw>) {
    if s.escape {
        spec_code(s, c)
    } else {
        spec_character(s, c)
    }
}

/// The state after the first `n` bytes of `bytes`.
pub open spec fn spec_bytes_state(s: ConsoleState, bytes: Seq<u8>, n: int) -> ConsoleState
    decreases n,
{
    if n <= 0 {
        s
    } else {
        spec_byte(spec_bytes_state(s, bytes, n - 1), bytes[n - 1]).0
    }
}

/// What is to be drawn for the first `n` bytes of `bytes`.
pub open spec fn spec_bytes_draw(s: ConsoleState, bytes: Seq<u8>, n: int) -> Seq<Draw>
    decreases n,
{
    if n <= 0 {
        Seq::empty()
    } else {
        spec_bytes_draw(s, bytes, n - 1) + spec_byte(
            spec_bytes_state(s, bytes, n - 1),
            bytes[n - 1],
        ).1
    }
}

/// The position lies on the display, with room for a character below it;
/// on a display that is not as high as two characters the position may lie
/// less than a character above it.
pub open spec fn spec_state_wf(s: ConsoleState) -> bool {
    &&& CELL_HEIGHT <= s.height <= DISPLAY_MAX
    &&& s.width <= DISPLAY_MAX
    &&& 0 <= s.point.x <= s.width
    &&& -CELL_HEIGHT <= s.point.y
    &&& s.point.y + CELL_HEIGHT <= s.height
}

/// A character at the height `y` fits after the scrolls that `spec_scrolls`
/// counts, and no scroll is made that is not needed.
pub proof fn lemma_scrolls(y: int, height: int)
    requires
        CELL_HEIGHT <= height,
    ensures
        y - spec_scrolls(y, height) * CELL_HEIGHT + CELL_HEIGHT <= height,
        spec_scrolls(y, height) > 0 ==> y - spec_scrolls(y, height) * CELL_HEIGHT + 2
            * CELL_HEIGHT > height,
        y + CELL_HEIGHT <= height ==> spec_scrolls(y, height) == 0,
    decreases y + 2 * CELL_HEIGHT - height,
{
    if y + CELL_HEIGHT > height {
        lemma_scrolls(y - CELL_HEIGHT, height);
    }
}

/// Showing a byte keeps the position on the display.
pub proof fn lemma_byte_wf(s: ConsoleState, c: u8)
    requires
        spec_state_wf(s),
    ensures
        spec_state_wf(spec_byte(s, c).0),
{
    let moved = spec_wrap(spec_advance(s.point, c), s.width);
    lemma_scrolls(moved.y as int, s.height as int);
}

impl Console {
    /// What the terminal decides on.
    pub open spec fn state(&self) -> ConsoleState {
        ConsoleState {
            width: self.width,
            height: self.height,
            point: self.point,
            foreground: self.foreground,
            background: self.background,
            draw: self.draw,
            redraw: self.redraw,
            escape: self.escape,
            escape_sequence: self.escape_sequence,
            sequence: self.sequence@.map_values(|v: Vec<u8>| v@),
        }
    }

    /// The position lies on the display.
    pub open spec fn wf(&self) -> bool {
        spec_state_wf(self.state())
    }

    /// Tells whether the position lies on the display.
    pub fn check(&self) -> (r: bool)
        ensures
            r == self.wf(),
    {
        self.height >= CELL_HEIGHT && self.height <= DISPLAY_MAX && self.width <= DISPLAY_MAX
            && self.point.x >= 0 && self.point.x <= self.width as isize && self.point.y >= -16
            && self.point.y <= self.height as isize - 16
    }

    /// A console for a display of `width` by `height` pixels: white on
    /// black, at the upper left corner, not shown.
    pub fn new(width: usize, height: usize) -> (console: Console)
        ensures
            console.state() == (ConsoleState {
                width,
                height,
                point: Point { x: 0, y: 0 },
                foreground: Color { data: WHITE },
                background: Color { data: BLACK },
                draw: false,
                redraw: true,
                escape: false,
                escape_sequence: false,
                sequence: Seq::empty(),
            }),
            console.command is None,
            CELL_HEIGHT <= height <= DISPLAY_MAX && width <= DISPLAY_MAX ==> console.wf(),
    {
        let console = Console {
            width,
            height,
            point: Point { x: 0, y: 0 },
            foreground: Color { data: WHITE },
            background: Color { data: BLACK },
            draw: false,
            redraw: true,
            command: None,
            escape: false,
            escape_sequence: false,
            sequence: Vec::new(),
        };
        assert(console.sequence@.map_values(|v: Vec<u8>| v@) =~= Seq::empty());
        console
    }

    /// The color with the number of the digit `digit` of the palette.
    fn palette(digit: u8) -> (color: Color)
        requires
            0x30 <= digit <= 0x37,
        ensures
            color == spec_palette(digit - 0x30),
    {
        if digit == 0x30 {
            Color { data: BLACK }
        } else if digit == 0x31 {
            Color { data: RED }
        } else if digit == 0x32 {
            Color { data: GREEN }
        } else if digit == 0x33 {
            Color { data: YELLOW }
        } else if digit == 0x34 {
            Color { data: BLUE }
        } else if digit == 0x35 {
            Color { data: MAGENTA }
        } else if digit == 0x36 {
            Color { data: CYAN }
        } else {
            Color { data: WHITE }
        }
    }

    /// Sets the colors as the display attribute `value` says.
    fn attribute(colors: (Color, Color), value: &Vec<u8>) -> (r: (Color, Color))
        ensures
            r == spec_attribute(colors, value@),
    {
        if value.len() == 1 && value[0] == 0x30 {
            assert(value@ =~= seq![0x30u8]);
            (Color { data: WHITE }, Color { data: BLACK })
        } else if value.len() == 2 && value[1] >= 0x30 && value[1] <= 0x37 {
            if value[0] == 0x33 {
                (Console::palette(value[1]), colors.1)
            } else if value[0] == 0x34 {
                (colors.0, Console::palette(value[1]))
            } else {
                colors
            }
        } else {
            assert(value@ != seq![0x30u8]) by {
                if value@ == seq![0x30u8] {
                    assert(value@.len() == 1);
                    assert(value@[0] == 0x30u8);
                }
            }
            colors
        }
    }

    /// Takes the byte `c` of an escape sequence.
    pub fn code(&mut self, c: u8) -> (drawn: Vec<Draw>)
        ensures
            final(self).state() == spec_code(old(self).state(), c).0,
            drawn@ == spec_code(old(self).state(), c).1,
            final(self).command == old(self).command,
    {
        let ghost before = self.state();
        let mut drawn: Vec<Draw> = Vec::new();
        if self.escape_sequence {
            if c >= 0x30 && c <= 0x39 {
                let n = self.sequence.len();
                if n > 0 {
                    self.sequence[n - 1].push(c);
                    assert(self.state().sequence =~= before.sequence.update(
                        n - 1,
                        before.sequence.last().push(c),
                    ));
                }
            } else if c == 0x3B {
                self.sequence.push(Vec::new());
                assert(self.state().sequence =~= before.sequence.push(Seq::empty()));
            } else if c == 0x6D {
                let mut colors = (self.foreground, self.background);
                let mut k: usize = 0;
                while k < self.sequence.len()
                    invariant
                        k <= self.sequence.len(),
                        self.state() == before,
                        self.command == old(self).command,
                        colors == spec_attributes(
                            (before.foreground, before.background),
                            before.sequence,
                            k as int,
                        ),
                    decreases self.sequence.len() - k,
                {
                    colors = Console::attribute(colors, &self.sequence[k]);
                    k += 1;
                }
                self.foreground = colors.0;
                self.background = colors.1;
                self.escape_sequence = false;
            } else {
                self.escape_sequence = false;
            }
            if !self.escape_sequence {
                self.sequence.clear();
                self.escape = false;
                assert(self.state().sequence =~= Seq::empty());
            }
        } else if c == 0x5B {
            self.escape_sequence = true;
            self.sequence.push(Vec::new());
            assert(self.state().sequence =~= before.sequence.push(Seq::empty()));
        } else if c == 0x63 {
            self.point = Point { x: 0, y: 0 };
            self.foreground = Color { data: WHITE };
            self.background = Color { data: BLACK };
            drawn.push(Draw::Fill { color: Color { data: BLACK } });
            self.redraw = true;
            self.escape = false;
        } else {
            self.escape = false;
        }
        drawn
    }

    /// The position after the byte `c` was shown at `point`, with the line
    /// wrapped at the width `width`.
    fn advance(point: Point, c: u8, width: usize) -> (moved: Point)
        requires
            width <= DISPLAY_MAX,
            0 <= point.x <= DISPLAY_MAX,
            -CELL_HEIGHT <= point.y <= DISPLAY_MAX,
        ensures
            moved == spec_wrap(spec_advance(point, c), width),
            0 <= moved.x <= width,
            point.y <= moved.y <= point.y + 2 * CELL_HEIGHT,
    {
        let mut moved = point;
        if c == ESCAPE {
        } else if c == NEWLINE {
            moved.x = 0;
            moved.y = moved.y + 16;
        } else if c == BACKSPACE {
            moved.x = moved.x - 8;
            if moved.x < 0 {
                moved.x = 0;
            }
        } else {
            moved.x = moved.x + 8;
        }
        if moved.x >= width as isize {
            moved.x = 0;
            moved.y = moved.y + 16;
        }
        moved
    }

    /// Scrolls the display until a character at the height `y` fits: says
    /// what is to be drawn, and returns the height after the scrolls.
    fn scroll(y: isize, height: usize, drawn: &mut Vec<Draw>) -> (r: isize)
        requires
            CELL_HEIGHT <= height <= DISPLAY_MAX,
            -CELL_HEIGHT <= y <= DISPLAY_MAX + 2 * CELL_HEIGHT,
        ensures
            r == y - spec_scrolls(y as int, height as int) * CELL_HEIGHT,
            -CELL_HEIGHT <= r,
            r + CELL_HEIGHT <= height,
            final(drawn)@ == old(drawn)@ + Seq::new(
                spec_scrolls(y as int, height as int),
                |k: int| Draw::Scroll { rows: CELL_HEIGHT },
            ),
    {
        let ghost total = spec_scrolls(y as int, height as int);
        let mut r = y;
        let mut done: usize = 0;
        proof {
            lemma_scrolls(y as int, height as int);
            assert(drawn@ =~= old(drawn)@ + Seq::new(
                0nat,
                |k: int| Draw::Scroll { rows: CELL_HEIGHT },
            ));
        }
        while r + 16 > height as isize
            invariant
                CELL_HEIGHT <= height <= DISPLAY_MAX,
                y <= DISPLAY_MAX + 2 * CELL_HEIGHT,
                r == y - done * CELL_HEIGHT,
                -CELL_HEIGHT <= r,
                done + spec_scrolls(r as int, height as int) == total,
                drawn@ == old(drawn)@ + Seq::new(
                    done as nat,
                    |k: int| Draw::Scroll { rows: CELL_HEIGHT },
                ),
            decreases r + 2 * CELL_HEIGHT - height,
        {
            drawn.push(Draw::Scroll { rows: CELL_HEIGHT });
            r = r - 16;
            done += 1;
            assert(drawn@ =~= old(drawn)@ + Seq::new(
                done as nat,
                |k: int| Draw::Scroll { rows: CELL_HEIGHT },
            ));
        }
        assert(spec_scrolls(r as int, height as int) == 0);
        r
    }

    /// Shows the byte `c` at the position and moves the position on.
    pub fn character(&mut self, c: u8) -> (drawn: Vec<Draw>)
        requires
            old(self).wf(),
        ensures
            final(self).wf(),
            final(self).state() == spec_character(old(self).state(), c).0,
            drawn@ == spec_character(old(self).state(), c).1,
            final(self).command == old(self).command,
    {
        let ghost before = self.state();
        let cell = Size { width: CELL_WIDTH, height: CELL_HEIGHT };
        let mut drawn: Vec<Draw> = Vec::new();
        drawn.push(Draw::Rect { point: self.point, size: cell, color: self.background });
        let moved = Console::advance(self.point, c, self.width);
        if c == ESCAPE {
            self.escape = true;
        } else if c == NEWLINE {
        } else if c == BACKSPACE {
            drawn.push(
                Draw::Rect {
                    point: Point { x: moved.x, y: self.point.y },
                    size: cell,
                    color: self.background,
                },
            );
        } else {
            drawn.push(Draw::Char { point: self.point, character: c, color: self.foreground });
        }
        assert(drawn@ =~= seq![
            Draw::Rect { point: before.point, size: spec_cell(), color: before.background },
        ] + spec_glyph(before, c));
        let y = Console::scroll(moved.y, self.height, &mut drawn);
        self.point = Point { x: moved.x, y };
        drawn.push(Draw::Rect { point: self.point, size: cell, color: self.foreground });
        self.redraw = true;
        assert(drawn@ =~= spec_character(before, c).1);
        drawn
    }

    /// Writes `bytes` to the terminal. While the kernel starts, with
    /// switching not yet enabled, what was drawn is shown at once.
    pub fn write(&mut self, bytes: &[u8], contexts_enabled: bool) -> (drawn: Vec<Draw>)
        requires
            old(self).wf(),
        ensures
            final(self).wf(),
            final(self).command == old(self).command,
            ({
                let after = spec_bytes_state(old(self).state(), bytes@, bytes@.len() as int);
                let draw = spec_bytes_draw(old(self).state(), bytes@, bytes@.len() as int);
                if !contexts_enabled && after.draw && after.redraw {
                    final(self).state() == (ConsoleState { redraw: false, ..after }) && drawn@
                        == draw.push(Draw::Flip)
                } else {
                    final(self).state() == after && drawn@ == draw
                }
            }),
    {
        let mut drawn: Vec<Draw> = Vec::new();
        let mut k: usize = 0;
        while k < bytes.len()
            invariant
                k <= bytes.len(),
                self.wf(),
                self.command == old(self).command,
                self.state() == spec_bytes_state(old(self).state(), bytes@, k as int),
                drawn@ == spec_bytes_draw(old(self).state(), bytes@, k as int),
            decreases bytes.len() - k,
        {
            let c = bytes[k];
            proof {
                lemma_byte_wf(self.state(), c);
            }
            let mut more = if self.escape {
                self.code(c)
            } else {
                self.character(c)
            };
            drawn.append(&mut more);
            k += 1;
        }
        if !contexts_enabled && self.draw && self.redraw {
            self.redraw = false;
            drawn.push(Draw::Flip);
        }
        drawn
    }
}

/// What a key does to the command line that is being typed.
#[derive(Clone, Copy, Debug, PartialEq, Eq, Structural)]
pub enum Typed {
    /// Nothing.
    Nothing,
    /// The console is hidden.
    Hide,
    /// The console is shown.
    Show,
    /// The last character of the line is taken back.
    Erase,
    /// The line is entered.
    Enter,
    /// The character is added to the line.
    Character(u8),
    /// The key is for the window system.
    Forward,
}

/// What the key `key` does while the console is shown or hidden, to a
/// command line that is empty or not.
pub open spec fn spec_typed(draw: bool, empty: bool, key: KeyEvent) -> Typed {
    if draw {
        if !key.pressed {
            Typed::Nothing
        } else if key.scancode == K_F2 {
            Typed::Hide
        } else if key.scancode == K_BKSP {
            if empty {
                Typed::Nothing
            } else {
                Typed::Erase
            }
        } else if key.character == 0 {
            Typed::Nothing
        } else if key.character == NEWLINE {
            Typed::Enter
        } else {
            Typed::Character(key.character)
        }
    } else if key.scancode == K_F1 && key.pressed {
        Typed::Show
    } else {
        Typed::Forward
    }
}

impl Console {
    /// Tells what the key `key` does to the command line `cmd`.
    pub fn typed(&self, cmd: &Vec<u8>, key: KeyEvent) -> (r: Typed)
        ensures
            r == spec_typed(self.draw, cmd@.len() == 0, key),
    {
        if self.draw {
            if !key.pressed {
                Typed::Nothing
            } else if key.scancode == K_F2 {
                Typed::Hide
            } else if key.scancode == K_BKSP {
                if cmd.len() == 0 {
                    Typed::Nothing
                } else {
                    Typed::Erase
                }
            } else if key.character == 0 {
                Typed::Nothing
            } else if key.character == NEWLINE {
                Typed::Enter
            } else {
                Typed::Character(key.character)
            }
        } else if key.scancode == K_F1 && key.pressed {
            Typed::Show
        } else {
            Typed::Forward
        }
    }

    /// Takes a key: edits the command line `cmd` that is being typed, shows
    /// what was typed, and hands an entered line over as the command of the
    /// console. Returns what is to be drawn, and whether the key is for the
    /// window system.
    pub fn key(&mut self, cmd: &mut Vec<u8>, key: KeyEvent, contexts_enabled: bool) -> (r: (
        Vec<Draw>,
        bool,
    ))
        requires
            old(self).wf(),
        ensures
            final(self).wf(),
            r.1 == (spec_typed(old(self).draw, old(cmd)@.len() == 0, key) == Typed::Forward),
            match spec_typed(old(self).draw, old(cmd)@.len() == 0, key) {
                Typed::Nothing | Typed::Forward => {
                    &&& final(self).state() == old(self).state()
                    &&& final(self).command == old(self).command
                    &&& final(cmd)@ == old(cmd)@
                    &&& r.0@.len() == 0
                },
                Typed::Hide => {
                    &&& final(self).state() == (ConsoleState { draw: false, ..old(self).state() })
                    &&& final(self).command == old(self).command
                    &&& final(cmd)@ == old(cmd)@
                    &&& r.0@.len() == 0
                },
                Typed::Show => {
                    &&& final(self).state() == (ConsoleState {
                        draw: true,
                        redraw: true,
                        ..old(self).state()
                    })
                    &&& final(self).command == old(self).command
                    &&& final(cmd)@ == old(cmd)@
                    &&& r.0@.len() == 0
                },
                Typed::Erase => {
                    &&& spec_shown(old(self).state(), final(self).state(), r.0@, BACKSPACE, contexts_enabled)
                    &&& final(self).command == old(self).command
                    &&& final(cmd)@ == old(cmd)@.drop_last()
                },
                Typed::Enter => {
                    &&& spec_shown(old(self).state(), final(self).state(), r.0@, NEWLINE, contexts_enabled)
                    &&& final(self).command is Some
                    &&& final(self).command->0@ == old(cmd)@
                    &&& final(cmd)@.len() == 0
                },
                Typed::Character(c) => {
                    &&& spec_shown(old(self).state(), final(self).state(), r.0@, c, contexts_enabled)
                    &&& final(self).command == old(self).command
                    &&& final(cmd)@ == old(cmd)@.push(c)
                },
            },
    {
        match self.typed(cmd, key) {
            Typed::Nothing => (Vec::new(), false),
            Typed::Forward => (Vec::new(), true),
            Typed::Hide => {
                self.draw = false;
                (Vec::new(), false)
            },
            Typed::Show => {
                self.draw = true;
                self.redraw = true;
                (Vec::new(), false)
            },
            Typed::Erase => {
                let drawn = self.show(BACKSPACE, contexts_enabled);
                cmd.pop();
                (drawn, false)
            },
            Typed::Enter => {
                let mut line: Vec<u8> = Vec::new();
                core::mem::swap(&mut line, cmd);
                self.command = Some(line);
                let drawn = self.show(NEWLINE, contexts_enabled);
                (drawn, false)
            },
            Typed::Character(c) => {
                cmd.push(c);
                let drawn = self.show(c, contexts_enabled);
                (drawn, false)
            },
        }
    }

    /// Writes the one byte `c` to the terminal.
    fn show(&mut self, c: u8, contexts_enabled: bool) -> (drawn: Vec<Draw>)
        requires
            old(self).wf(),
        ensures
            final(self).wf(),
            final(self).command == old(self).command,
            spec_shown(old(self).state(), final(self).state(), drawn@, c, contexts_enabled),
    {
        let bytes: [u8; 1] = [c];
        assert(bytes@ =~= seq![c]);
        let drawn = self.write(bytes.as_slice(), contexts_enabled);
        proof {
            let s = old(self).state();
            assert(spec_bytes_state(s, seq![c], 0) == s);
            assert(spec_bytes_state(s, seq![c], 1) == spec_byte(s, c).0);
            assert(spec_bytes_draw(s, seq![c], 0) =~= Seq::<Draw>::empty());
            assert(spec_bytes_draw(s, seq![c], 1) =~= spec_byte(s, c).1);
        }
        drawn
    }

    /// Shows what was drawn, if the console is shown and something was
    /// drawn since it was shown last: returns whether the display is to be
    /// flipped.
    pub fn refresh(&mut self) -> (flip: bool)
        ensures
            flip == (old(self).draw && old(self).redraw),
            final(self).state() == (ConsoleState {
                redraw: old(self).redraw && !old(self).draw,
                ..old(self).state()
            }),
            final(self).command == old(self).command,
    {
        if self.draw && self.redraw {
            self.redraw = false;
            true
        } else {
            false
        }
    }
}

/// The terminal went from `before` to `after` and `drawn` was drawn by the
/// write of the one byte `c`.
pub open spec fn spec_shown(before: ConsoleState, after: ConsoleState, drawn: Seq<Draw>, c: u8, contexts_enabled: bool) -> bool {
    let written = spec_byte(before, c);
    if !contexts_enabled && written.0.draw && written.0.redraw {
        after == (ConsoleState { redraw: false, ..written.0 }) && drawn == written.1.push(
            Draw::Flip,
        )
    } else {
        after == written.0 && drawn == written.1
    }
}

} // verus!
