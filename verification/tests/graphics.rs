use redox_kernel::env::console::{Console, Draw, KeyEvent, Typed, K_BKSP, K_F1, K_F2};
use redox_kernel::graphics::display::{blend, over, Display, Run, VBEModeInfo};
use redox_kernel::graphics::{Color, Point, Size, BLACK, BLUE, GREEN, RED, WHITE, YELLOW};
use redox_kernel::schemes::display::{DisplayResource, DisplayScheme};
use redox_kernel::schemes::kscheme::KScheme;
use redox_kernel::schemes::resource::ResourceSeek;
use redox_kernel::schemes::url::Url;

fn color(data: u32) -> Color {
    Color { data }
}

fn cell() -> Size {
    Size::new(8, 16)
}

#[test]
fn colors_of_the_palette() {
    assert_eq!(Color::new(0, 0, 0), color(BLACK));
    assert_eq!(Color::new(194, 54, 33), color(RED));
    assert_eq!(Color::new(37, 188, 36), color(GREEN));
    assert_eq!(Color::new(173, 173, 39), color(YELLOW));
    assert_eq!(Color::new(73, 46, 225), color(BLUE));
    assert_eq!(Color::new(203, 204, 205), color(WHITE));
    assert_eq!(Color::new(255, 255, 255), color(0xFFFF_FFFF));
}

#[test]
fn a_character_is_drawn_and_the_cursor_moves_on() {
    let mut console = Console::new(640, 480);
    let drawn = console.character(b'A');
    assert_eq!(
        drawn,
        vec![
            Draw::Rect { point: Point::new(0, 0), size: cell(), color: color(BLACK) },
            Draw::Char { point: Point::new(0, 0), character: b'A', color: color(WHITE) },
            Draw::Rect { point: Point::new(8, 0), size: cell(), color: color(WHITE) },
        ]
    );
    assert_eq!(console.point, Point::new(8, 0));
    assert!(console.redraw);
}

#[test]
fn line_feed_backspace_and_wrap() {
    let mut console = Console::new(24, 64);
    console.character(b'a');
    console.character(b'b');
    assert_eq!(console.point, Point::new(16, 0));
    let drawn = console.character(0x08);
    assert_eq!(
        drawn,
        vec![
            Draw::Rect { point: Point::new(16, 0), size: cell(), color: color(BLACK) },
            Draw::Rect { point: Point::new(8, 0), size: cell(), color: color(BLACK) },
            Draw::Rect { point: Point::new(8, 0), size: cell(), color: color(WHITE) },
        ]
    );
    console.character(0x08);
    console.character(0x08);
    assert_eq!(console.point, Point::new(0, 0));
    console.character(b'\n');
    assert_eq!(console.point, Point::new(0, 16));
    console.character(b'x');
    console.character(b'y');
    console.character(b'z');
    // Three characters fill the line of 24 pixels.
    assert_eq!(console.point, Point::new(0, 32));
}

#[test]
fn the_display_scrolls_at_the_bottom() {
    let mut console = Console::new(640, 32);
    console.character(b'\n');
    assert_eq!(console.point, Point::new(0, 16));
    let drawn = console.character(b'\n');
    assert_eq!(
        drawn,
        vec![
            Draw::Rect { point: Point::new(0, 16), size: cell(), color: color(BLACK) },
            Draw::Scroll { rows: 16 },
            Draw::Rect { point: Point::new(0, 16), size: cell(), color: color(WHITE) },
        ]
    );
    assert_eq!(console.point, Point::new(0, 16));
    // A display without width wraps at every byte.
    let mut narrow = Console::new(0, 16);
    let drawn = narrow.character(b'\n');
    assert_eq!(drawn.iter().filter(|d| **d == Draw::Scroll { rows: 16 }).count(), 2);
    assert_eq!(narrow.point, Point::new(0, 0));
}

#[test]
fn escape_sequences_set_the_colors() {
    let mut console = Console::new(640, 480);
    console.write(b"\x1B[31;44m", true);
    assert_eq!(console.foreground, color(RED));
    assert_eq!(console.background, color(BLUE));
    assert!(!console.escape);
    assert!(!console.escape_sequence);
    assert!(console.sequence.is_empty());
    assert_eq!(console.point, Point::new(0, 0));
    console.write(b"\x1B[33m", true);
    assert_eq!(console.foreground, color(YELLOW));
    assert_eq!(console.background, color(BLUE));
    console.write(b"\x1B[0m", true);
    assert_eq!(console.foreground, color(WHITE));
    assert_eq!(console.background, color(BLACK));
    // Values that are no attributes change nothing.
    console.write(b"\x1B[38;5;1;99;m", true);
    assert_eq!(console.foreground, color(WHITE));
    assert_eq!(console.background, color(BLACK));
    console.write(b"\x1B[42;0;32m", true);
    assert_eq!(console.foreground, color(GREEN));
    assert_eq!(console.background, color(BLACK));
}

#[test]
fn escape_sequences_end_at_an_unknown_byte() {
    let mut console = Console::new(640, 480);
    console.write(b"\x1B[31x", true);
    assert_eq!(console.foreground, color(WHITE));
    assert!(!console.escape);
    assert!(console.sequence.is_empty());
    console.write(b"\x1Bq", true);
    assert!(!console.escape);
    let drawn = console.write(b"\x1B", true);
    assert!(console.escape);
    assert_eq!(drawn.len(), 2);
    assert_eq!(console.code(b'['), vec![]);
    assert!(console.escape_sequence);
    assert_eq!(console.sequence, vec![Vec::<u8>::new()]);
    console.code(b'4');
    console.code(b'1');
    console.code(b';');
    assert_eq!(console.sequence, vec![b"41".to_vec(), Vec::new()]);
    console.code(b'm');
    assert_eq!(console.background, color(RED));
}

#[test]
fn reset_clears_the_display() {
    let mut console = Console::new(640, 480);
    console.write(b"ab\n\x1B[31;44m", true);
    console.redraw = false;
    let drawn = console.write(b"\x1Bc", true);
    assert_eq!(drawn.last(), Some(&Draw::Fill { color: color(BLACK) }));
    assert_eq!(console.point, Point::new(0, 0));
    assert_eq!(console.foreground, color(WHITE));
    assert_eq!(console.background, color(BLACK));
    assert!(console.redraw);
    assert!(!console.escape);
}

#[test]
fn write_flips_while_the_kernel_starts() {
    let mut console = Console::new(640, 480);
    console.draw = true;
    let drawn = console.write(b"a", false);
    assert_eq!(drawn.len(), 4);
    assert_eq!(drawn[3], Draw::Flip);
    assert!(!console.redraw);
    let drawn = console.write(b"b", true);
    assert_eq!(drawn.len(), 3);
    assert!(console.redraw);
    console.draw = false;
    assert_eq!(console.write(b"c", false).len(), 3);
    let mut clean = Console::new(640, 480);
    clean.draw = true;
    clean.redraw = false;
    assert!(clean.write(b"", false).is_empty());
}

fn mode() -> VBEModeInfo {
    VBEModeInfo {
        attributes: 0,
        win_a: 0,
        win_b: 0,
        granularity: 0,
        winsize: 0,
        segment_a: 0,
        segment_b: 0,
        winfuncptr: 0,
        bytesperscanline: 4096,
        xresolution: 1024,
        yresolution: 768,
        xcharsize: 8,
        ycharsize: 16,
        numberofplanes: 1,
        bitsperpixel: 32,
        numberofbanks: 1,
        memorymodel: 6,
        banksize: 0,
        numberofimagepages: 0,
        unused: 0,
        redmasksize: 8,
        redfieldposition: 16,
        greenmasksize: 8,
        greenfieldposition: 8,
        bluemasksize: 8,
        bluefieldposition: 0,
        rsvdmasksize: 8,
        rsvdfieldposition: 24,
        directcolormodeinfo: 0,
        physbaseptr: 0xE000_0000,
        offscreenmemoryoffset: 0,
        offscreenmemsize: 0,
    }
}

#[test]
fn the_screen_of_a_video_mode() {
    let (display, work) = Display::root(&mode(), 0x100_0000);
    assert_eq!(
        display,
        Display {
            offscreen: 0x100_0000,
            onscreen: 0xE000_0000,
            size: 4096 * 768,
            bytesperrow: 4096,
            width: 1024,
            height: 768,
            root: true,
        }
    );
    assert_eq!(
        work,
        vec![
            Run::Fill { data: 0xFF00_0000, dst: 0x100_0000, len: 4096 * 768 },
            Run::Copy { src: 0x100_0000, dst: 0xE000_0000, len: 4096 * 768 },
        ]
    );
}

fn small() -> Display {
    Display {
        offscreen: 0x1000,
        onscreen: 0x9000,
        size: 10 * 40,
        bytesperrow: 40,
        width: 10,
        height: 10,
        root: false,
    }
}

#[test]
fn a_new_display_starts_flipped() {
    let (display, work) = Display::new(10, 10, 0x1000, 0x9000);
    assert_eq!(display.offscreen, 0x9000);
    assert_eq!(display.onscreen, 0x1000);
    assert_eq!(display.size, 400);
    assert_eq!(display.bytesperrow, 40);
    assert!(!display.root);
    assert_eq!(work, vec![Run::Fill { data: 0xFF00_0000, dst: 0x1000, len: 400 }]);
}

#[test]
fn set_scroll_and_flip() {
    let mut display = small();
    assert_eq!(display.set(color(RED)), Run::Fill { data: RED, dst: 0x1000, len: 400 });
    assert_eq!(
        display.scroll(2),
        vec![
            Run::Copy { src: 0x1000 + 80, dst: 0x1000, len: 320 },
            Run::Fill { data: 0, dst: 0x1000 + 320, len: 80 },
        ]
    );
    assert!(display.scroll(0).is_empty());
    assert!(display.scroll(10).is_empty());
    assert!(display.scroll(11).is_empty());
    assert_eq!(display.flip(), None);
    assert_eq!((display.offscreen, display.onscreen), (0x9000, 0x1000));
    let (mut screen, _) = Display::root(&mode(), 0x100_0000);
    assert_eq!(
        screen.flip(),
        Some(Run::Copy { src: 0x100_0000, dst: 0xE000_0000, len: 4096 * 768 })
    );
    assert_eq!(screen.offscreen, 0x100_0000);
}

#[test]
fn pixel_addresses() {
    let display = small();
    assert_eq!(display.pixel(Point::new(0, 0), color(RED)), Some((0x1000, RED)));
    assert_eq!(display.pixel(Point::new(3, 2), color(RED)), Some((0x1000 + 2 * 40 + 12, RED)));
    assert_eq!(display.pixel(Point::new(9, 9), color(RED)), Some((0x1000 + 9 * 40 + 36, RED)));
    assert_eq!(display.pixel(Point::new(10, 0), color(RED)), None);
    assert_eq!(display.pixel(Point::new(0, 10), color(RED)), None);
    assert_eq!(display.pixel(Point::new(-1, 0), color(RED)), None);
    assert_eq!(display.pixel(Point::new(0, -1), color(RED)), None);
}

#[test]
fn rect_is_cut_at_the_edges() {
    let display = small();
    let work = display.rect(Point::new(2, 3), Size::new(4, 2), color(RED));
    assert_eq!(
        work,
        vec![
            Run::Fill { data: RED, dst: 0x1000 + 3 * 40 + 8, len: 16 },
            Run::Fill { data: RED, dst: 0x1000 + 4 * 40 + 8, len: 16 },
        ]
    );
    // The last row and the last column are never reached.
    let work = display.rect(Point::new(-5, 8), Size::new(100, 100), color(RED));
    assert_eq!(work, vec![Run::Fill { data: RED, dst: 0x1000 + 8 * 40, len: 36 }]);
    assert!(display.rect(Point::new(0, 20), Size::new(4, 4), color(RED)).is_empty());
    assert!(display.rect(Point::new(0, 0), Size::new(4, 0), color(RED)).is_empty());
    // No alpha, nothing drawn.
    assert!(display.rect(Point::new(0, 0), Size::new(4, 4), color(0x00FF_FFFF)).is_empty());
}

#[test]
fn rect_blends_a_color_that_is_not_opaque() {
    let display = small();
    let work = display.rect(Point::new(0, 0), Size::new(2, 1), color(0x80FF_8040));
    let premul = (((0xFFu32 * 0x80) >> 8) << 16) | (((0x80u32 * 0x80) >> 8) << 8) | ((0x40u32 * 0x80) >> 8);
    assert_eq!(
        work,
        vec![Run::Blend { premul, n_alpha: 255 - 0x80, dst: 0x1000, len: 8 }]
    );
}

#[test]
fn char_sets_the_pixels_of_the_font() {
    let display = small();
    let mut font = vec![0u8; 4096];
    let c = b'A' as usize;
    font[16 * c] = 0b1000_0001;
    font[16 * c + 1] = 0b0100_0000;
    font[16 * c + 15] = 0b1111_1111;
    let pixels = display.char(&font, Point::new(1, 0), b'A', color(WHITE));
    assert_eq!(
        pixels,
        vec![0x1000 + 4, 0x1000 + 4 * 8, 0x1000 + 40 + 4 * 2]
    );
    assert!(display.char(&font, Point::new(1, 0), b'B', color(WHITE)).is_empty());
    // Row 15 of a character at the height -6 is row 9 of the display.
    let pixels = display.char(&font, Point::new(8, -6), b'A', color(WHITE));
    assert_eq!(pixels, vec![0x1000 + 9 * 40 + 32, 0x1000 + 9 * 40 + 36]);
}

#[test]
fn display_resource_seeks_inside_the_frame() {
    let mut resource = DisplayResource { display: small(), seek: 0 };
    assert_eq!(resource.seek(ResourceSeek::Start(100)), 100);
    assert_eq!(resource.seek(ResourceSeek::Current(50)), 150);
    assert_eq!(resource.seek(ResourceSeek::Current(-200)), 0);
    assert_eq!(resource.seek(ResourceSeek::Current(1000)), 400);
    assert_eq!(resource.seek(ResourceSeek::End(-1)), 399);
    assert_eq!(resource.seek(ResourceSeek::End(5)), 400);
    assert_eq!(resource.seek(ResourceSeek::End(-500)), 0);
    assert_eq!(resource.seek(ResourceSeek::Start(usize::MAX)), 400);
    assert_eq!(resource.seek(ResourceSeek::Current(isize::MIN)), 0);
}

#[test]
fn display_resource_writes_what_fits() {
    let mut resource = DisplayResource { display: small(), seek: 390 };
    assert_eq!(
        resource.write(0x5000, 4),
        (4, Run::Copy { src: 0x5000, dst: 0x1000 + 390, len: 4 })
    );
    assert_eq!(
        resource.write(0x5000, 100),
        (6, Run::Copy { src: 0x5000, dst: 0x1000 + 394, len: 6 })
    );
    assert_eq!(resource.seek, 400);
    assert_eq!(resource.write(0x5000, 1).0, 0);
    assert_eq!(resource.path(), b"display:".to_vec());
    assert_eq!(resource.sync(), None);
    assert_eq!(resource.display.offscreen, 0x9000);
}

#[test]
fn display_scheme_hands_out_the_screen() {
    let mut scheme = DisplayScheme { display: small() };
    assert_eq!(scheme.scheme(), b"display".to_vec());
    assert_eq!(
        scheme.open(&Url::from_str("display:"), 0),
        Ok(DisplayResource { display: small(), seek: 0 })
    );
}

#[test]
fn pixels_are_blended_part_by_part() {
    assert_eq!(blend(0x00FF_FFFF, 0, 255), 0x00FE_FEFE);
    assert_eq!(blend(0x00FF_FFFF, 0, 0), 0);
    assert_eq!(blend(0x0080_4020, 0x0001_0203, 128), 0x0040_2010 + 0x0001_0203);
    assert_eq!(blend(0xFF12_3456, 0x00AB_CDEF, 0), 0x00AB_CDEF);
    // A pixel without alpha changes nothing; an opaque one replaces.
    assert_eq!(over(0x00FF_FFFF, 0x1234_5678), 0x1234_5678);
    assert_eq!(over(0xFF11_2233, 0x1234_5678), 0xFF11_2233);
    assert_eq!(over(0x80FF_0000, 0x0000_00FF), 0x007F_007E);
}

#[test]
fn keys_edit_the_command_line() {
    let key = |character: u8, scancode: u8| KeyEvent { character, scancode, pressed: true };
    let mut console = Console::new(640, 480);
    let mut cmd = Vec::new();
    // While the console is hidden the keys are for the window system.
    assert_eq!(console.typed(&cmd, key(b'a', 0x1E)), Typed::Forward);
    assert_eq!(console.key(&mut cmd, key(b'a', 0x1E), true), (vec![], true));
    assert_eq!(console.key(&mut cmd, KeyEvent { pressed: false, ..key(0, K_F1) }, true), (vec![], true));
    assert_eq!(console.key(&mut cmd, key(0, K_F1), true), (vec![], false));
    assert!(console.draw);
    let (drawn, forward) = console.key(&mut cmd, key(b'l', 0x26), true);
    assert_eq!(drawn.len(), 3);
    assert!(!forward);
    console.key(&mut cmd, key(b's', 0x1F), true);
    console.key(&mut cmd, key(b'x', 0x2D), true);
    assert_eq!(cmd, b"lsx".to_vec());
    assert_eq!(console.point, Point::new(24, 0));
    let (drawn, _) = console.key(&mut cmd, key(8, K_BKSP), true);
    assert_eq!(drawn.len(), 3);
    assert_eq!(cmd, b"ls".to_vec());
    assert_eq!(console.point, Point::new(16, 0));
    // A key that is released and a key without a character do nothing.
    assert_eq!(console.key(&mut cmd, KeyEvent { pressed: false, ..key(b'q', 0x10) }, true), (vec![], false));
    assert_eq!(console.key(&mut cmd, key(0, 0x2A), true), (vec![], false));
    assert_eq!(cmd, b"ls".to_vec());
    let (drawn, _) = console.key(&mut cmd, key(b'\n', 0x1C), true);
    assert_eq!(drawn.len(), 2);
    assert_eq!(console.command, Some(b"ls".to_vec()));
    assert!(cmd.is_empty());
    assert_eq!(console.point, Point::new(0, 16));
    // Backspace on an empty line does nothing.
    assert_eq!(console.key(&mut cmd, key(8, K_BKSP), true), (vec![], false));
    assert!(console.refresh());
    assert!(!console.redraw);
    assert!(!console.refresh());
    assert_eq!(console.key(&mut cmd, key(0, K_F2), true), (vec![], false));
    assert!(!console.draw);
    console.redraw = true;
    assert!(!console.refresh());
    assert!(console.redraw);
}
