use vstd::prelude::*;

verus! {

/// Screen width in character cells.
pub const WIDTH: u16 = 80;

/// Screen height in character rows.
pub const HEIGHT: u16 = 25;

/// Byte size of the text buffer: two bytes per cell, a character byte and a
/// colour attribute byte.
pub const SCREEN_BYTES: usize = 4000;

pub const COLOR_BLACK: u8 = 0x0;

pub const COLOR_BLUE: u8 = 0x1;

pub const COLOR_GREEN: u8 = 0x2;

pub const COLOR_CYAN: u8 = 0x3;

pub const COLOR_RED: u8 = 0x4;

pub const COLOR_MAGENTA: u8 = 0x5;

pub const COLOR_YELLOW: u8 = 0x6;

pub const COLOR_WHITE: u8 = 0x7;

pub const COLOR_LIGHT_BLACK: u8 = 0x8;

pub const COLOR_LIGHT_BLUE: u8 = 0x9;

pub const COLOR_LIGHT_GREEN: u8 = 0xA;

pub const COLOR_LIGHT_CYAN: u8 = 0xB;

pub const COLOR_LIGHT_RED: u8 = 0xC;

pub const COLOR_LIGHT_MAGENTA: u8 = 0xD;

pub const COLOR_LIGHT_YELLOW: u8 = 0xE;

pub const COLOR_LIGHT_WHITE: u8 = 0xF;

/// The abstract state of the text screen: the cursor, the current colours
/// and the cell bytes.
pub struct ScreenV {
    pub x: int,
    pub y: int,
    pub foreground: u8,
    pub background: u8,
    pub cells: Seq<u8>,
}

/// The cursor stays on the screen and the buffer keeps its size.
pub open spec fn spec_screen_wf(s: ScreenV) -> bool {
    &&& 0 <= s.x < WIDTH as int
    &&& 0 <= s.y < HEIGHT as int
    &&& s.cells.len() == SCREEN_BYTES as int
}

/// The colour attribute byte: background in the high nibble, foreground in
/// the low one.
pub open spec fn spec_attr(s: ScreenV) -> u8 {
    (s.background << 4) | s.foreground
}

/// The low byte of a character's code point, as stored in a cell.
pub open spec fn spec_low_byte(c: char) -> u8 {
    c as u8
}

/// The screen scrolled one row up: every row takes the contents of the row
/// below it, and the freed bottom row is blank in the current colours.
pub open spec fn spec_scroll(s: ScreenV) -> ScreenV {
    ScreenV {
        cells: Seq::new(
            SCREEN_BYTES as nat,
            |i: int|
                if i < SCREEN_BYTES as int - 2 * WIDTH as int {
                    s.cells[i + 2 * WIDTH as int]
                } else if i % 2 == 0 {
                    32u8
                } else {
                    spec_attr(s)
                },
        ),
        ..s
    }
}

/// The character byte `b` and the current attribute written at the cursor,
/// without moving it.
pub open spec fn spec_put(s: ScreenV, b: u8) -> ScreenV {
    let idx = 2 * (s.y * WIDTH as int + s.x);
    ScreenV { cells: s.cells.update(idx, b).update(idx + 1, spec_attr(s)), ..s }
}

/// The carriage moved to the start of the next row, scrolling when the
/// cursor is already on the last one.
pub open spec fn spec_newline(s: ScreenV) -> ScreenV {
    if s.y == HEIGHT as int - 1 {
        ScreenV { x: 0, ..spec_scroll(s) }
    } else {
        ScreenV { x: 0, y: s.y + 1, ..s }
    }
}

/// One character printed at the cursor: a newline moves the carriage, any
/// other character is written and the cursor advances, wrapping at the end
/// of a row and scrolling from the bottom-right cell.
pub open spec fn spec_printc(s: ScreenV, c: char) -> ScreenV {
    if c == '\n' {
        spec_newline(s)
    } else {
        let w = spec_put(s, spec_low_byte(c));
        if s.y >= HEIGHT as int - 1 && s.x >= WIDTH as int - 1 {
            ScreenV { x: 0, ..spec_scroll(w) }
        } else if s.x >= WIDTH as int - 1 {
            ScreenV { x: 0, y: s.y + 1, ..w }
        } else {
            ScreenV { x: s.x + 1, ..w }
        }
    }
}

/// A string printed one character at a time, left to right.
pub open spec fn spec_prints(s: ScreenV, cs: Seq<char>) -> ScreenV
    decreases cs.len(),
{
    if cs.len() == 0 {
        s
    } else {
        spec_prints(spec_printc(s, cs[0]), cs.drop_first())
    }
}

/// The cursor stepped one cell back (to the end of the previous row from a
/// row start, staying put at the top-left corner) and that cell blanked.
pub open spec fn spec_delete(s: ScreenV) -> ScreenV {
    if s.x > 0 {
        spec_put(ScreenV { x: s.x - 1, ..s }, 32)
    } else if s.y > 0 {
        spec_put(ScreenV { x: WIDTH as int - 1, y: s.y - 1, ..s }, 32)
    } else {
        s
    }
}

/// Every cell blank in the current colours, the cursor at the top-left.
pub open spec fn spec_clear(s: ScreenV) -> ScreenV {
    ScreenV {
        x: 0,
        y: 0,
        cells: Seq::new(
            SCREEN_BYTES as nat,
            |i: int|
                if i % 2 == 0 {
                    32u8
                } else {
                    spec_attr(s)
                },
        ),
        ..s
    }
}

/// The text screen: cursor position, current colours and an owned mirror of
/// the cell bytes. The kernel flushes the mirror to the video memory and the
/// hardware cursor; the rendering itself is pure buffer arithmetic and lives
/// here.
pub struct Printer {
    pub x: u16,
    pub y: u16,
    pub foreground: u8,
    pub background: u8,
    pub cells: [u8; SCREEN_BYTES],
}

impl View for Printer {
    type V = ScreenV;

    open spec fn view(&self) -> ScreenV {
        ScreenV {
            x: self.x as int,
            y: self.y as int,
            foreground: self.foreground,
            background: self.background,
            cells: self.cells@,
        }
    }
}

impl Printer {
    /// A screen with the cursor at the top-left, white on black, all cells
    /// zero.
    pub fn new() -> (p: Printer)
        ensures
            spec_screen_wf(p@),
            p@.x == 0,
            p@.y == 0,
            p@.foreground == COLOR_WHITE,
            p@.background == COLOR_BLACK,
            forall|i: int| 0 <= i < SCREEN_BYTES ==> p@.cells[i] == 0,
    {
        Printer { x: 0, y: 0, foreground: COLOR_WHITE, background: COLOR_BLACK, cells: [0; SCREEN_BYTES] }
    }

    /// Sets the colours used for subsequent writes.
    pub fn set_colors(&mut self, foreground: u8, background: u8)
        ensures
            final(self)@ == (ScreenV { foreground, background, ..old(self)@ }),
    {
        self.foreground = foreground;
        self.background = background;
    }

    /// Returns to the default colours, white on black.
    pub fn reset_colors(&mut self)
        ensures
            final(self)@ == (ScreenV {
                foreground: COLOR_WHITE,
                background: COLOR_BLACK,
                ..old(self)@
            }),
    {
        self.set_colors(COLOR_WHITE, COLOR_BLACK)
    }

    /// Copies every row up over the one above it and blanks the freed
    /// bottom row in the current colours.
    #[verifier::loop_isolation(false)]
    pub fn scroll(&mut self)
        requires
            spec_screen_wf(old(self)@),
        ensures
            spec_screen_wf(final(self)@),
            final(self)@ == spec_scroll(old(self)@),
    {
        let mut i: usize = 0;
        while i < SCREEN_BYTES - 160
            invariant
                i <= SCREEN_BYTES - 160,
                self.x == old(self).x,
                self.y == old(self).y,
                self.foreground == old(self).foreground,
                self.background == old(self).background,
                forall|j: int| 0 <= j < i ==> self.cells@[j] == old(self).cells@[j + 160],
                forall|j: int| i <= j < SCREEN_BYTES ==> self.cells@[j] == old(self).cells@[j],
            decreases SCREEN_BYTES - 160 - i,
        {
            self.cells[i] = self.cells[i + 160];
            i = i + 1;
        }
        let attr: u8 = (self.background << 4) | self.foreground;
        let mut i: usize = SCREEN_BYTES - 160;
        while i < SCREEN_BYTES
            invariant
                SCREEN_BYTES - 160 <= i <= SCREEN_BYTES,
                i % 2 == 0,
                attr == spec_attr(old(self)@),
                self.x == old(self).x,
                self.y == old(self).y,
                self.foreground == old(self).foreground,
                self.background == old(self).background,
                forall|j: int|
                    0 <= j < SCREEN_BYTES - 160 ==> self.cells@[j] == old(self).cells@[j + 160],
                forall|j: int|
                    SCREEN_BYTES - 160 <= j < i ==> self.cells@[j] == (if j % 2 == 0 {
                        32u8
                    } else {
                        spec_attr(old(self)@)
                    }),
            decreases SCREEN_BYTES - i,
        {
            self.cells[i] = 32;
            self.cells[i + 1] = attr;
            i = i + 2;
        }
        proof {
            assert(self@.cells =~= spec_scroll(old(self)@).cells);
        }
    }

    /// Moves the carriage to the start of the next row, scrolling from the
    /// last one.
    pub fn new_line(&mut self)
        requires
            spec_screen_wf(old(self)@),
        ensures
            spec_screen_wf(final(self)@),
            final(self)@ == spec_newline(old(self)@),
    {
        if self.y == HEIGHT - 1 {
            self.scroll();
        } else {
            self.y = self.y + 1;
        }
        self.x = 0;
    }

    /// Prints one character at the cursor.
    pub fn printc(&mut self, c: char)
        requires
            spec_screen_wf(old(self)@),
        ensures
            spec_screen_wf(final(self)@),
            final(self)@ == spec_printc(old(self)@, c),
    {
        if c == '\n' {
            self.new_line();
            return ;
        }
        let b: u8 = #[verifier::truncate] (c as u8);
        let row: usize = self.y as usize;
        let col: usize = self.x as usize;
        proof {
            assert(row as int * (WIDTH as usize) as int <= 24 * 80) by (nonlinear_arith)
                requires
                    row as int <= 24,
                    (WIDTH as usize) as int == 80,
            ;
        }
        let idx: usize = 2 * (row * (WIDTH as usize) + col);
        let attr: u8 = (self.background << 4) | self.foreground;
        self.cells[idx] = b;
        self.cells[idx + 1] = attr;
        if self.y >= HEIGHT - 1 && self.x >= WIDTH - 1 {
            self.scroll();
            self.x = 0;
        } else if self.x >= WIDTH - 1 {
            self.x = 0;
            self.y = self.y + 1;
        } else {
            self.x = self.x + 1;
        }
    }

    /// Prints a string one character at a time.
    #[verifier::loop_isolation(false)]
    pub fn prints(&mut self, s: &str)
        requires
            spec_screen_wf(old(self)@),
        ensures
            spec_screen_wf(final(self)@),
            final(self)@ == spec_prints(old(self)@, s@),
    {
        let n = s.unicode_len();
        let mut i: usize = 0;
        proof {
            assert(s@.skip(0) =~= s@);
        }
        while i < n
            invariant
                i <= n,
                spec_screen_wf(self@),
                spec_prints(old(self)@, s@) == spec_prints(self@, s@.skip(i as int)),
            decreases n - i,
        {
            let c = s.get_char(i);
            proof {
                assert(s@.skip(i as int)[0] == s@[i as int]);
                assert(s@.skip(i as int).drop_first() =~= s@.skip(i + 1));
            }
            self.printc(c);
            i = i + 1;
        }
        proof {
            assert(s@.skip(n as int) =~= Seq::<char>::empty());
        }
    }

    /// Steps the cursor one cell back and blanks that cell; at the top-left
    /// corner nothing changes.
    pub fn delete(&mut self)
        requires
            spec_screen_wf(old(self)@),
        ensures
            spec_screen_wf(final(self)@),
            final(self)@ == spec_delete(old(self)@),
    {
        if self.x > 0 {
            self.x = self.x - 1;
        } else if self.y > 0 {
            self.y = self.y - 1;
            self.x = WIDTH - 1;
        } else {
            return ;
        }
        let row: usize = self.y as usize;
        let col: usize = self.x as usize;
        proof {
            assert(row as int * (WIDTH as usize) as int <= 24 * 80) by (nonlinear_arith)
                requires
                    row as int <= 24,
                    (WIDTH as usize) as int == 80,
            ;
        }
        let idx: usize = 2 * (row * (WIDTH as usize) + col);
        let attr: u8 = (self.background << 4) | self.foreground;
        self.cells[idx] = 32;
        self.cells[idx + 1] = attr;
    }

    /// Blanks the whole screen in the current colours and homes the cursor.
    #[verifier::loop_isolation(false)]
    pub fn clear(&mut self)
        requires
            spec_screen_wf(old(self)@),
        ensures
            spec_screen_wf(final(self)@),
            final(self)@ == spec_clear(old(self)@),
    {
        self.x = 0;
        self.y = 0;
        let attr: u8 = (self.background << 4) | self.foreground;
        let mut i: usize = 0;
        while i < SCREEN_BYTES
            invariant
                i <= SCREEN_BYTES,
                i % 2 == 0,
                self.x == 0,
                self.y == 0,
                self.foreground == old(self).foreground,
                self.background == old(self).background,
                attr == spec_attr(old(self)@),
                forall|j: int|
                    0 <= j < i ==> self.cells@[j] == (if j % 2 == 0 {
                        32u8
                    } else {
                        spec_attr(old(self)@)
                    }),
            decreases SCREEN_BYTES - i,
        {
            self.cells[i] = 32;
            self.cells[i + 1] = attr;
            i = i + 2;
        }
        proof {
            assert(self@.cells =~= spec_clear(old(self)@).cells);
        }
    }
}

} // verus!
