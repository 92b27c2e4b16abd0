//! The screen writer: a stateful writer over a fixed grid of character
//! cells, each cell holding a glyph byte and a colour attribute byte.

use vstd::prelude::*;
use vstd::string::StringSliceAdditionalSpecFns;

use crate::model::{
    after_glyph, after_line_feed, blank_grid, cell_written, grid_before_place, offset_for,
    row_shifted_left, run, run_fits, scrolled, ScreenView, BUF_BYTES, BUF_CELLS, BUF_HEIGHT,
    BUF_WIDTH, LINE_FEED,
};

verus! {

/// One grid cell as written to the backing store: a glyph byte and a colour
/// attribute byte (background nibble high, foreground nibble low).
pub struct AsciiChar {
    pub char_byte: u8,
    pub color_byte: u8,
}

/// Where new characters land on the active row.
#[derive(PartialEq, Eq, Structural)]
pub enum Alignment {
    Left,
    Right,
    Center,
}

/// The sixteen named colours a nibble can hold.
pub enum Color {
    Black,
    DarkBlue,
    Green,
    Blue,
    Red,
    Purple,
    Brown,
    LightGrey,
    DarkGrey,
    BrightBlue,
    LightGreen,
    LightBlue,
    LightRed,
    Pink,
    Yellow,
    White,
}

/// The 4-bit code of a named colour.
pub open spec fn color_code(c: Color) -> u8 {
    match c {
        Color::Black => 0x0,
        Color::DarkBlue => 0x1,
        Color::Green => 0x2,
        Color::Blue => 0x3,
        Color::Red => 0x4,
        Color::Purple => 0x5,
        Color::Brown => 0x6,
        Color::LightGrey => 0x7,
        Color::DarkGrey => 0x8,
        Color::BrightBlue => 0x9,
        Color::LightGreen => 0xa,
        Color::LightBlue => 0xb,
        Color::LightRed => 0xc,
        Color::Pink => 0xd,
        Color::Yellow => 0xe,
        Color::White => 0xf,
    }
}

/// The glyph bytes of the greeting, in order.
pub open spec fn hello_glyphs() -> Seq<u8> {
    seq![72u8, 101u8, 108u8, 108u8, 111u8, 32u8, 119u8, 111u8, 114u8, 108u8, 100u8, 33u8]
}

/// A stateful writer over the grid. It owns the backing store: a linear
/// byte buffer of length `BUF_BYTES`, two bytes per cell in row-major order.
pub struct Screen {
    buffer: Vec<u8>,
    color: u8,
    bg_color: u8,
    align: Alignment,
    line_pointer: u32,
    char_count: u32,
}

impl View for Screen {
    type V = ScreenView;

    closed spec fn view(&self) -> ScreenView {
        ScreenView {
            grid: self.buffer@,
            attr: (self.bg_color << 4) | self.color,
            align: self.align,
            line: self.line_pointer as nat,
            count: self.char_count as nat,
        }
    }
}

impl Screen {
    /// Well-formed: the backing store has its fixed size and the active row
    /// is on the grid. Every method keeps this.
    pub open spec fn wf(&self) -> bool {
        self@.wf()
    }

    /// Makes a screen with the given colours and alignment, bound to a fresh
    /// blank backing store (glyph 0 everywhere, with the chosen colours).
    pub fn new(color: Color, bg_color: Color, align: Alignment) -> (s: Screen)
        ensures
            s.wf(),
            s@.attr == ((color_code(bg_color) << 4) | color_code(color)),
            s@.grid == blank_grid(s@.attr),
            s@.align == align,
            s@.line == 0,
            s@.count == 0,
    {
        let fg: u8 = match color {
            Color::Black => 0x0,
            Color::DarkBlue => 0x1,
            Color::Green => 0x2,
            Color::Blue => 0x3,
            Color::Red => 0x4,
            Color::Purple => 0x5,
            Color::Brown => 0x6,
            Color::LightGrey => 0x7,
            Color::DarkGrey => 0x8,
            Color::BrightBlue => 0x9,
            Color::LightGreen => 0xa,
            Color::LightBlue => 0xb,
            Color::LightRed => 0xc,
            Color::Pink => 0xd,
            Color::Yellow => 0xe,
            Color::White => 0xf,
        };
        let bg: u8 = match bg_color {
            Color::Black => 0x0,
            Color::DarkBlue => 0x1,
            Color::Green => 0x2,
            Color::Blue => 0x3,
            Color::Red => 0x4,
            Color::Purple => 0x5,
            Color::Brown => 0x6,
            Color::LightGrey => 0x7,
            Color::DarkGrey => 0x8,
            Color::BrightBlue => 0x9,
            Color::LightGreen => 0xa,
            Color::LightBlue => 0xb,
            Color::LightRed => 0xc,
            Color::Pink => 0xd,
            Color::Yellow => 0xe,
            Color::White => 0xf,
        };
        let attr: u8 = (bg << 4) | fg;
        let mut buffer: Vec<u8> = Vec::new();
        let mut k: u32 = 0;
        while k < BUF_CELLS
            invariant
                k <= BUF_CELLS,
                buffer@.len() == 2 * k,
                forall|i: int|
                    0 <= i < buffer@.len() ==> buffer@[i] == (if i % 2 == 0 {
                        0u8
                    } else {
                        attr
                    }),
            decreases BUF_CELLS - k,
        {
            buffer.push(0);
            buffer.push(attr);
            k = k + 1;
        }
        proof {
            assert(buffer@ =~= blank_grid(attr));
        }
        Screen { buffer, color: fg, bg_color: bg, align, line_pointer: 0, char_count: 0 }
    }

    /// Writes one cell at a row-major offset, two backing-store bytes. The
    /// store itself has no bounds enforcement, so the offset must already be
    /// on the grid.
    pub fn write_char(&mut self, offset: u32, ch: AsciiChar)
        requires
            old(self).wf(),
            offset < BUF_CELLS,
        ensures
            final(self).wf(),
            final(self)@.grid == cell_written(
                old(self)@.grid,
                offset as int,
                ch.char_byte,
                ch.color_byte,
            ),
            final(self)@.attr == old(self)@.attr,
            final(self)@.align == old(self)@.align,
            final(self)@.line == old(self)@.line,
            final(self)@.count == old(self)@.count,
    {
        let idx: usize = (offset as usize) * 2;
        self.buffer.set(idx, ch.char_byte);
        self.buffer.set(idx + 1, ch.color_byte);
    }

    /// Shifts the given row's cells one column left: columns `0 ..= W-2`
    /// each take the value of the column to their right, dropping column 0's
    /// old content; the last column keeps its value.
    fn one_pos_left_offset(&mut self, line_number: u32)
        requires
            old(self).wf(),
            line_number < BUF_HEIGHT,
        ensures
            final(self).wf(),
            final(self)@.grid == row_shifted_left(old(self)@.grid, line_number as int),
            final(self)@.attr == old(self)@.attr,
            final(self)@.align == old(self)@.align,
            final(self)@.line == old(self)@.line,
            final(self)@.count == old(self)@.count,
    {
        let mut j: u32 = 0;
        while j < BUF_WIDTH - 1
            invariant
                line_number < BUF_HEIGHT,
                j <= BUF_WIDTH - 1,
                self.wf(),
                self@.attr == old(self)@.attr,
                self@.align == old(self)@.align,
                self@.line == old(self)@.line,
                self@.count == old(self)@.count,
                forall|k: int|
                    0 <= k < BUF_BYTES ==> self@.grid[k] == (if 2 * (line_number as int) * (
                    BUF_WIDTH as int) <= k < 2 * ((line_number as int) * (BUF_WIDTH as int)
                        + j) {
                        old(self)@.grid[k + 2]
                    } else {
                        old(self)@.grid[k]
                    }),
            decreases BUF_WIDTH - 1 - j,
        {
            let src = self.read_char(line_number * BUF_WIDTH + j + 1);
            self.write_char(line_number * BUF_WIDTH + j, src);
            j = j + 1;
        }
        proof {
            assert(self@.grid =~= row_shifted_left(old(self)@.grid, line_number as int));
        }
    }

    /// Scrolls the visible area: row `i` takes a copy of row `i + 1`'s
    /// contents for every row but the last, top to bottom so no source row
    /// is overwritten before it is read, and the last row is blanked to
    /// glyph 0 with the current colours.
    fn lift_up(&mut self)
        requires
            old(self).wf(),
        ensures
            final(self).wf(),
            final(self)@.grid == scrolled(old(self)@.grid, old(self)@.attr),
            final(self)@.attr == old(self)@.attr,
            final(self)@.align == old(self)@.align,
            final(self)@.line == old(self)@.line,
            final(self)@.count == old(self)@.count,
    {
        let mut i: u32 = 0;
        while i < BUF_HEIGHT - 1
            invariant
                i <= BUF_HEIGHT - 1,
                self.wf(),
                self@.attr == old(self)@.attr,
                self@.align == old(self)@.align,
                self@.line == old(self)@.line,
                self@.count == old(self)@.count,
                forall|k: int|
                    0 <= k < BUF_BYTES ==> self@.grid[k] == (if k < 2 * (i as int) * (
                    BUF_WIDTH as int) {
                        old(self)@.grid[k + 2 * (BUF_WIDTH as int)]
                    } else {
                        old(self)@.grid[k]
                    }),
            decreases BUF_HEIGHT - 1 - i,
        {
            let mut j: u32 = 0;
            while j < BUF_WIDTH
                invariant
                    i < BUF_HEIGHT - 1,
                    j <= BUF_WIDTH,
                    self.wf(),
                    self@.attr == old(self)@.attr,
                    self@.align == old(self)@.align,
                    self@.line == old(self)@.line,
                    self@.count == old(self)@.count,
                    forall|k: int|
                        0 <= k < BUF_BYTES ==> self@.grid[k] == (if k < 2 * ((i as int) * (
                        BUF_WIDTH as int) + j) {
                            old(self)@.grid[k + 2 * (BUF_WIDTH as int)]
                        } else {
                            old(self)@.grid[k]
                        }),
                decreases BUF_WIDTH - j,
            {
                let src = self.read_char((i + 1) * BUF_WIDTH + j);
                self.write_char(i * BUF_WIDTH + j, src);
                j = j + 1;
            }
            i = i + 1;
        }
        let attr: u8 = (self.bg_color << 4) | self.color;
        let mut j: u32 = 0;
        while j < BUF_WIDTH
            invariant
                j <= BUF_WIDTH,
                self.wf(),
                self@.attr == old(self)@.attr,
                self@.align == old(self)@.align,
                self@.line == old(self)@.line,
                self@.count == old(self)@.count,
                attr == old(self)@.attr,
                forall|k: int|
                    0 <= k < BUF_BYTES ==> self@.grid[k] == (if k < 2 * ((BUF_HEIGHT as int) - 1)
                        * (BUF_WIDTH as int) {
                        old(self)@.grid[k + 2 * (BUF_WIDTH as int)]
                    } else if k < 2 * (((BUF_HEIGHT as int) - 1) * (BUF_WIDTH as int) + j) {
                        if k % 2 == 0 {
                            0u8
                        } else {
                            attr
                        }
                    } else {
                        old(self)@.grid[k]
                    }),
            decreases BUF_WIDTH - j,
        {
            self.write_char(
                (BUF_HEIGHT - 1) * BUF_WIDTH + j,
                AsciiChar { char_byte: 0, color_byte: attr },
            );
            j = j + 1;
        }
        proof {
            assert(self@.grid =~= scrolled(old(self)@.grid, old(self)@.attr));
        }
    }

    /// Breaks the line: on the last row scrolls and stays there, otherwise
    /// advances the active row; the character count resets either way.
    fn new_line(&mut self)
        requires
            old(self).wf(),
        ensures
            final(self).wf(),
            final(self)@ == after_line_feed(old(self)@),
    {
        if self.line_pointer + 1 == BUF_HEIGHT {
            self.lift_up();
        } else {
            self.line_pointer = self.line_pointer + 1;
        }
        self.char_count = 0;
        proof {
            assert(self@ =~= after_line_feed(old(self)@));
        }
    }

    /// Computes the cell offset at which the next glyph lands on the active
    /// row, by the alignment policy, first shifting the row one column left
    /// where the policy says so (always under right alignment, on every odd
    /// count under centre alignment).
    pub fn calc_offset(&mut self) -> (offset: u32)
        requires
            old(self).wf(),
            offset_for(old(self)@) <= u32::MAX,
        ensures
            final(self).wf(),
            offset == offset_for(old(self)@),
            final(self)@.grid == grid_before_place(old(self)@),
            final(self)@.attr == old(self)@.attr,
            final(self)@.align == old(self)@.align,
            final(self)@.line == old(self)@.line,
            final(self)@.count == old(self)@.count,
    {
        if self.align == Alignment::Right {
            self.one_pos_left_offset(self.line_pointer);
            return BUF_WIDTH - 1 + self.line_pointer * BUF_WIDTH;
        } else if self.align == Alignment::Center {
            if self.char_count != 0 && self.char_count % 2 == 1 {
                self.one_pos_left_offset(self.line_pointer);
            }
            return BUF_WIDTH / 2 - 1 + self.char_count / 2 + self.line_pointer * BUF_WIDTH;
        }
        return self.char_count + self.line_pointer * BUF_WIDTH;
    }

    /// Writes the greeting's twelve glyphs to the first twelve cells of the
    /// top row with the current colours; the rest of the grid and the cursor
    /// state stay as they were.
    pub fn print_hello_world(&mut self)
        requires
            old(self).wf(),
        ensures
            final(self).wf(),
            forall|k: int|
                0 <= k < 12 ==> final(self)@.grid[2 * k] == hello_glyphs()[k],
            forall|k: int|
                0 <= k < 12 ==> #[trigger] final(self)@.grid[2 * k + 1] == old(self)@.attr,
            forall|k: int| 24 <= k < BUF_BYTES ==> final(self)@.grid[k] == old(self)@.grid[k],
            final(self)@.attr == old(self)@.attr,
            final(self)@.align == old(self)@.align,
            final(self)@.line == old(self)@.line,
            final(self)@.count == old(self)@.count,
    {
        let text = "Hello world!";
        let bs = text.as_bytes();
        proof {
            reveal_strlit("Hello world!");
            assert(vstd::string::is_ascii(text));
            vstd::string::is_ascii_spec_bytes(text);
            assert(bs@ =~= hello_glyphs());
        }
        let mut i: u32 = 0;
        while i < 12
            invariant
                i <= 12,
                self.wf(),
                bs@ == hello_glyphs(),
                bs@.len() == 12,
                self@.attr == old(self)@.attr,
                self@.align == old(self)@.align,
                self@.line == old(self)@.line,
                self@.count == old(self)@.count,
                forall|k: int| 0 <= k < i ==> self@.grid[2 * k] == hello_glyphs()[k],
                forall|k: int| 0 <= k < i ==> #[trigger] self@.grid[2 * k + 1] == old(self)@.attr,
                forall|k: int| 2 * i <= k < BUF_BYTES ==> self@.grid[k] == old(self)@.grid[k],
            decreases 12 - i,
        {
            let byte = bs[i as usize];
            self.write_char(
                i,
                AsciiChar { char_byte: byte, color_byte: (self.bg_color << 4) | self.color },
            );
            i = i + 1;
        }
    }

    /// Writes every byte of `s` in order: a line feed breaks the line and
    /// takes no cell; any other byte is placed as a glyph by the alignment
    /// policy, with the current colours, and counted on the active row.
    pub fn print(&mut self, s: &str)
        requires
            old(self).wf(),
            run_fits(old(self)@, s.spec_bytes()),
        ensures
            final(self).wf(),
            final(self)@ == run(old(self)@, s.spec_bytes()),
    {
        let bs = s.as_bytes();
        let n = bs.len();
        let mut i: usize = 0;
        proof {
            assert(bs@.skip(0) =~= bs@);
        }
        while i < n
            invariant
                self.wf(),
                i <= n,
                n == bs@.len(),
                bs@ == s.spec_bytes(),
                run(self@, bs@.skip(i as int)) == run(old(self)@, bs@),
                run_fits(self@, bs@.skip(i as int)),
            decreases n - i,
        {
            let b = bs[i];
            proof {
                assert(bs@.skip(i as int)[0] == b);
                assert(bs@.skip(i as int).skip(1) =~= bs@.skip(i as int + 1));
            }
            if b == LINE_FEED {
                self.new_line();
            } else {
                let ghost pre = self@;
                let offset = self.calc_offset();
                let ch = AsciiChar {
                    char_byte: b,
                    color_byte: (self.bg_color << 4) | self.color,
                };
                self.write_char(offset, ch);
                self.char_count = self.char_count + 1;
                proof {
                    assert(self@ =~= after_glyph(pre, b));
                }
            }
            i = i + 1;
        }
        proof {
            assert(bs@.skip(n as int) =~= Seq::<u8>::empty());
        }
    }

    /// The active row: the row the next glyph lands on.
    pub fn current_row(&self) -> (row: u32)
        ensures
            row == self@.line,
    {
        self.line_pointer
    }

    /// How many glyphs have been placed on the active row since the last
    /// line break.
    pub fn chars_on_current_row(&self) -> (count: u32)
        ensures
            count == self@.count,
    {
        self.char_count
    }

    /// Reads one cell at a row-major offset.
    pub fn read_char(&self, offset: u32) -> (ch: AsciiChar)
        requires
            self.wf(),
            offset < BUF_CELLS,
        ensures
            ch.char_byte == self@.grid[2 * (offset as int)],
            ch.color_byte == self@.grid[2 * (offset as int) + 1],
    {
        let idx: usize = (offset as usize) * 2;
        AsciiChar { char_byte: self.buffer[idx], color_byte: self.buffer[idx + 1] }
    }
}

} // verus!
