//! Mathematical model of the character grid and of the writer.
//!
//! The backing store is modelled as a byte sequence of length `BUF_BYTES`:
//! byte `2*(row*BUF_WIDTH + col)` holds the glyph of the cell at `(row, col)`
//! and the following byte its colour attribute (background nibble high,
//! foreground nibble low). `ScreenView` is the abstract state of a writer;
//! `step` says what writing one byte does to it, and `run` folds `step` over
//! a whole byte sequence.

use vstd::prelude::*;

use crate::screen::Alignment;

verus! {

/// Number of character columns of the grid.
pub const BUF_WIDTH: u32 = 80;

/// Number of character rows of the grid.
pub const BUF_HEIGHT: u32 = 25;

/// Number of cells of the grid.
pub const BUF_CELLS: u32 = BUF_WIDTH * BUF_HEIGHT;

/// Length in bytes of the backing store: two bytes for each cell.
pub const BUF_BYTES: u32 = 2 * BUF_WIDTH * BUF_HEIGHT;

/// The byte that breaks a line instead of occupying a cell.
pub const LINE_FEED: u8 = 10;

/// Abstract state of a screen: the backing store's bytes, the colour
/// attribute given to new cells, the alignment policy, and the cursor state
/// (active row and number of glyphs placed on it since the last line break).
#[verifier::ext_equal]
pub ghost struct ScreenView {
    pub grid: Seq<u8>,
    pub attr: u8,
    pub align: Alignment,
    pub line: nat,
    pub count: nat,
}

impl ScreenView {
    /// The backing store has its fixed size and the active row is on the grid.
    pub open spec fn wf(self) -> bool {
        self.grid.len() == BUF_BYTES && self.line < BUF_HEIGHT
    }
}

/// Glyph byte of the cell at `(row, col)`.
pub open spec fn glyph_at(grid: Seq<u8>, row: int, col: int) -> u8 {
    grid[2 * (row * (BUF_WIDTH as int) + col)]
}

/// Attribute byte of the cell at `(row, col)`.
pub open spec fn attr_at(grid: Seq<u8>, row: int, col: int) -> u8 {
    grid[2 * (row * (BUF_WIDTH as int) + col) + 1]
}

/// The grid after writing the cell at row-major offset `off`.
pub open spec fn cell_written(grid: Seq<u8>, off: int, glyph: u8, attr: u8) -> Seq<u8> {
    grid.update(2 * off, glyph).update(2 * off + 1, attr)
}

/// The grid after shifting row `row` one column left: each of the columns
/// `0 ..= BUF_WIDTH - 2` takes the value of the column to its right, column
/// 0's old content is dropped, and the last column keeps its value.
pub open spec fn row_shifted_left(grid: Seq<u8>, row: int) -> Seq<u8> {
    Seq::new(
        grid.len(),
        |i: int|
            if 2 * row * (BUF_WIDTH as int) <= i
                < 2 * (row * (BUF_WIDTH as int) + (BUF_WIDTH as int) - 1) {
                grid[i + 2]
            } else {
                grid[i]
            },
    )
}

/// The grid after a scroll: each row but the last takes the next row's
/// contents, and the last row is blanked to glyph 0 with attribute `attr`.
pub open spec fn scrolled(grid: Seq<u8>, attr: u8) -> Seq<u8> {
    Seq::new(
        grid.len(),
        |i: int|
            if i < 2 * ((BUF_HEIGHT as int) - 1) * (BUF_WIDTH as int) {
                grid[i + 2 * (BUF_WIDTH as int)]
            } else if i % 2 == 0 {
                0u8
            } else {
                attr
            },
    )
}

/// A blank backing store: every glyph 0, every attribute `attr`.
pub open spec fn blank_grid(attr: u8) -> Seq<u8> {
    Seq::new(BUF_BYTES as nat, |i: int| if i % 2 == 0 { 0u8 } else { attr })
}

/// Row-major cell offset at which the next glyph lands, by the alignment
/// policy: left fills left to right, right always writes the last column,
/// centre grows outward from the middle.
pub open spec fn offset_for(s: ScreenView) -> int {
    if s.align == Alignment::Right {
        (BUF_WIDTH as int) - 1 + s.line * (BUF_WIDTH as int)
    } else if s.align == Alignment::Center {
        (BUF_WIDTH as int) / 2 - 1 + s.count / 2 + s.line * (BUF_WIDTH as int)
    } else {
        s.count + s.line * (BUF_WIDTH as int)
    }
}

/// Whether placing a glyph first shifts the active row one column left:
/// always under right alignment, and on every odd count under centre
/// alignment, so that the line grows alternately right then left.
pub open spec fn shifts_before_place(s: ScreenView) -> bool {
    s.align == Alignment::Right || (s.align == Alignment::Center && s.count != 0 && s.count % 2
        == 1)
}

/// The grid as the placement finds it, after the alignment policy's shift.
pub open spec fn grid_before_place(s: ScreenView) -> Seq<u8> {
    if shifts_before_place(s) {
        row_shifted_left(s.grid, s.line as int)
    } else {
        s.grid
    }
}

/// State after placing one glyph byte `b` with the current colours.
pub open spec fn after_glyph(s: ScreenView, b: u8) -> ScreenView {
    ScreenView {
        grid: cell_written(grid_before_place(s), offset_for(s), b, s.attr),
        count: (s.count + 1) as nat,
        ..s
    }
}

/// State after a line break: a scroll on the last row (the row stays put),
/// otherwise the row advances; the character count resets either way.
pub open spec fn after_line_feed(s: ScreenView) -> ScreenView {
    if s.line + 1 == BUF_HEIGHT {
        ScreenView { grid: scrolled(s.grid, s.attr), count: 0, ..s }
    } else {
        ScreenView { line: (s.line + 1) as nat, count: 0, ..s }
    }
}

/// What writing one byte does: a line feed breaks the line and takes no
/// cell; any other byte is placed as a glyph.
pub open spec fn step(s: ScreenView, b: u8) -> ScreenView {
    if b == LINE_FEED {
        after_line_feed(s)
    } else {
        after_glyph(s, b)
    }
}

/// State after writing a whole byte sequence, front to back.
pub open spec fn run(s: ScreenView, bytes: Seq<u8>) -> ScreenView
    decreases bytes.len(),
{
    if bytes.len() == 0 {
        s
    } else {
        run(step(s, bytes[0]), bytes.skip(1))
    }
}

/// The one write this byte causes stays on the grid and the count fits the
/// machine word. The backing store has no bounds check of its own, so the
/// writer's caller owes this of every byte it hands over.
pub open spec fn byte_fits(s: ScreenView, b: u8) -> bool {
    b == LINE_FEED || (offset_for(s) < BUF_CELLS as int && s.count < u32::MAX)
}

/// `byte_fits` holds at every intermediate state of writing `bytes` from `s`.
pub open spec fn run_fits(s: ScreenView, bytes: Seq<u8>) -> bool
    decreases bytes.len(),
{
    bytes.len() == 0 || (byte_fits(s, bytes[0]) && run_fits(step(s, bytes[0]), bytes.skip(1)))
}

/// No byte of `bytes` is a line feed.
pub open spec fn no_line_feed(bytes: Seq<u8>) -> bool {
    forall|i: int| 0 <= i < bytes.len() ==> bytes[i] != LINE_FEED
}

} // verus!
