//! Laws of the writer, proved over the model.

use vstd::prelude::*;

use crate::model::{
    after_line_feed, attr_at, byte_fits, cell_written, glyph_at, no_line_feed, offset_for,
    row_shifted_left, run, run_fits, step, ScreenView, BUF_BYTES, BUF_HEIGHT, BUF_WIDTH, LINE_FEED,
};
use crate::screen::Alignment;

verus! {

/// Writing one byte whose placement lands on the grid keeps the state well
/// formed.
pub proof fn lemma_step_wf(s: ScreenView, b: u8)
    requires
        s.wf(),
        byte_fits(s, b),
    ensures
        step(s, b).wf(),
{
}

/// Writing any byte sequence whose placements all land on the grid keeps
/// the state well formed.
pub proof fn lemma_run_wf(s: ScreenView, bytes: Seq<u8>)
    requires
        s.wf(),
        run_fits(s, bytes),
    ensures
        run(s, bytes).wf(),
    decreases bytes.len(),
{
    if bytes.len() > 0 {
        lemma_step_wf(s, bytes[0]);
        lemma_run_wf(step(s, bytes[0]), bytes.skip(1));
    }
}

/// Total write: from the top row, a text of at most a thousand bytes none
/// of which is a line feed is written whole — every placement lands on the
/// grid, whatever the alignment — and afterwards the cursor is still on the
/// top row with its count grown by the text's length.
pub proof fn lemma_total_write(s: ScreenView, bytes: Seq<u8>)
    requires
        s.wf(),
        s.line == 0,
        no_line_feed(bytes),
        s.count + bytes.len() <= 1000,
    ensures
        run_fits(s, bytes),
        run(s, bytes).wf(),
        run(s, bytes).line == 0,
        run(s, bytes).count == s.count + bytes.len(),
    decreases bytes.len(),
{
    if bytes.len() > 0 {
        let b = bytes[0];
        assert(b != LINE_FEED);
        assert(byte_fits(s, b));
        lemma_step_wf(s, b);
        lemma_total_write(step(s, b), bytes.skip(1));
    }
}

/// A sequence of `k` line feeds.
pub open spec fn line_feeds(k: nat) -> Seq<u8> {
    Seq::new(k, |i: int| LINE_FEED)
}

/// Line breaks below the last row only move the cursor: writing `k` line
/// feeds from a row at least `k` above the bottom leaves every cell as it
/// was, advances the row by `k`, and resets the count on each break.
pub proof fn lemma_line_feeds_no_scroll(s: ScreenView, k: nat)
    requires
        s.wf(),
        s.line + k < BUF_HEIGHT,
    ensures
        run_fits(s, line_feeds(k)),
        run(s, line_feeds(k)).grid == s.grid,
        run(s, line_feeds(k)).line == s.line + k,
        run(s, line_feeds(k)).count == if k == 0 {
            s.count
        } else {
            0nat
        },
        run(s, line_feeds(k)).attr == s.attr,
        run(s, line_feeds(k)).align == s.align,
    decreases k,
{
    if k > 0 {
        let s1 = step(s, LINE_FEED);
        assert(line_feeds(k)[0] == LINE_FEED);
        assert(line_feeds(k).skip(1) =~= line_feeds((k - 1) as nat));
        lemma_line_feeds_no_scroll(s1, (k - 1) as nat);
    }
}

/// Scroll ordering: a line break on the last row gives every row but the
/// last the old contents of the row below it, blanks the last row to glyph
/// 0 with the current colours, and keeps the cursor on the last row with a
/// reset count.
pub proof fn lemma_scroll(s: ScreenView)
    requires
        s.wf(),
        s.line == BUF_HEIGHT - 1,
    ensures
        after_line_feed(s).wf(),
        after_line_feed(s) == step(s, LINE_FEED),
        after_line_feed(s).line == s.line,
        after_line_feed(s).count == 0,
        after_line_feed(s).attr == s.attr,
        after_line_feed(s).align == s.align,
        forall|r: int, c: int|
            0 <= r < BUF_HEIGHT - 1 && 0 <= c < BUF_WIDTH ==> glyph_at(
                after_line_feed(s).grid,
                r,
                c,
            ) == glyph_at(s.grid, r + 1, c),
        forall|r: int, c: int|
            0 <= r < BUF_HEIGHT - 1 && 0 <= c < BUF_WIDTH ==> attr_at(
                after_line_feed(s).grid,
                r,
                c,
            ) == attr_at(s.grid, r + 1, c),
        forall|c: int|
            0 <= c < BUF_WIDTH ==> #[trigger] glyph_at(
                after_line_feed(s).grid,
                (BUF_HEIGHT - 1) as int,
                c,
            ) == 0,
        forall|c: int|
            0 <= c < BUF_WIDTH ==> #[trigger] attr_at(
                after_line_feed(s).grid,
                (BUF_HEIGHT - 1) as int,
                c,
            ) == s.attr,
{
}

/// Right alignment: writing `n` bytes, none a line feed, keeps the cursor's
/// row, raises the count by `n`, and leaves the active row showing the last
/// up-to-`W` bytes in input order against the right edge: column `c` shows
/// the old column `c + n` where that is still on the row, and byte
/// `c + n - W` of the text otherwise. Every other row keeps every byte.
pub proof fn lemma_right_alignment(s: ScreenView, bytes: Seq<u8>)
    requires
        s.wf(),
        s.align == Alignment::Right,
        no_line_feed(bytes),
        s.count + bytes.len() < u32::MAX,
    ensures
        run_fits(s, bytes),
        run(s, bytes).wf(),
        run(s, bytes).line == s.line,
        run(s, bytes).count == s.count + bytes.len(),
        run(s, bytes).attr == s.attr,
        run(s, bytes).align == s.align,
        forall|c: int|
            0 <= c < BUF_WIDTH ==> glyph_at(run(s, bytes).grid, s.line as int, c) == (if c
                + bytes.len() < BUF_WIDTH {
                glyph_at(s.grid, s.line as int, c + bytes.len())
            } else {
                bytes[c + bytes.len() - BUF_WIDTH]
            }),
        forall|c: int|
            0 <= c < BUF_WIDTH ==> attr_at(run(s, bytes).grid, s.line as int, c) == (if c
                + bytes.len() < BUF_WIDTH {
                attr_at(s.grid, s.line as int, c + bytes.len())
            } else {
                s.attr
            }),
        forall|k: int|
            0 <= k < BUF_BYTES && !(2 * s.line * (BUF_WIDTH as int) <= k < 2 * (s.line + 1) * (
            BUF_WIDTH as int)) ==> run(s, bytes).grid[k] == s.grid[k],
    decreases bytes.len(),
{
    if bytes.len() > 0 {
        let b = bytes[0];
        let n = bytes.len() as int;
        let line = s.line as int;
        assert(b != LINE_FEED);
        assert(byte_fits(s, b));
        let s1 = step(s, b);
        lemma_step_wf(s, b);
        lemma_right_alignment(s1, bytes.skip(1));
        assert(run(s, bytes) == run(s1, bytes.skip(1)));
        // What one placement does to the active row: a shift left, then the
        // new byte in the last column.
        assert forall|c: int| 0 <= c < BUF_WIDTH implies glyph_at(s1.grid, line, c) == (if c
            < BUF_WIDTH - 1 {
            glyph_at(s.grid, line, c + 1)
        } else {
            b
        }) && attr_at(s1.grid, line, c) == (if c < BUF_WIDTH - 1 {
            attr_at(s.grid, line, c + 1)
        } else {
            s.attr
        }) by {
            assert(s1.grid == cell_written(
                row_shifted_left(s.grid, line),
                offset_for(s),
                b,
                s.attr,
            ));
        }
        assert forall|k: int|
            0 <= k < BUF_BYTES && !(2 * s.line * (BUF_WIDTH as int) <= k < 2 * (s.line + 1) * (
            BUF_WIDTH as int)) implies s1.grid[k] == s.grid[k] by {
            assert(s1.grid == cell_written(
                row_shifted_left(s.grid, line),
                offset_for(s),
                b,
                s.attr,
            ));
        }
        assert forall|c: int| 0 <= c < BUF_WIDTH implies glyph_at(run(s, bytes).grid, line, c)
            == (if c + n < BUF_WIDTH {
            glyph_at(s.grid, line, c + n)
        } else {
            bytes[c + n - BUF_WIDTH]
        }) by {
            if c + n - 1 < BUF_WIDTH {
                assert(glyph_at(run(s, bytes).grid, line, c) == glyph_at(s1.grid, line, c + n - 1));
            } else {
                assert(glyph_at(run(s, bytes).grid, line, c) == bytes.skip(1)[c + n - 1
                    - BUF_WIDTH]);
                assert(bytes.skip(1)[c + n - 1 - BUF_WIDTH] == bytes[c + n - BUF_WIDTH]);
            }
        }
        assert forall|c: int| 0 <= c < BUF_WIDTH implies attr_at(run(s, bytes).grid, line, c)
            == (if c + n < BUF_WIDTH {
            attr_at(s.grid, line, c + n)
        } else {
            s.attr
        }) by {
            if c + n - 1 < BUF_WIDTH {
                assert(attr_at(run(s, bytes).grid, line, c) == attr_at(s1.grid, line, c + n - 1));
            }
        }
    }
}

/// Right alignment overflow: writing one byte more than a row holds, none a
/// line feed, leaves exactly the last `W` bytes visible, in input order, in
/// columns `0 .. W` of the active row; the first byte is gone.
pub proof fn lemma_right_overflow(s: ScreenView, bytes: Seq<u8>)
    requires
        s.wf(),
        s.align == Alignment::Right,
        no_line_feed(bytes),
        bytes.len() == BUF_WIDTH + 1,
        s.count + bytes.len() < u32::MAX,
    ensures
        run_fits(s, bytes),
        run(s, bytes).line == s.line,
        forall|c: int|
            0 <= c < BUF_WIDTH ==> glyph_at(run(s, bytes).grid, s.line as int, c) == bytes[c + 1],
{
    lemma_right_alignment(s, bytes);
}

/// Left alignment: writing `n` bytes, none a line feed, onto a row with
/// room for them places byte `j` at column `count + j` of the active row
/// with the current colours and touches nothing else.
pub proof fn lemma_left_alignment(s: ScreenView, bytes: Seq<u8>)
    requires
        s.wf(),
        s.align == Alignment::Left,
        no_line_feed(bytes),
        s.count + bytes.len() <= BUF_WIDTH,
    ensures
        run_fits(s, bytes),
        run(s, bytes).wf(),
        run(s, bytes).line == s.line,
        run(s, bytes).count == s.count + bytes.len(),
        run(s, bytes).attr == s.attr,
        run(s, bytes).align == s.align,
        forall|j: int|
            0 <= j < bytes.len() ==> glyph_at(run(s, bytes).grid, s.line as int, s.count + j)
                == bytes[j],
        forall|j: int|
            0 <= j < bytes.len() ==> #[trigger] attr_at(
                run(s, bytes).grid,
                s.line as int,
                s.count + j,
            ) == s.attr,
        forall|k: int|
            0 <= k < BUF_BYTES && !(2 * (s.line * (BUF_WIDTH as int) + s.count) <= k < 2 * (s.line
                * (BUF_WIDTH as int) + s.count + bytes.len())) ==> run(s, bytes).grid[k]
                == s.grid[k],
    decreases bytes.len(),
{
    if bytes.len() > 0 {
        let b = bytes[0];
        let line = s.line as int;
        let w = BUF_WIDTH as int;
        assert(b != LINE_FEED);
        assert(byte_fits(s, b));
        let s1 = step(s, b);
        lemma_step_wf(s, b);
        lemma_left_alignment(s1, bytes.skip(1));
        assert(s1.grid == cell_written(s.grid, offset_for(s), b, s.attr));
        assert(run(s, bytes) == run(s1, bytes.skip(1)));
        assert forall|k: int|
            0 <= k < BUF_BYTES && !(2 * (s.line * w + s.count) <= k < 2 * (s.line * w + s.count
                + bytes.len())) implies run(s, bytes).grid[k] == s.grid[k] by {
            assert(run(s1, bytes.skip(1)).grid[k] == s1.grid[k]);
        }
        assert forall|j: int| 0 <= j < bytes.len() implies glyph_at(
            run(s, bytes).grid,
            s.line as int,
            s.count + j,
        ) == bytes[j] by {
            if j == 0 {
                assert(run(s1, bytes.skip(1)).grid[2 * (line * w + s.count)] == s1.grid[2 * (line
                    * w + s.count)]);
            } else {
                assert(glyph_at(run(s1, bytes.skip(1)).grid, line, s1.count + (j - 1))
                    == bytes.skip(1)[j - 1]);
                assert(bytes.skip(1)[j - 1] == bytes[j]);
            }
        }
        assert forall|j: int| 0 <= j < bytes.len() implies #[trigger] attr_at(
            run(s, bytes).grid,
            s.line as int,
            s.count + j,
        ) == s.attr by {
            if j == 0 {
                assert(run(s1, bytes.skip(1)).grid[2 * (line * w + s.count) + 1] == s1.grid[2 * (
                line * w + s.count) + 1]);
            } else {
                assert(attr_at(run(s1, bytes.skip(1)).grid, line, s1.count + (j - 1)) == s.attr);
            }
        }
    }
}

} // verus!
