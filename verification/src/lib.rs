//! A text-rendering engine for a memory-mapped character display: an
//! append-only stream of bytes becomes screen-cell writes on a fixed 80x25
//! grid, honouring one of three line-alignment modes (left, right, centre)
//! and scrolling the visible area on line overflow.

pub mod laws;
pub mod model;
pub mod screen;

pub use model::{BUF_BYTES, BUF_CELLS, BUF_HEIGHT, BUF_WIDTH, LINE_FEED};
pub use screen::{Alignment, AsciiChar, Color, Screen};
