//! Pixel-write generation and compositing for a fixed 50 x 50 shared canvas.
//!
//! Shapes are rasterised into ordered sequences of pixel writes, board
//! snapshots are decoded from their byte layout, and a batch of writes is
//! composed under a deduplication policy before it is handed on.

use vstd::prelude::*;

pub mod art;
pub mod board;
pub mod canvas;
pub mod circle;
pub mod codec;
pub mod compose;
pub mod contract;
pub mod dispatch;
pub mod invert;
pub mod pixel;
pub mod rect;
pub mod select;
pub mod shake;

verus! {

/// Number of columns of the canvas.
pub const BOARD_WIDTH: u32 = 50;

/// Number of rows of the canvas.
pub const BOARD_HEIGHT: u32 = 50;

/// Number of cells of the canvas.
pub const TOTAL_NUM_PIXELS: u32 = BOARD_WIDTH * BOARD_HEIGHT;

/// The full-white colour, which is also the largest colour value.
pub const MAX_COLOR: u32 = 0xffffff;

} // verus!
