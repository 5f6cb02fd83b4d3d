//! The board: the colours of all cells of the canvas, row by row.

use vstd::prelude::*;
use crate::{BOARD_HEIGHT, BOARD_WIDTH};

verus! {

/// The colours cover the canvas: one row per canvas row, top row first, and
/// one colour per cell of each row, left to right.
pub open spec fn is_board(colors: Seq<Seq<u32>>) -> bool {
    &&& colors.len() == BOARD_HEIGHT
    &&& forall|y: int| 0 <= y < BOARD_HEIGHT ==> (#[trigger] colors[y]).len() == BOARD_WIDTH
}

/// Tells whether the rows cover the canvas.
pub fn check_board(board: &Vec<Vec<u32>>) -> (ok: bool)
    ensures
        ok == is_board(board.deep_view()),
{
    if board.len() != BOARD_HEIGHT as usize {
        return false;
    }
    let mut y: usize = 0;
    while y < board.len()
        invariant
            board.len() == BOARD_HEIGHT,
            y <= board.len(),
            forall|r: int| 0 <= r < y ==> (#[trigger] board.deep_view()[r]).len() == BOARD_WIDTH,
        decreases board.len() - y,
    {
        if board[y].len() != BOARD_WIDTH as usize {
            assert(board.deep_view()[y as int].len() != BOARD_WIDTH);
            return false;
        }
        y = y + 1;
    }
    true
}

} // verus!
