//! The canvas cell, the row of cells, the pixel write and the error kinds.

use vstd::prelude::*;
use crate::{BOARD_HEIGHT, BOARD_WIDTH, MAX_COLOR};

verus! {

/// Index of the account that owns a cell.
pub type AccountIndex = u32;

/// Why an operation was refused. Nothing is emitted when one is returned.
#[derive(Clone, Copy, Debug, PartialEq, Eq, Structural)]
pub enum RenderError {
    /// A coordinate, an extent or a colour lies outside the canvas limits.
    InvalidInput,
    /// A board snapshot does not have the expected byte layout.
    DecodeError,
}

/// One cell of the canvas.
#[derive(Clone, Copy, Debug, PartialEq, Eq, Structural)]
pub struct Pixel {
    pub color: u32,
    pub owner_id: AccountIndex,
}

impl Default for Pixel {
    /// A white cell that belongs to account 0.
    fn default() -> (p: Self)
        ensures
            p == (Pixel { color: MAX_COLOR, owner_id: 0 }),
    {
        Pixel { color: MAX_COLOR, owner_id: 0 }
    }
}

/// One row of the canvas, left to right.
#[derive(Debug)]
pub struct PixelLine(pub Vec<Pixel>);

impl Default for PixelLine {
    /// A full row of default cells.
    fn default() -> (line: Self)
        ensures
            line.0@ == Seq::new(BOARD_WIDTH as nat, |i: int| Pixel { color: MAX_COLOR, owner_id: 0 }),
    {
        let mut cells: Vec<Pixel> = Vec::new();
        let mut i: u32 = 0;
        while i < BOARD_WIDTH
            invariant
                i <= BOARD_WIDTH,
                cells@ == Seq::new(i as nat, |k: int| Pixel { color: MAX_COLOR, owner_id: 0 }),
            decreases BOARD_WIDTH - i,
        {
            cells.push(Pixel::default());
            i = i + 1;
        }
        PixelLine(cells)
    }
}

/// An instruction to set the colour of one cell.
#[derive(Clone, Copy, Debug, PartialEq, Eq, Structural)]
pub struct SetPixelRequest {
    pub x: u32,
    pub y: u32,
    pub color: u32,
}

impl SetPixelRequest {
    /// The write addresses a cell of the canvas and carries a 24-bit colour.
    pub open spec fn valid(self) -> bool {
        self.x < BOARD_WIDTH && self.y < BOARD_HEIGHT && self.color <= MAX_COLOR
    }

    /// The write addresses a cell of the canvas, whatever its colour.
    pub open spec fn on_canvas(self) -> bool {
        self.x < BOARD_WIDTH && self.y < BOARD_HEIGHT
    }

    /// Both writes address the same cell.
    pub open spec fn same_cell(self, other: SetPixelRequest) -> bool {
        self.x == other.x && self.y == other.y
    }

    /// Tells whether the write is valid.
    pub fn is_valid(&self) -> (ok: bool)
        ensures
            ok == self.valid(),
    {
        self.x < BOARD_WIDTH && self.y < BOARD_HEIGHT && self.color <= MAX_COLOR
    }

    /// Accepts a valid write and refuses any other with `InvalidInput`.
    pub fn assert_valid(&self) -> (checked: Result<(), RenderError>)
        ensures
            checked == (if self.valid() {
                Ok::<(), RenderError>(())
            } else {
                Err::<(), RenderError>(RenderError::InvalidInput)
            }),
    {
        if self.x < BOARD_WIDTH && self.y < BOARD_HEIGHT && self.color <= MAX_COLOR {
            Ok(())
        } else {
            Err(RenderError::InvalidInput)
        }
    }
}

/// Every write of the sequence addresses a cell of the canvas.
pub open spec fn all_on_canvas(writes: Seq<SetPixelRequest>) -> bool {
    forall|i: int| 0 <= i < writes.len() ==> (#[trigger] writes[i]).on_canvas()
}

/// Every write of the sequence is valid.
pub open spec fn all_valid(writes: Seq<SetPixelRequest>) -> bool {
    forall|i: int| 0 <= i < writes.len() ==> (#[trigger] writes[i]).valid()
}

} // verus!
