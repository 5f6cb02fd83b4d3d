//! The byte layout of a board snapshot.
//!
//! A snapshot holds one blob per canvas row. A blob starts with the number
//! of cells of the row, and goes on with the cells from left to right: the
//! colour of each, then the index of its owner. Every number takes four
//! bytes, lowest byte first.

use vstd::prelude::*;
use crate::board::is_board;
use crate::pixel::{Pixel, PixelLine, RenderError};
use crate::{BOARD_HEIGHT, BOARD_WIDTH};

verus! {

/// Number of bytes of the blob of one row.
pub const LINE_BYTES: usize = 404;

/// The number that the four bytes from position `at` on stand for.
pub open spec fn le_u32(bytes: Seq<u8>, at: int) -> int {
    bytes[at] + bytes[at + 1] * 0x100 + bytes[at + 2] * 0x1_0000 + bytes[at + 3] * 0x100_0000
}

/// The blob has the length of a full row and announces a full row.
pub open spec fn line_ok(bytes: Seq<u8>) -> bool {
    bytes.len() == 4 + 8 * BOARD_WIDTH && le_u32(bytes, 0) == BOARD_WIDTH
}

/// The cell at column `k` of a blob.
pub open spec fn pixel_at(bytes: Seq<u8>, k: int) -> Pixel {
    Pixel { color: le_u32(bytes, 4 + 8 * k) as u32, owner_id: le_u32(bytes, 8 + 8 * k) as u32 }
}

/// The cells of a blob.
pub open spec fn line_pixels(bytes: Seq<u8>) -> Seq<Pixel> {
    Seq::new(BOARD_WIDTH as nat, |k: int| pixel_at(bytes, k))
}

/// The colours of the cells of a blob.
pub open spec fn line_colors(bytes: Seq<u8>) -> Seq<u32> {
    Seq::new(BOARD_WIDTH as nat, |k: int| pixel_at(bytes, k).color)
}

/// The snapshot has one well-formed blob for every row of the canvas.
pub open spec fn snapshot_ok(lines: Seq<Seq<u8>>) -> bool {
    &&& lines.len() == BOARD_HEIGHT
    &&& forall|y: int| 0 <= y < BOARD_HEIGHT ==> line_ok(#[trigger] lines[y])
}

/// The colours of a snapshot.
pub open spec fn snapshot_colors(lines: Seq<Seq<u8>>) -> Seq<Seq<u32>> {
    Seq::new(BOARD_HEIGHT as nat, |y: int| line_colors(lines[y]))
}

/// Reads the number that starts at position `at`.
fn read_u32(bytes: &Vec<u8>, at: usize) -> (value: u32)
    requires
        at + 4 <= bytes.len(),
    ensures
        value == le_u32(bytes@, at as int),
{
    let b0: u32 = bytes[at] as u32;
    let b1: u32 = bytes[at + 1] as u32;
    let b2: u32 = bytes[at + 2] as u32;
    let b3: u32 = bytes[at + 3] as u32;
    b0 + b1 * 0x100 + b2 * 0x1_0000 + b3 * 0x100_0000
}

/// Decodes the blob of one row.
///
/// A blob of another length, or one that announces another number of cells
/// than the canvas is wide, is refused.
pub fn decode_line(bytes: &Vec<u8>) -> (decoded: Result<PixelLine, RenderError>)
    ensures
        line_ok(bytes@) ==> decoded is Ok && decoded->Ok_0.0@ == line_pixels(bytes@),
        !line_ok(bytes@) ==> decoded == Err::<PixelLine, RenderError>(RenderError::DecodeError),
{
    if bytes.len() != LINE_BYTES {
        return Err(RenderError::DecodeError);
    }
    if read_u32(bytes, 0) != BOARD_WIDTH {
        return Err(RenderError::DecodeError);
    }
    let mut cells: Vec<Pixel> = Vec::new();
    let mut k: usize = 0;
    while k < BOARD_WIDTH as usize
        invariant
            bytes.len() == LINE_BYTES,
            k <= BOARD_WIDTH,
            cells@.len() == k,
            forall|i: int| 0 <= i < k ==> #[trigger] cells@[i] == pixel_at(bytes@, i),
        decreases BOARD_WIDTH - k,
    {
        let color: u32 = read_u32(bytes, 4 + 8 * k);
        let owner_id: u32 = read_u32(bytes, 8 + 8 * k);
        cells.push(Pixel { color, owner_id });
        k = k + 1;
    }
    Ok(PixelLine(cells))
}

/// Decodes a snapshot into the colours of the board. The owners are read
/// and left out.
///
/// A snapshot with another number of blobs than the canvas has rows, or
/// with one blob that is refused, is refused as a whole.
pub fn decode_board(lines: Vec<Vec<u8>>) -> (decoded: Result<Vec<Vec<u32>>, RenderError>)
    ensures
        snapshot_ok(lines.deep_view()) ==> decoded is Ok && decoded->Ok_0.deep_view()
            == snapshot_colors(lines.deep_view()) && is_board(decoded->Ok_0.deep_view()),
        !snapshot_ok(lines.deep_view()) ==> decoded == Err::<Vec<Vec<u32>>, RenderError>(
            RenderError::DecodeError,
        ),
{
    if lines.len() != BOARD_HEIGHT as usize {
        return Err(RenderError::DecodeError);
    }
    let ghost blobs = lines.deep_view();
    let mut board: Vec<Vec<u32>> = Vec::new();
    let mut y: usize = 0;
    while y < lines.len()
        invariant
            blobs == lines.deep_view(),
            lines.len() == BOARD_HEIGHT,
            y <= lines.len(),
            board@.len() == y,
            forall|r: int| 0 <= r < y ==> line_ok(#[trigger] blobs[r]),
            forall|r: int| 0 <= r < y ==> (#[trigger] board@[r])@ == line_colors(blobs[r]),
        decreases lines.len() - y,
    {
        assert(blobs[y as int] =~= lines@[y as int]@);
        match decode_line(&lines[y]) {
            Ok(line) => {
                let mut colors: Vec<u32> = Vec::new();
                let mut x: usize = 0;
                while x < line.0.len()
                    invariant
                        line.0@ == line_pixels(blobs[y as int]),
                        x <= line.0.len(),
                        colors@.len() == x,
                        forall|i: int| 0 <= i < x ==> #[trigger] colors@[i] == line.0@[i].color,
                    decreases line.0.len() - x,
                {
                    colors.push(line.0[x].color);
                    x = x + 1;
                }
                board.push(colors);
            },
            Err(_) => {
                return Err(RenderError::DecodeError);
            },
        }
        y = y + 1;
    }
    assert(board.deep_view() =~~= snapshot_colors(blobs));
    Ok(board)
}

} // verus!
