//! The row shake: every row of the board is rotated sideways by an offset
//! that one byte of a random stream decides.

use vstd::prelude::*;
use vstd::seq_lib::lemma_seq_union_to_multiset_commutative;
use crate::board::{check_board, is_board};
use crate::canvas::{lemma_paint_is_board, lemma_paint_last, paint};
use crate::compose::survives;
use crate::pixel::{RenderError, SetPixelRequest};
use crate::{BOARD_HEIGHT, BOARD_WIDTH, TOTAL_NUM_PIXELS};

verus! {

/// The random stream of a seed: the seed, followed by its hash.
pub open spec fn stream_of(seed: Seq<u8>, seed_hash: Seq<u8>) -> Seq<u8> {
    seed + seed_hash
}

/// Extends a random seed by its hash, so that a seed shorter than the
/// canvas is high still yields one byte for every row. The stream depends
/// on nothing but the seed and its hash.
pub fn random_stream(seed: Vec<u8>, seed_hash: Vec<u8>) -> (stream: Vec<u8>)
    ensures
        stream@ == stream_of(seed@, seed_hash@),
{
    let mut stream = seed;
    let mut rest = seed_hash;
    stream.append(&mut rest);
    stream
}

/// The offset by which a row moves to the right: the byte, reduced to
/// `0..=2 * distance`, less the distance, taken modulo the width.
pub open spec fn shake_offset(distance: u32, byte: u8) -> int {
    (BOARD_WIDTH + (byte as int) % (2 * distance + 1) - distance) % (BOARD_WIDTH as int)
}

/// Computes the offset of a row.
pub fn row_offset(distance: u32, byte: u8) -> (offset: u32)
    ensures
        offset == shake_offset(distance, byte),
        offset < BOARD_WIDTH,
{
    let span: u64 = 2 * (distance as u64) + 1;
    let step: u64 = (byte as u64) % span;
    // A multiple of the width above every distance keeps the sum positive.
    let lift: u64 = 4294967300;
    let moved: u64 = BOARD_WIDTH as u64 + step + lift - distance as u64;
    (moved % (BOARD_WIDTH as u64)) as u32
}

/// The write for cell `c` of the board, the cells numbered row by row: it
/// carries the colour of the cell to the column that lies `offset` to the
/// right, past the right edge back to the left.
pub open spec fn shake_write(board: Seq<Seq<u32>>, distance: u32, stream: Seq<u8>, c: int) -> SetPixelRequest {
    let x = c % (BOARD_WIDTH as int);
    let y = c / (BOARD_WIDTH as int);
    SetPixelRequest {
        x: ((x + shake_offset(distance, stream[y])) % (BOARD_WIDTH as int)) as u32,
        y: y as u32,
        color: board[y][x],
    }
}

/// One write for every cell of the board, row by row from the top, each row
/// from the left.
pub open spec fn shake_writes(board: Seq<Seq<u32>>, distance: u32, stream: Seq<u8>) -> Seq<
    SetPixelRequest,
> {
    Seq::new(TOTAL_NUM_PIXELS as nat, |c: int| shake_write(board, distance, stream, c))
}

/// Shakes the rows of the board.
///
/// A board that does not cover the canvas is refused, and so is a stream
/// with fewer bytes than the canvas has rows. Row `y` takes its offset from
/// byte `y` of the stream.
pub fn internal_pixel_shake(board: &Vec<Vec<u32>>, shake_distance: u32, stream: &Vec<u8>) -> (rendered:
    Result<Vec<SetPixelRequest>, RenderError>)
    ensures
        is_board(board.deep_view()) && stream@.len() >= BOARD_HEIGHT ==> rendered is Ok
            && rendered->Ok_0@ == shake_writes(board.deep_view(), shake_distance, stream@),
        !(is_board(board.deep_view()) && stream@.len() >= BOARD_HEIGHT) ==> rendered == Err::<
            Vec<SetPixelRequest>,
            RenderError,
        >(RenderError::InvalidInput),
        rendered is Ok ==> forall|k: int|
            0 <= k < rendered->Ok_0@.len() ==> (#[trigger] rendered->Ok_0@[k]).on_canvas(),
{
    if !check_board(board) || stream.len() < BOARD_HEIGHT as usize {
        return Err(RenderError::InvalidInput);
    }
    let ghost colors = board.deep_view();
    let mut pixels: Vec<SetPixelRequest> = Vec::new();
    let mut y: u32 = 0;
    while y < BOARD_HEIGHT
        invariant
            is_board(colors),
            colors == board.deep_view(),
            stream@.len() >= BOARD_HEIGHT,
            y <= BOARD_HEIGHT,
            pixels@.len() == y * BOARD_WIDTH,
            forall|k: int|
                0 <= k < pixels@.len() ==> #[trigger] pixels@[k] == shake_write(
                    colors,
                    shake_distance,
                    stream@,
                    k,
                ) && pixels@[k].on_canvas(),
        decreases BOARD_HEIGHT - y,
    {
        let line = &board[y as usize];
        let offset: u32 = row_offset(shake_distance, stream[y as usize]);
        let mut x: u32 = 0;
        while x < BOARD_WIDTH
            invariant
                is_board(colors),
                line@ == colors[y as int],
                stream@.len() >= BOARD_HEIGHT,
                y < BOARD_HEIGHT,
                x <= BOARD_WIDTH,
                offset == shake_offset(shake_distance, stream@[y as int]),
                offset < BOARD_WIDTH,
                pixels@.len() == y * BOARD_WIDTH + x,
                forall|k: int|
                    0 <= k < pixels@.len() ==> #[trigger] pixels@[k] == shake_write(
                        colors,
                        shake_distance,
                        stream@,
                        k,
                    ) && pixels@[k].on_canvas(),
            decreases BOARD_WIDTH - x,
        {
            let new_x: u32 = (x + offset) % BOARD_WIDTH;
            pixels.push(SetPixelRequest { x: new_x, y, color: line[x as usize] });
            x = x + 1;
        }
        y = y + 1;
    }
    Ok(pixels)
}

/// A row of the canvas after it moved `offset` cells to the right, the
/// cells that leave at the right edge coming back in at the left.
pub open spec fn rotated(row: Seq<u32>, offset: int) -> Seq<u32> {
    Seq::new(BOARD_WIDTH as nat, |x: int| row[(x - offset) % (BOARD_WIDTH as int)])
}

/// A rotated row holds the colours of the row, each as often as the row does.
pub proof fn lemma_rotated_multiset(row: Seq<u32>, offset: int)
    requires
        row.len() == BOARD_WIDTH,
        0 <= offset < BOARD_WIDTH,
    ensures
        rotated(row, offset).to_multiset() == row.to_multiset(),
{
    let cut = BOARD_WIDTH - offset;
    let head = row.subrange(0, cut);
    let tail = row.subrange(cut, BOARD_WIDTH as int);
    assert(rotated(row, offset) =~= tail + head);
    assert(row =~= head + tail);
    lemma_seq_union_to_multiset_commutative(tail, head);
}

/// After a shake was applied to the board it was computed from, every row
/// is the row it was, rotated by its offset.
pub proof fn lemma_shake_paint(board: Seq<Seq<u32>>, distance: u32, stream: Seq<u8>, y: int)
    requires
        is_board(board),
        stream.len() >= BOARD_HEIGHT,
        0 <= y < BOARD_HEIGHT,
    ensures
        paint(board, shake_writes(board, distance, stream))[y] == rotated(
            board[y],
            shake_offset(distance, stream[y]),
        ),
{
    let writes = shake_writes(board, distance, stream);
    let after = paint(board, writes);
    let offset = shake_offset(distance, stream[y]);
    lemma_paint_is_board(board, writes);
    assert forall|nx: int| 0 <= nx < BOARD_WIDTH implies #[trigger] after[y][nx] == rotated(
        board[y],
        offset,
    )[nx] by {
        let x = (nx - offset) % (BOARD_WIDTH as int);
        let k = y * BOARD_WIDTH + x;
        assert(writes[k].x == nx && writes[k].y == y);
        assert(survives(writes, k));
        lemma_paint_last(board, writes, k);
    }
}

/// A shake moves colours within their row and neither adds nor loses one:
/// after it was applied, every row holds the colours that it held before,
/// each as often as before.
pub proof fn lemma_shake_keeps_row_colors(
    board: Seq<Seq<u32>>,
    distance: u32,
    stream: Seq<u8>,
    y: int,
)
    requires
        is_board(board),
        stream.len() >= BOARD_HEIGHT,
        0 <= y < BOARD_HEIGHT,
    ensures
        paint(board, shake_writes(board, distance, stream))[y].to_multiset()
            == board[y].to_multiset(),
{
    lemma_shake_paint(board, distance, stream, y);
    lemma_rotated_multiset(board[y], shake_offset(distance, stream[y]));
}

} // verus!
