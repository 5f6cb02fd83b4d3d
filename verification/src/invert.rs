//! The colour inversion of a rectangular region.

use vstd::prelude::*;
use vstd::arithmetic::div_mod::{
    lemma_fundamental_div_mod, lemma_fundamental_div_mod_converse, lemma_mod_bound,
    lemma_multiply_divide_lt,
};
use crate::board::{check_board, is_board};
use crate::canvas::{
    color_at, lemma_boards_equal, lemma_paint_is_board, lemma_paint_last, lemma_paint_untouched,
    paint,
};
use crate::compose::touched;
use crate::pixel::{RenderError, SetPixelRequest};
use crate::rect::{check_rect, in_rect, rect_ok};
use crate::{BOARD_HEIGHT, BOARD_WIDTH, MAX_COLOR};

verus! {

/// The inverse of a colour: its distance from full white. A value above 24
/// bits, which is no colour, is taken for full white and gives black.
pub open spec fn inverted(color: u32) -> u32 {
    if color <= MAX_COLOR {
        (MAX_COLOR - color) as u32
    } else {
        0
    }
}

/// Computes the inverse of a colour.
pub fn invert_color(color: u32) -> (inverse: u32)
    ensures
        inverse == inverted(color),
        inverse <= MAX_COLOR,
{
    if color <= MAX_COLOR {
        MAX_COLOR - color
    } else {
        0
    }
}

/// The `k`-th write of an inversion: the rows come from the top, and each
/// row runs from the left. The owner of a cell plays no part.
pub open spec fn invert_write(board: Seq<Seq<u32>>, left: u32, top: u32, width: u32, k: int) -> SetPixelRequest {
    let x = left + k % (width as int);
    let y = top + k / (width as int);
    SetPixelRequest { x: x as u32, y: y as u32, color: inverted(board[y][x]) }
}

/// One write per cell of the box, each with the inverse of the colour that
/// the board holds there.
pub open spec fn invert_writes(
    board: Seq<Seq<u32>>,
    left: u32,
    top: u32,
    width: u32,
    height: u32,
) -> Seq<SetPixelRequest> {
    Seq::new((width * height) as nat, |k: int| invert_write(board, left, top, width, k))
}

/// Inverts the colours of a rectangular region of the board.
///
/// A box that leaves the canvas or is empty is refused, and so is a board
/// that does not cover the canvas. Otherwise there is exactly one write per
/// cell of the box.
pub fn internal_invert_rect(board: Vec<Vec<u32>>, left: u32, top: u32, width: u32, height: u32) -> (rendered:
    Result<Vec<SetPixelRequest>, RenderError>)
    ensures
        rect_ok(left, top, width, height) && is_board(board.deep_view()) ==> rendered is Ok
            && rendered->Ok_0@ == invert_writes(board.deep_view(), left, top, width, height),
        !(rect_ok(left, top, width, height) && is_board(board.deep_view())) ==> rendered == Err::<
            Vec<SetPixelRequest>,
            RenderError,
        >(RenderError::InvalidInput),
        rendered is Ok ==> rendered->Ok_0@.len() == width * height,
        rendered is Ok ==> forall|k: int|
            0 <= k < rendered->Ok_0@.len() ==> {
                let w = #[trigger] rendered->Ok_0@[k];
                in_rect(left, top, width, height, w.x as int, w.y as int) && w.valid()
            },
{
    if !check_rect(left, top, width, height) || !check_board(&board) {
        return Err(RenderError::InvalidInput);
    }
    let ghost colors = board.deep_view();
    let mut pixels: Vec<SetPixelRequest> = Vec::new();
    let mut y: u32 = top;
    while y < top + height
        invariant
            rect_ok(left, top, width, height),
            is_board(colors),
            colors == board.deep_view(),
            top <= y <= top + height,
            pixels@.len() == (y - top) * width,
            forall|k: int|
                0 <= k < pixels@.len() ==> {
                    let w = #[trigger] pixels@[k];
                    w == invert_write(colors, left, top, width, k) && in_rect(
                        left,
                        top,
                        width,
                        height,
                        w.x as int,
                        w.y as int,
                    ) && w.valid()
                },
        decreases top + height - y,
    {
        let line = &board[y as usize];
        let mut x: u32 = left;
        while x < left + width
            invariant
                rect_ok(left, top, width, height),
                is_board(colors),
                line@ == colors[y as int],
                top <= y < top + height,
                left <= x <= left + width,
                pixels@.len() == (y - top) * width + (x - left),
                forall|k: int|
                    0 <= k < pixels@.len() ==> {
                        let w = #[trigger] pixels@[k];
                        w == invert_write(colors, left, top, width, k) && in_rect(
                            left,
                            top,
                            width,
                            height,
                            w.x as int,
                            w.y as int,
                        ) && w.valid()
                    },
            decreases left + width - x,
        {
            proof {
                lemma_fundamental_div_mod_converse(
                    pixels@.len() as int,
                    width as int,
                    y - top,
                    x - left,
                );
            }
            let color: u32 = line[x as usize];
            pixels.push(SetPixelRequest { x, y, color: invert_color(color) });
            x = x + 1;
        }
        assert((y + 1 - top) * width == (y - top) * width + width) by (nonlinear_arith);
        y = y + 1;
    }
    assert(height * width == width * height) by (nonlinear_arith);
    Ok(pixels)
}

/// The position, among the writes of a box, of the write to cell `(x, y)`.
pub open spec fn box_position(left: u32, top: u32, width: u32, x: int, y: int) -> int {
    (y - top) * width + (x - left)
}

/// Every cell of the box has its position among the writes.
pub proof fn lemma_box_position(left: u32, top: u32, width: u32, height: u32, x: int, y: int)
    requires
        rect_ok(left, top, width, height),
        in_rect(left, top, width, height, x, y),
    ensures
        0 <= box_position(left, top, width, x, y) < width * height,
        box_position(left, top, width, x, y) % (width as int) == x - left,
        box_position(left, top, width, x, y) / (width as int) == y - top,
{
    let k = box_position(left, top, width, x, y);
    let row = y - top;
    let w = width as int;
    let h = height as int;
    assert(0 <= row * w && row * w + w <= w * h) by (nonlinear_arith)
        requires
            0 <= row < h,
            0 < w,
    ;
    lemma_fundamental_div_mod_converse(k, w, row, x - left);
}

/// Every position among the writes stands for one cell of the box.
pub proof fn lemma_box_cell(left: u32, top: u32, width: u32, height: u32, k: int)
    requires
        rect_ok(left, top, width, height),
        0 <= k < width * height,
    ensures
        in_rect(
            left,
            top,
            width,
            height,
            left + k % (width as int),
            top + k / (width as int),
        ),
        box_position(left, top, width, left + k % (width as int), top + k / (width as int)) == k,
{
    let w = width as int;
    lemma_fundamental_div_mod(k, w);
    lemma_mod_bound(k, w);
    lemma_multiply_divide_lt(k, w, height as int);
    assert(0 <= k / w) by (nonlinear_arith)
        requires
            0 <= k,
            0 < w,
    ;
    assert(w * (k / w) == (k / w) * w) by (nonlinear_arith);
}

/// The colours after an inversion was applied to the board it was computed
/// from: inverted inside the box, unchanged outside.
pub proof fn lemma_invert_paint(board: Seq<Seq<u32>>, left: u32, top: u32, width: u32, height: u32)
    requires
        is_board(board),
        rect_ok(left, top, width, height),
    ensures
        is_board(paint(board, invert_writes(board, left, top, width, height))),
        forall|x: int, y: int|
            0 <= x < BOARD_WIDTH && 0 <= y < BOARD_HEIGHT ==> #[trigger] color_at(
                paint(board, invert_writes(board, left, top, width, height)),
                x,
                y,
            ) == if in_rect(left, top, width, height, x, y) {
                inverted(color_at(board, x, y))
            } else {
                color_at(board, x, y)
            },
{
    let writes = invert_writes(board, left, top, width, height);
    let after = paint(board, writes);
    lemma_paint_is_board(board, writes);
    assert forall|x: int, y: int| 0 <= x < BOARD_WIDTH && 0 <= y < BOARD_HEIGHT implies #[trigger] color_at(
        after,
        x,
        y,
    ) == if in_rect(left, top, width, height, x, y) {
        inverted(color_at(board, x, y))
    } else {
        color_at(board, x, y)
    } by {
        if in_rect(left, top, width, height, x, y) {
            let k = box_position(left, top, width, x, y);
            lemma_box_position(left, top, width, height, x, y);
            assert forall|j: int| k < j < writes.len() implies !(#[trigger] writes[j]).same_cell(
                writes[k],
            ) by {
                lemma_box_cell(left, top, width, height, j);
            }
            lemma_paint_last(board, writes, k);
        } else {
            assert(!touched(writes, x, y)) by {
                if touched(writes, x, y) {
                    let j = choose|j: int|
                        0 <= j < writes.len() && (#[trigger] writes[j]).x == x && writes[j].y == y;
                    lemma_box_cell(left, top, width, height, j);
                }
            }
            lemma_paint_untouched(board, writes, x, y);
        }
    }
}

/// Inverting a colour twice gives the colour back.
pub proof fn lemma_inverted_twice(color: u32)
    requires
        color <= MAX_COLOR,
    ensures
        inverted(inverted(color)) == color,
{
}

/// Inversion undoes itself: where the box of the board holds colours only,
/// inverting it, applying the writes, inverting the same box of the result
/// and applying those writes gives the first board back.
pub proof fn lemma_invert_twice(board: Seq<Seq<u32>>, left: u32, top: u32, width: u32, height: u32)
    requires
        is_board(board),
        rect_ok(left, top, width, height),
        forall|x: int, y: int|
            in_rect(left, top, width, height, x, y) ==> #[trigger] color_at(board, x, y)
                <= MAX_COLOR,
    ensures
        ({
            let once = paint(board, invert_writes(board, left, top, width, height));
            paint(once, invert_writes(once, left, top, width, height)) == board
        }),
{
    let once = paint(board, invert_writes(board, left, top, width, height));
    let twice = paint(once, invert_writes(once, left, top, width, height));
    lemma_invert_paint(board, left, top, width, height);
    lemma_invert_paint(once, left, top, width, height);
    assert forall|x: int, y: int| 0 <= x < BOARD_WIDTH && 0 <= y < BOARD_HEIGHT implies #[trigger] color_at(
        twice,
        x,
        y,
    ) == color_at(board, x, y) by {
        assert(color_at(once, x, y) == if in_rect(left, top, width, height, x, y) {
            inverted(color_at(board, x, y))
        } else {
            color_at(board, x, y)
        });
    }
    lemma_boards_equal(twice, board);
}

/// On a box of one colour `color`, the first inversion writes the inverse
/// of `color` to every cell of the box, the second writes `color`, and the
/// board is then as it was.
pub proof fn lemma_invert_twice_uniform(
    board: Seq<Seq<u32>>,
    left: u32,
    top: u32,
    width: u32,
    height: u32,
    color: u32,
)
    requires
        is_board(board),
        rect_ok(left, top, width, height),
        color <= MAX_COLOR,
        forall|x: int, y: int|
            in_rect(left, top, width, height, x, y) ==> #[trigger] color_at(board, x, y) == color,
    ensures
        ({
            let first = invert_writes(board, left, top, width, height);
            let once = paint(board, first);
            let second = invert_writes(once, left, top, width, height);
            &&& forall|k: int| 0 <= k < first.len() ==> (#[trigger] first[k]).color == MAX_COLOR - color
            &&& forall|k: int| 0 <= k < second.len() ==> (#[trigger] second[k]).color == color
            &&& paint(once, second) == board
        }),
{
    let first = invert_writes(board, left, top, width, height);
    let once = paint(board, first);
    let second = invert_writes(once, left, top, width, height);
    lemma_invert_paint(board, left, top, width, height);
    assert forall|k: int| 0 <= k < first.len() implies (#[trigger] first[k]).color == MAX_COLOR
        - color by {
        lemma_box_cell(left, top, width, height, k);
        let x = left + k % (width as int);
        let y = top + k / (width as int);
        assert(color_at(board, x, y) == color);
    }
    assert forall|k: int| 0 <= k < second.len() implies (#[trigger] second[k]).color == color by {
        lemma_box_cell(left, top, width, height, k);
        let x = left + k % (width as int);
        let y = top + k / (width as int);
        assert(color_at(once, x, y) == inverted(color));
    }
    lemma_invert_twice(board, left, top, width, height);
}

} // verus!
