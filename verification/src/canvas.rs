//! What a batch of writes does to a board when the canvas applies it in
//! order: every write sets the colour of its cell, so of several writes to
//! one cell the last applied stays.

use vstd::prelude::*;
use crate::board::is_board;
use crate::compose::{
    deduplicated, kept_before, lemma_kept_is_survivor, lemma_last_write, lemma_one_write_per_cell,
    lemma_survivor_is_kept, survives, touched,
};
use crate::pixel::{all_on_canvas, SetPixelRequest};
use crate::{BOARD_HEIGHT, BOARD_WIDTH};

verus! {

/// The colour of cell `(x, y)` of a board.
pub open spec fn color_at(colors: Seq<Seq<u32>>, x: int, y: int) -> u32 {
    colors[y][x]
}

/// The board after one write. A write off the board changes nothing.
pub open spec fn put(colors: Seq<Seq<u32>>, w: SetPixelRequest) -> Seq<Seq<u32>> {
    if w.y < colors.len() && w.x < colors[w.y as int].len() {
        colors.update(w.y as int, colors[w.y as int].update(w.x as int, w.color))
    } else {
        colors
    }
}

/// The board after the writes were applied in order.
pub open spec fn paint(colors: Seq<Seq<u32>>, writes: Seq<SetPixelRequest>) -> Seq<Seq<u32>>
    decreases writes.len(),
{
    if writes.len() == 0 {
        colors
    } else {
        put(paint(colors, writes.drop_last()), writes.last())
    }
}

/// Painting a board gives a board.
pub proof fn lemma_paint_is_board(colors: Seq<Seq<u32>>, writes: Seq<SetPixelRequest>)
    requires
        is_board(colors),
    ensures
        is_board(paint(colors, writes)),
    decreases writes.len(),
{
    if writes.len() > 0 {
        lemma_paint_is_board(colors, writes.drop_last());
    }
}

/// A cell that no write addresses keeps its colour.
pub proof fn lemma_paint_untouched(
    colors: Seq<Seq<u32>>,
    writes: Seq<SetPixelRequest>,
    x: int,
    y: int,
)
    requires
        is_board(colors),
        0 <= x < BOARD_WIDTH,
        0 <= y < BOARD_HEIGHT,
        !touched(writes, x, y),
    ensures
        paint(colors, writes)[y][x] == colors[y][x],
    decreases writes.len(),
{
    if writes.len() > 0 {
        let rest = writes.drop_last();
        assert(!touched(rest, x, y)) by {
            if touched(rest, x, y) {
                let i = choose|i: int|
                    0 <= i < rest.len() && (#[trigger] rest[i]).x == x && rest[i].y == y;
                assert(writes[i].x == x && writes[i].y == y);
            }
        }
        lemma_paint_untouched(colors, rest, x, y);
        lemma_paint_is_board(colors, rest);
    }
}

/// A cell has the colour of the last write that addresses it.
pub proof fn lemma_paint_last(colors: Seq<Seq<u32>>, writes: Seq<SetPixelRequest>, i: int)
    requires
        is_board(colors),
        0 <= i < writes.len(),
        writes[i].on_canvas(),
        survives(writes, i),
    ensures
        paint(colors, writes)[writes[i].y as int][writes[i].x as int] == writes[i].color,
    decreases writes.len(),
{
    let rest = writes.drop_last();
    lemma_paint_is_board(colors, rest);
    if i < writes.len() - 1 {
        assert forall|j: int| i < j < rest.len() implies !(#[trigger] rest[j]).same_cell(
            rest[i],
        ) by {
            assert(rest[j] == writes[j]);
        }
        lemma_paint_last(colors, rest, i);
    }
}

/// Two boards are the same board when they agree on every cell.
pub proof fn lemma_boards_equal(a: Seq<Seq<u32>>, b: Seq<Seq<u32>>)
    requires
        is_board(a),
        is_board(b),
        forall|x: int, y: int|
            0 <= x < BOARD_WIDTH && 0 <= y < BOARD_HEIGHT ==> #[trigger] color_at(a, x, y)
                == color_at(b, x, y),
    ensures
        a == b,
{
    assert forall|y: int| 0 <= y < BOARD_HEIGHT implies #[trigger] a[y] == b[y] by {
        assert forall|x: int| 0 <= x < BOARD_WIDTH implies (#[trigger] a[y][x]) == b[y][x] by {
            assert(color_at(a, x, y) == color_at(b, x, y));
        }
    }
}

/// Deduplication does not change the picture: applied to any board, the
/// deduplicated batch gives the board that the whole sequence gives.
pub proof fn lemma_dedup_same_picture(colors: Seq<Seq<u32>>, writes: Seq<SetPixelRequest>)
    requires
        is_board(colors),
        all_on_canvas(writes),
    ensures
        paint(colors, deduplicated(writes)) == paint(colors, writes),
{
    let batch = deduplicated(writes);
    lemma_paint_is_board(colors, writes);
    lemma_paint_is_board(colors, batch);
    assert forall|x: int, y: int| 0 <= x < BOARD_WIDTH && 0 <= y < BOARD_HEIGHT implies #[trigger] color_at(
        paint(colors, batch),
        x,
        y,
    ) == color_at(paint(colors, writes), x, y) by {
        if touched(writes, x, y) {
            let i = choose|i: int|
                0 <= i < writes.len() && (#[trigger] writes[i]).x == x && writes[i].y == y;
            let last = lemma_last_write(writes, i);
            lemma_paint_last(colors, writes, last);
            lemma_survivor_is_kept(writes, last);
            let at = kept_before(writes, last) as int;
            assert forall|k: int| at < k < batch.len() implies !(#[trigger] batch[k]).same_cell(
                batch[at],
            ) by {
                lemma_one_write_per_cell(writes, at, k);
            }
            lemma_paint_last(colors, batch, at);
        } else {
            assert(!touched(batch, x, y)) by {
                if touched(batch, x, y) {
                    let k = choose|k: int|
                        0 <= k < batch.len() && (#[trigger] batch[k]).x == x && batch[k].y == y;
                    let i = lemma_kept_is_survivor(writes, k);
                    assert(writes[i].x == x && writes[i].y == y);
                }
            }
            lemma_paint_untouched(colors, writes, x, y);
            lemma_paint_untouched(colors, batch, x, y);
        }
    }
    lemma_boards_equal(paint(colors, batch), paint(colors, writes));
}

} // verus!
