//! The circle outline: the band of cells whose squared distance from the
//! centre is within `radius` of the squared radius.

use vstd::prelude::*;
use crate::pixel::{RenderError, SetPixelRequest};
use crate::select::{lemma_pick_at, lemma_pick_order, lemma_pick_origin, lemma_pick_skip, pick};
use crate::{BOARD_HEIGHT, BOARD_WIDTH, MAX_COLOR, TOTAL_NUM_PIXELS};

verus! {

/// The squared distance of cell `(x, y)` from the centre.
pub open spec fn distance_squared(center_x: int, center_y: int, x: int, y: int) -> int {
    (x - center_x) * (x - center_x) + (y - center_y) * (y - center_y)
}

/// The band test: with `r` the radius and `d2` the squared distance of the
/// cell from the centre, `r * r - r <= d2 <= r * r + r`.
pub open spec fn in_band(center_x: i32, center_y: i32, radius: u32, x: int, y: int) -> bool {
    let d2 = distance_squared(center_x as int, center_y as int, x, y);
    radius * radius - radius <= d2 <= radius * radius + radius
}

/// The band test, for cells numbered row by row: cell `c` is column
/// `c % BOARD_WIDTH` of row `c / BOARD_WIDTH`.
pub open spec fn ring_cell(center_x: i32, center_y: i32, radius: u32) -> spec_fn(int) -> bool {
    |c: int| in_band(center_x, center_y, radius, c % (BOARD_WIDTH as int), c / (BOARD_WIDTH as int))
}

/// The write of one colour to a cell, for cells numbered row by row.
pub open spec fn cell_write(color: u32) -> spec_fn(int) -> SetPixelRequest {
    |c: int|
        SetPixelRequest {
            x: (c % (BOARD_WIDTH as int)) as u32,
            y: (c / (BOARD_WIDTH as int)) as u32,
            color,
        }
}

/// One write for every cell of the canvas that passes the band test, row by
/// row from the top, each row from the left.
pub open spec fn circle_writes(center_x: i32, center_y: i32, radius: u32, color: u32) -> Seq<
    SetPixelRequest,
> {
    pick(TOTAL_NUM_PIXELS as nat, ring_cell(center_x, center_y, radius), cell_write(color))
}

/// A cell of the band lies within `radius` of the centre along each axis.
pub proof fn lemma_band_in_square(center_x: i32, center_y: i32, radius: u32, x: int, y: int)
    requires
        in_band(center_x, center_y, radius, x, y),
    ensures
        center_x - radius <= x <= center_x + radius,
        center_y - radius <= y <= center_y + radius,
{
    let r = radius as int;
    let dx = x - center_x;
    let dy = y - center_y;
    assert(-r <= dx <= r && -r <= dy <= r) by (nonlinear_arith)
        requires
            dx * dx + dy * dy <= r * r + r,
            0 <= r,
    ;
}

fn lower(a: i64, b: i64) -> (m: i64)
    ensures
        m == if a <= b { a } else { b },
{
    if a <= b {
        a
    } else {
        b
    }
}

fn upper(a: i64, b: i64) -> (m: i64)
    ensures
        m == if a >= b { a } else { b },
{
    if a >= b {
        a
    } else {
        b
    }
}

/// Tells whether a cell passes the band test.
pub fn band_test(center_x: i32, center_y: i32, radius: u32, x: u32, y: u32) -> (inside: bool)
    ensures
        inside == in_band(center_x, center_y, radius, x as int, y as int),
{
    let r: i128 = radius as i128;
    let dx: i128 = x as i128 - center_x as i128;
    let dy: i128 = y as i128 - center_y as i128;
    assert(0 <= r * r <= 0x1_0000_0000 * 0x1_0000_0000) by (nonlinear_arith)
        requires
            0 <= r <= 0x1_0000_0000,
    ;
    assert(0 <= dx * dx <= 0x2_0000_0000 * 0x2_0000_0000) by (nonlinear_arith)
        requires
            -0x2_0000_0000 <= dx <= 0x2_0000_0000,
    ;
    assert(0 <= dy * dy <= 0x2_0000_0000 * 0x2_0000_0000) by (nonlinear_arith)
        requires
            -0x2_0000_0000 <= dy <= 0x2_0000_0000,
    ;
    let r2: i128 = r * r;
    let d2: i128 = dx * dx + dy * dy;
    r2 - r <= d2 && d2 <= r2 + r
}

/// Renders the outline of a circle in one colour.
///
/// A colour above 24 bits is refused. Otherwise the bounding square of the
/// circle, clipped to the canvas, is scanned row by row, and every cell that
/// passes the band test is written. The result is a ring, not a disk.
pub fn internal_render_circle(center_x: i32, center_y: i32, radius: u32, color: u32) -> (rendered:
    Result<Vec<SetPixelRequest>, RenderError>)
    ensures
        color <= MAX_COLOR ==> rendered is Ok && rendered->Ok_0@ == circle_writes(
            center_x,
            center_y,
            radius,
            color,
        ),
        color > MAX_COLOR ==> rendered == Err::<Vec<SetPixelRequest>, RenderError>(
            RenderError::InvalidInput,
        ),
        rendered is Ok ==> forall|k: int|
            0 <= k < rendered->Ok_0@.len() ==> {
                let w = #[trigger] rendered->Ok_0@[k];
                in_band(center_x, center_y, radius, w.x as int, w.y as int) && w.valid()
                    && w.color == color
            },
{
    if color > MAX_COLOR {
        return Err(RenderError::InvalidInput);
    }
    let ghost keep = ring_cell(center_x, center_y, radius);
    let ghost item = cell_write(color);
    let mut pixels: Vec<SetPixelRequest> = Vec::new();
    let first_row: i64 = upper(0, center_y as i64 - radius as i64);
    let last_row: i64 = lower(BOARD_HEIGHT as i64 - 1, center_y as i64 + radius as i64);
    let first_col: i64 = upper(0, center_x as i64 - radius as i64);
    let last_col: i64 = lower(BOARD_WIDTH as i64 - 1, center_x as i64 + radius as i64);
    proof {
        assert forall|c: int| 0 <= c < TOTAL_NUM_PIXELS && #[trigger] keep(c) implies first_row
            <= c / (BOARD_WIDTH as int) <= last_row && first_col <= c % (BOARD_WIDTH as int)
            <= last_col by {
            lemma_band_in_square(
                center_x,
                center_y,
                radius,
                c % (BOARD_WIDTH as int),
                c / (BOARD_WIDTH as int),
            );
        }
    }
    if first_row > last_row || first_col > last_col {
        proof {
            lemma_pick_skip(0, TOTAL_NUM_PIXELS as nat, keep, item);
        }
        return Ok(pixels);
    }
    proof {
        lemma_pick_skip(0, (first_row * BOARD_WIDTH) as nat, keep, item);
    }
    let mut y: i64 = first_row;
    while y <= last_row
        invariant
            keep == ring_cell(center_x, center_y, radius),
            item == cell_write(color),
            color <= MAX_COLOR,
            0 <= first_row <= last_row < BOARD_HEIGHT,
            0 <= first_col <= last_col < BOARD_WIDTH,
            first_row <= y <= last_row + 1,
            forall|c: int|
                0 <= c < TOTAL_NUM_PIXELS && #[trigger] keep(c) ==> first_row <= c / (
                BOARD_WIDTH as int) <= last_row && first_col <= c % (BOARD_WIDTH as int)
                    <= last_col,
            pixels@ == pick((y * BOARD_WIDTH) as nat, keep, item),
            forall|k: int|
                0 <= k < pixels@.len() ==> {
                    let w = #[trigger] pixels@[k];
                    in_band(center_x, center_y, radius, w.x as int, w.y as int) && w.valid()
                        && w.color == color
                },
        decreases last_row + 1 - y,
    {
        proof {
            lemma_pick_skip(
                (y * BOARD_WIDTH) as nat,
                (y * BOARD_WIDTH + first_col) as nat,
                keep,
                item,
            );
        }
        let mut x: i64 = first_col;
        while x <= last_col
            invariant
                keep == ring_cell(center_x, center_y, radius),
                item == cell_write(color),
                color <= MAX_COLOR,
                0 <= first_row <= y <= last_row < BOARD_HEIGHT,
                0 <= first_col <= last_col < BOARD_WIDTH,
                first_col <= x <= last_col + 1,
                pixels@ == pick((y * BOARD_WIDTH + x) as nat, keep, item),
                forall|k: int|
                    0 <= k < pixels@.len() ==> {
                        let w = #[trigger] pixels@[k];
                        in_band(center_x, center_y, radius, w.x as int, w.y as int) && w.valid()
                            && w.color == color
                    },
            decreases last_col + 1 - x,
        {
            if band_test(center_x, center_y, radius, x as u32, y as u32) {
                pixels.push(SetPixelRequest { x: x as u32, y: y as u32, color });
            }
            x = x + 1;
        }
        proof {
            lemma_pick_skip(
                (y * BOARD_WIDTH + last_col + 1) as nat,
                ((y + 1) * BOARD_WIDTH) as nat,
                keep,
                item,
            );
        }
        y = y + 1;
    }
    proof {
        lemma_pick_skip(((last_row + 1) * BOARD_WIDTH) as nat, TOTAL_NUM_PIXELS as nat, keep, item);
    }
    Ok(pixels)
}

/// Every write of a circle addresses a cell of the canvas that passes the
/// band test, and carries the colour of the circle.
pub proof fn lemma_circle_sound(center_x: i32, center_y: i32, radius: u32, color: u32, k: int)
    requires
        0 <= k < circle_writes(center_x, center_y, radius, color).len(),
    ensures
        ({
            let w = circle_writes(center_x, center_y, radius, color)[k];
            &&& w.on_canvas()
            &&& w.color == color
            &&& in_band(center_x, center_y, radius, w.x as int, w.y as int)
        }),
{
    let c = lemma_pick_origin(
        TOTAL_NUM_PIXELS as nat,
        ring_cell(center_x, center_y, radius),
        cell_write(color),
        k,
    );
    assert(0 <= c % (BOARD_WIDTH as int) < BOARD_WIDTH && 0 <= c / (BOARD_WIDTH as int)
        < BOARD_HEIGHT);
}

/// Every cell of the canvas that passes the band test is written.
pub proof fn lemma_circle_complete(
    center_x: i32,
    center_y: i32,
    radius: u32,
    color: u32,
    x: int,
    y: int,
) -> (k: int)
    requires
        0 <= x < BOARD_WIDTH,
        0 <= y < BOARD_HEIGHT,
        in_band(center_x, center_y, radius, x, y),
    ensures
        0 <= k < circle_writes(center_x, center_y, radius, color).len(),
        circle_writes(center_x, center_y, radius, color)[k] == (SetPixelRequest {
            x: x as u32,
            y: y as u32,
            color,
        }),
{
    let keep = ring_cell(center_x, center_y, radius);
    let item = cell_write(color);
    let c = y * BOARD_WIDTH + x;
    lemma_pick_at(TOTAL_NUM_PIXELS as nat, keep, item, c);
    pick(c as nat, keep, item).len() as int
}

/// The writes of a circle come row by row from the top, each row from the
/// left, so no cell is written twice.
pub proof fn lemma_circle_in_order(
    center_x: i32,
    center_y: i32,
    radius: u32,
    color: u32,
    a: int,
    b: int,
)
    requires
        0 <= a < b < circle_writes(center_x, center_y, radius, color).len(),
    ensures
        ({
            let first = circle_writes(center_x, center_y, radius, color)[a];
            let second = circle_writes(center_x, center_y, radius, color)[b];
            first.y < second.y || (first.y == second.y && first.x < second.x)
        }),
{
    let keep = ring_cell(center_x, center_y, radius);
    let item = cell_write(color);
    let n = TOTAL_NUM_PIXELS as nat;
    let i = lemma_pick_origin(n, keep, item, a);
    let j = lemma_pick_origin(n, keep, item, b);
    if j < i {
        lemma_pick_order(n, keep, item, j, i);
    }
}

} // verus!
