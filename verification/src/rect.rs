//! The filled rectangle.

use vstd::prelude::*;
use vstd::arithmetic::div_mod::lemma_fundamental_div_mod_converse;
use crate::pixel::{RenderError, SetPixelRequest};
use crate::{BOARD_HEIGHT, BOARD_WIDTH, MAX_COLOR};

verus! {

/// The box lies on the canvas and is not empty.
pub open spec fn rect_ok(left: u32, top: u32, width: u32, height: u32) -> bool {
    &&& left < BOARD_WIDTH
    &&& top < BOARD_HEIGHT
    &&& 0 < width <= BOARD_WIDTH
    &&& 0 < height <= BOARD_HEIGHT
    &&& left + width <= BOARD_WIDTH
    &&& top + height <= BOARD_HEIGHT
}

/// Cell `(x, y)` lies in the box.
pub open spec fn in_rect(left: u32, top: u32, width: u32, height: u32, x: int, y: int) -> bool {
    left <= x < left + width && top <= y < top + height
}

/// The `k`-th write of a rectangle: the columns come from the left, and
/// each column runs from the top down.
pub open spec fn rect_write(left: u32, top: u32, height: u32, color: u32, k: int) -> SetPixelRequest {
    SetPixelRequest {
        x: (left + k / (height as int)) as u32,
        y: (top + k % (height as int)) as u32,
        color,
    }
}

/// One write per cell of the box, all of one colour.
pub open spec fn rect_writes(left: u32, top: u32, width: u32, height: u32, color: u32) -> Seq<
    SetPixelRequest,
> {
    Seq::new((width * height) as nat, |k: int| rect_write(left, top, height, color, k))
}

/// Tells whether the box lies on the canvas and is not empty.
pub fn check_rect(left: u32, top: u32, width: u32, height: u32) -> (ok: bool)
    ensures
        ok == rect_ok(left, top, width, height),
{
    left < BOARD_WIDTH && top < BOARD_HEIGHT && width > 0 && width <= BOARD_WIDTH && height > 0
        && height <= BOARD_HEIGHT && left + width <= BOARD_WIDTH && top + height <= BOARD_HEIGHT
}

/// Renders a filled rectangle of one colour.
///
/// A box that leaves the canvas or is empty, or a colour above 24 bits, is
/// refused. Otherwise there is exactly one write per cell of the box.
pub fn internal_render_rect(left: u32, top: u32, width: u32, height: u32, color: u32) -> (rendered:
    Result<Vec<SetPixelRequest>, RenderError>)
    ensures
        rect_ok(left, top, width, height) && color <= MAX_COLOR ==> rendered is Ok
            && rendered->Ok_0@ == rect_writes(left, top, width, height, color),
        !(rect_ok(left, top, width, height) && color <= MAX_COLOR) ==> rendered == Err::<
            Vec<SetPixelRequest>,
            RenderError,
        >(RenderError::InvalidInput),
        rendered is Ok ==> rendered->Ok_0@.len() == width * height,
        rendered is Ok ==> forall|k: int|
            0 <= k < rendered->Ok_0@.len() ==> {
                let w = #[trigger] rendered->Ok_0@[k];
                in_rect(left, top, width, height, w.x as int, w.y as int) && w.color == color
            },
{
    if !check_rect(left, top, width, height) || color > MAX_COLOR {
        return Err(RenderError::InvalidInput);
    }
    let mut pixels: Vec<SetPixelRequest> = Vec::new();
    let mut x: u32 = left;
    while x < left + width
        invariant
            rect_ok(left, top, width, height),
            left <= x <= left + width,
            pixels@.len() == (x - left) * height,
            forall|k: int|
                0 <= k < pixels@.len() ==> {
                    let w = #[trigger] pixels@[k];
                    w == rect_write(left, top, height, color, k) && in_rect(
                        left,
                        top,
                        width,
                        height,
                        w.x as int,
                        w.y as int,
                    )
                },
        decreases left + width - x,
    {
        let mut y: u32 = top;
        while y < top + height
            invariant
                rect_ok(left, top, width, height),
                left <= x < left + width,
                top <= y <= top + height,
                pixels@.len() == (x - left) * height + (y - top),
                forall|k: int|
                    0 <= k < pixels@.len() ==> {
                        let w = #[trigger] pixels@[k];
                        w == rect_write(left, top, height, color, k) && in_rect(
                            left,
                            top,
                            width,
                            height,
                            w.x as int,
                            w.y as int,
                        )
                    },
            decreases top + height - y,
        {
            proof {
                lemma_fundamental_div_mod_converse(
                    pixels@.len() as int,
                    height as int,
                    x - left,
                    y - top,
                );
            }
            pixels.push(SetPixelRequest { x, y, color });
            y = y + 1;
        }
        assert((x + 1 - left) * height == (x - left) * height + height) by (nonlinear_arith);
        x = x + 1;
    }
    Ok(pixels)
}

} // verus!
