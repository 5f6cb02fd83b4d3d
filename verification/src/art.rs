//! The sample picture: three rings around one centre.

use vstd::prelude::*;
use crate::circle::{circle_writes, internal_render_circle};
use crate::pixel::{all_valid, SetPixelRequest};

verus! {

/// The writes of the sample picture: a red ring of radius 15, a yellow ring
/// of radius 10 and a green ring of radius 5, all around cell `(20, 20)`.
pub open spec fn art_writes() -> Seq<SetPixelRequest> {
    circle_writes(20, 20, 15, 0xff0000) + circle_writes(20, 20, 10, 0xffff00) + circle_writes(
        20,
        20,
        5,
        0x00ff00,
    )
}

/// Renders the sample picture.
pub fn internal_render_art() -> (pixels: Vec<SetPixelRequest>)
    ensures
        pixels@ == art_writes(),
        all_valid(pixels@),
{
    let mut pixels: Vec<SetPixelRequest> = Vec::new();
    let mut outer = internal_render_circle(20, 20, 15, 0xff0000).unwrap();
    let mut middle = internal_render_circle(20, 20, 10, 0xffff00).unwrap();
    let mut inner = internal_render_circle(20, 20, 5, 0x00ff00).unwrap();
    pixels.append(&mut outer);
    pixels.append(&mut middle);
    pixels.append(&mut inner);
    pixels
}

} // verus!
