//! The entry points: each renders one shape and composes the writes under
//! the policy that the contract is set to.

use vstd::prelude::*;
use crate::art::{art_writes, internal_render_art};
use crate::circle::{circle_writes, internal_render_circle};
use crate::codec::{decode_board, snapshot_colors, snapshot_ok};
use crate::compose::{batch_of, debug_board, draw, DedupPolicy, Rendering};
use crate::invert::{internal_invert_rect, invert_writes};
use crate::pixel::{all_valid, RenderError, SetPixelRequest};
use crate::rect::{internal_render_rect, rect_ok, rect_writes};
use crate::shake::{internal_pixel_shake, random_stream, shake_writes, stream_of};
use crate::{BOARD_HEIGHT, MAX_COLOR};

verus! {

/// The drawing contract. It holds no picture: the canvas belongs to the
/// canvas service, and a board is read anew for every request that needs one.
#[derive(Clone, Copy, Debug, PartialEq, Eq, Structural)]
pub struct Contract {
    /// How writes to one cell within a batch are resolved.
    pub policy: DedupPolicy,
}

impl Default for Contract {
    /// A contract that hands on one write per cell.
    fn default() -> (contract: Self)
        ensures
            contract.policy == DedupPolicy::FirstWins,
    {
        Contract { policy: DedupPolicy::FirstWins }
    }
}

/// `out` is the composition of `writes` under `policy`.
pub open spec fn composed(writes: Seq<SetPixelRequest>, policy: DedupPolicy, out: Rendering) -> bool {
    out.pixels@ == batch_of(writes, policy) && out.board.deep_view() == debug_board(writes)
}

impl Contract {
    /// Renders the sample picture.
    pub fn render_art(&mut self) -> (out: Rendering)
        ensures
            *final(self) == *old(self),
            composed(art_writes(), old(self).policy, out),
    {
        let pixels = internal_render_art();
        draw(pixels, self.policy).unwrap()
    }

    /// Renders a filled rectangle of one colour.
    pub fn render_rect(&mut self, left: u32, top: u32, width: u32, height: u32, color: u32) -> (out:
        Result<Rendering, RenderError>)
        ensures
            *final(self) == *old(self),
            rect_ok(left, top, width, height) && color <= MAX_COLOR ==> out is Ok && composed(
                rect_writes(left, top, width, height, color),
                old(self).policy,
                out->Ok_0,
            ),
            !(rect_ok(left, top, width, height) && color <= MAX_COLOR) ==> out == Err::<
                Rendering,
                RenderError,
            >(RenderError::InvalidInput),
    {
        match internal_render_rect(left, top, width, height, color) {
            Ok(pixels) => draw(pixels, self.policy),
            Err(e) => Err(e),
        }
    }

    /// Renders the outline of a circle in one colour.
    pub fn render_circle(&mut self, center_x: i32, center_y: i32, radius: u32, color: u32) -> (out:
        Result<Rendering, RenderError>)
        ensures
            *final(self) == *old(self),
            color <= MAX_COLOR ==> out is Ok && composed(
                circle_writes(center_x, center_y, radius, color),
                old(self).policy,
                out->Ok_0,
            ),
            color > MAX_COLOR ==> out == Err::<Rendering, RenderError>(RenderError::InvalidInput),
    {
        match internal_render_circle(center_x, center_y, radius, color) {
            Ok(pixels) => draw(pixels, self.policy),
            Err(e) => Err(e),
        }
    }

    /// Inverts the colours of a rectangular region of the board that the
    /// snapshot holds.
    ///
    /// The snapshot is decoded first, so a snapshot that does not decode is
    /// reported before a box that leaves the canvas.
    pub fn invert_rect(
        &mut self,
        lines: Vec<Vec<u8>>,
        left: u32,
        top: u32,
        width: u32,
        height: u32,
    ) -> (out: Result<Rendering, RenderError>)
        ensures
            *final(self) == *old(self),
            !snapshot_ok(lines.deep_view()) ==> out == Err::<Rendering, RenderError>(
                RenderError::DecodeError,
            ),
            snapshot_ok(lines.deep_view()) && !rect_ok(left, top, width, height) ==> out == Err::<
                Rendering,
                RenderError,
            >(RenderError::InvalidInput),
            snapshot_ok(lines.deep_view()) && rect_ok(left, top, width, height) ==> out is Ok
                && composed(
                invert_writes(snapshot_colors(lines.deep_view()), left, top, width, height),
                old(self).policy,
                out->Ok_0,
            ),
    {
        let board = match decode_board(lines) {
            Ok(board) => board,
            Err(e) => {
                return Err(e);
            },
        };
        match internal_invert_rect(board, left, top, width, height) {
            Ok(pixels) => draw(pixels, self.policy),
            Err(e) => Err(e),
        }
    }

    /// Shakes the rows of the board that the snapshot holds. The random
    /// stream is the seed followed by its hash.
    ///
    /// The snapshot is decoded first. A stream with fewer bytes than the
    /// canvas has rows is refused, and so is a board with a colour above 24
    /// bits, since a write would carry it.
    pub fn pixel_shake(
        &mut self,
        lines: Vec<Vec<u8>>,
        shake_distance: u32,
        random_seed: Vec<u8>,
        seed_hash: Vec<u8>,
    ) -> (out: Result<Rendering, RenderError>)
        ensures
            *final(self) == *old(self),
            !snapshot_ok(lines.deep_view()) ==> out == Err::<Rendering, RenderError>(
                RenderError::DecodeError,
            ),
            snapshot_ok(lines.deep_view()) ==> {
                let stream = stream_of(random_seed@, seed_hash@);
                let writes = shake_writes(
                    snapshot_colors(lines.deep_view()),
                    shake_distance,
                    stream,
                );
                if stream.len() >= BOARD_HEIGHT && all_valid(writes) {
                    out is Ok && composed(writes, old(self).policy, out->Ok_0)
                } else {
                    out == Err::<Rendering, RenderError>(RenderError::InvalidInput)
                }
            },
    {
        let board = match decode_board(lines) {
            Ok(board) => board,
            Err(e) => {
                return Err(e);
            },
        };
        let stream = random_stream(random_seed, seed_hash);
        match internal_pixel_shake(&board, shake_distance, &stream) {
            Ok(pixels) => draw(pixels, self.policy),
            Err(e) => Err(e),
        }
    }
}

} // verus!
