//! What accompanies a request to the canvas service: the rows to ask for,
//! the gas to attach and the deposit for tokens.

use vstd::prelude::*;
use crate::BOARD_HEIGHT;

verus! {

/// Gas attached to a purchase of tokens.
pub const BUY_TOKENS_GAS: u64 = 5_000_000_000_000;

/// Gas attached to a request for rows of the board.
pub const GET_LINES_GAS: u64 = 50_000_000_000_000;

/// Gas attached to every batch, whatever its size.
pub const BASE_DRAW_GAS: u64 = 50_000_000_000_000;

/// Gas that a render with a board read keeps back from the call that follows it.
pub const GAS_FOR_RENDER_WITH: u64 = GET_LINES_GAS + 20_000_000_000_000;

/// Gas attached for every write of a batch.
pub const GAS_PER_PIXEL: u64 = 50_000_000_000;

/// No deposit.
pub const NO_DEPOSIT: u128 = 0;

/// The smallest units that make one token.
pub const ONE_NEAR: u128 = 1_000_000_000_000_000_000_000_000;

/// The rows to ask for when the whole board is needed: all of them, top
/// row first.
pub fn all_lines() -> (lines: Vec<u32>)
    ensures
        lines@ == Seq::new(BOARD_HEIGHT as nat, |y: int| y as u32),
{
    let mut lines: Vec<u32> = Vec::new();
    let mut y: u32 = 0;
    while y < BOARD_HEIGHT
        invariant
            y <= BOARD_HEIGHT,
            lines@ == Seq::new(y as nat, |k: int| k as u32),
        decreases BOARD_HEIGHT - y,
    {
        lines.push(y);
        y = y + 1;
    }
    lines
}

/// The gas to attach to a batch of `count` writes, unless it exceeds what
/// a gas amount can hold.
pub fn draw_gas(count: usize) -> (gas: Option<u64>)
    ensures
        gas == (if BASE_DRAW_GAS + count * GAS_PER_PIXEL <= u64::MAX {
            Some((BASE_DRAW_GAS + count * GAS_PER_PIXEL) as u64)
        } else {
            None
        }),
{
    match (count as u64).checked_mul(GAS_PER_PIXEL) {
        Some(per_write) => BASE_DRAW_GAS.checked_add(per_write),
        None => None,
    }
}

/// The gas to pass on to the call that follows the board read: what was
/// prepaid less what the read keeps back, unless less was prepaid than that.
pub fn render_gas(prepaid: u64) -> (gas: Option<u64>)
    ensures
        gas == (if prepaid >= GAS_FOR_RENDER_WITH {
            Some((prepaid - GAS_FOR_RENDER_WITH) as u64)
        } else {
            None
        }),
{
    if prepaid >= GAS_FOR_RENDER_WITH {
        Some(prepaid - GAS_FOR_RENDER_WITH)
    } else {
        None
    }
}

/// The deposit that buys tokens for `near_amount` whole tokens.
pub fn buy_tokens_deposit(near_amount: u32) -> (deposit: u128)
    ensures
        deposit == near_amount * ONE_NEAR,
{
    (near_amount as u128) * ONE_NEAR
}

} // verus!
