//! Composition of a batch of writes: validation, the deduplication policy and
//! the occupancy board that is shown for debugging.

use vstd::prelude::*;
use crate::pixel::{all_on_canvas, all_valid, RenderError, SetPixelRequest};
use crate::select::{lemma_pick_at, lemma_pick_order, lemma_pick_origin, pick};
use crate::{BOARD_HEIGHT, BOARD_WIDTH};

verus! {

/// Mark of a cell that no write of the batch addresses.
pub const EMPTY_MARK: u8 = 46;

/// Mark of a cell that some write of the batch addresses.
pub const WRITTEN_MARK: u8 = 88;

/// How writes to one cell within a batch are resolved.
#[derive(Clone, Copy, Debug, PartialEq, Eq, Structural)]
pub enum DedupPolicy {
    /// The batch is handed on unchanged; the canvas applies it in order, so
    /// of several writes to one cell the last applied stays.
    Overwrite,
    /// The batch is scanned from its end backwards. The first write met for a
    /// cell is kept and every other write to that cell is dropped. The kept
    /// writes stay in the order that they had in the batch.
    FirstWins,
}

/// A composed batch: the writes to hand on, and the occupancy board.
#[derive(Debug)]
pub struct Rendering {
    /// The writes to hand on, in order.
    pub pixels: Vec<SetPixelRequest>,
    /// One row of marks per canvas row, top row first.
    pub board: Vec<Vec<u8>>,
}

/// No write after position `i` addresses the cell of write `i`.
pub open spec fn survives(writes: Seq<SetPixelRequest>, i: int) -> bool {
    forall|j: int| i < j < writes.len() ==> !(#[trigger] writes[j]).same_cell(writes[i])
}

/// `survives`, as a predicate on positions.
pub open spec fn survivor_of(writes: Seq<SetPixelRequest>) -> spec_fn(int) -> bool {
    |i: int| survives(writes, i)
}

/// The write at a position.
pub open spec fn write_of(writes: Seq<SetPixelRequest>) -> spec_fn(int) -> SetPixelRequest {
    |i: int| writes[i]
}

/// The surviving writes, in the order that they had in the batch.
pub open spec fn deduplicated(writes: Seq<SetPixelRequest>) -> Seq<SetPixelRequest> {
    pick(writes.len(), survivor_of(writes), write_of(writes))
}

/// The writes that a policy hands on.
pub open spec fn batch_of(writes: Seq<SetPixelRequest>, policy: DedupPolicy) -> Seq<
    SetPixelRequest,
> {
    match policy {
        DedupPolicy::Overwrite => writes,
        DedupPolicy::FirstWins => deduplicated(writes),
    }
}

/// Some write at position `from` or later addresses cell `(x, y)`.
pub open spec fn touched_from(writes: Seq<SetPixelRequest>, from: int, x: int, y: int) -> bool {
    exists|i: int| from <= i < writes.len() && (#[trigger] writes[i]).x == x && writes[i].y == y
}

/// Some write addresses cell `(x, y)`.
pub open spec fn touched(writes: Seq<SetPixelRequest>, x: int, y: int) -> bool {
    touched_from(writes, 0, x, y)
}

/// The mark of cell `(x, y)` on the occupancy board.
pub open spec fn mark_at(writes: Seq<SetPixelRequest>, x: int, y: int) -> u8 {
    if touched(writes, x, y) {
        WRITTEN_MARK
    } else {
        EMPTY_MARK
    }
}

/// The occupancy board of a batch: it shows which cells are written, not
/// with which colour.
pub open spec fn debug_board(writes: Seq<SetPixelRequest>) -> Seq<Seq<u8>> {
    Seq::new(
        BOARD_HEIGHT as nat,
        |y: int| Seq::new(BOARD_WIDTH as nat, |x: int| mark_at(writes, x, y)),
    )
}

/// The cell marks agree with the batch, the cells numbered row by row.
pub open spec fn marks_of(seen: Seq<bool>, writes: Seq<SetPixelRequest>) -> bool {
    &&& seen.len() == BOARD_WIDTH * BOARD_HEIGHT
    &&& forall|c: int|
        0 <= c < BOARD_WIDTH * BOARD_HEIGHT ==> #[trigger] seen[c] == touched(
            writes,
            c % (BOARD_WIDTH as int),
            c / (BOARD_WIDTH as int),
        )
}

/// Tells whether every write of the batch is valid.
pub fn check_writes(pixels: &[SetPixelRequest]) -> (ok: bool)
    ensures
        ok == all_valid(pixels@),
{
    let mut i: usize = 0;
    while i < pixels.len()
        invariant
            i <= pixels.len(),
            forall|k: int| 0 <= k < i ==> (#[trigger] pixels@[k]).valid(),
        decreases pixels.len() - i,
    {
        if !pixels[i].is_valid() {
            return false;
        }
        i = i + 1;
    }
    true
}

/// Tells whether every write of the batch addresses a cell of the canvas.
pub fn check_on_canvas(pixels: &[SetPixelRequest]) -> (ok: bool)
    ensures
        ok == all_on_canvas(pixels@),
{
    let mut i: usize = 0;
    while i < pixels.len()
        invariant
            i <= pixels.len(),
            forall|k: int| 0 <= k < i ==> (#[trigger] pixels@[k]).on_canvas(),
        decreases pixels.len() - i,
    {
        if pixels[i].x >= BOARD_WIDTH || pixels[i].y >= BOARD_HEIGHT {
            return false;
        }
        i = i + 1;
    }
    true
}

/// Scans the batch from its end backwards and records, for every position,
/// whether its write survives, and for every cell, whether it is written.
/// The cells are numbered row by row.
fn scan_back(pixels: &[SetPixelRequest]) -> (marks: (Vec<bool>, Vec<bool>))
    requires
        all_on_canvas(pixels@),
    ensures
        marks.0.len() == pixels.len(),
        forall|k: int| 0 <= k < pixels.len() ==> #[trigger] marks.0@[k] == survives(pixels@, k),
        marks_of(marks.1@, pixels@),
{
    let n: usize = pixels.len();
    let mut keep: Vec<bool> = Vec::new();
    let mut k: usize = 0;
    while k < n
        invariant
            k <= n,
            keep.len() == k,
        decreases n - k,
    {
        keep.push(false);
        k = k + 1;
    }
    let mut seen: Vec<bool> = Vec::new();
    let mut c: u32 = 0;
    while c < BOARD_WIDTH * BOARD_HEIGHT
        invariant
            c <= BOARD_WIDTH * BOARD_HEIGHT,
            seen.len() == c,
            forall|d: int| 0 <= d < c ==> !#[trigger] seen@[d],
        decreases BOARD_WIDTH * BOARD_HEIGHT - c,
    {
        seen.push(false);
        c = c + 1;
    }
    let mut i: usize = n;
    while i > 0
        invariant
            n == pixels.len(),
            all_on_canvas(pixels@),
            i <= n,
            keep.len() == n,
            seen.len() == BOARD_WIDTH * BOARD_HEIGHT,
            forall|k: int| i <= k < n ==> #[trigger] keep@[k] == survives(pixels@, k),
            forall|d: int|
                0 <= d < BOARD_WIDTH * BOARD_HEIGHT ==> #[trigger] seen@[d] == touched_from(
                    pixels@,
                    i as int,
                    d % (BOARD_WIDTH as int),
                    d / (BOARD_WIDTH as int),
                ),
        decreases i,
    {
        let at: usize = i - 1;
        let p: SetPixelRequest = pixels[at];
        let cell: usize = (p.y * BOARD_WIDTH + p.x) as usize;
        let fresh: bool = !seen[cell];
        if fresh {
            seen.set(cell, true);
        }
        keep.set(at, fresh);
        i = at;
    }
    (keep, seen)
}

/// The marks of one row of the occupancy board.
fn row_marks(seen: &Vec<bool>, y: u32, Ghost(writes): Ghost<Seq<SetPixelRequest>>) -> (row: Vec<u8>)
    requires
        marks_of(seen@, writes),
        y < BOARD_HEIGHT,
    ensures
        row@ == Seq::new(BOARD_WIDTH as nat, |x: int| mark_at(writes, x, y as int)),
{
    let mut row: Vec<u8> = Vec::new();
    let mut x: u32 = 0;
    while x < BOARD_WIDTH
        invariant
            x <= BOARD_WIDTH,
            y < BOARD_HEIGHT,
            marks_of(seen@, writes),
            row.len() == x,
            forall|k: int| 0 <= k < x ==> #[trigger] row@[k] == mark_at(writes, k, y as int),
        decreases BOARD_WIDTH - x,
    {
        let cell: usize = (y * BOARD_WIDTH + x) as usize;
        if seen[cell] {
            row.push(WRITTEN_MARK);
        } else {
            row.push(EMPTY_MARK);
        }
        x = x + 1;
    }
    row
}

/// Lays the cell marks out as the rows of the occupancy board.
fn board_rows(seen: &Vec<bool>, Ghost(writes): Ghost<Seq<SetPixelRequest>>) -> (board: Vec<Vec<u8>>)
    requires
        marks_of(seen@, writes),
    ensures
        board.deep_view() == debug_board(writes),
{
    let mut board: Vec<Vec<u8>> = Vec::new();
    let mut y: u32 = 0;
    while y < BOARD_HEIGHT
        invariant
            y <= BOARD_HEIGHT,
            marks_of(seen@, writes),
            board.len() == y,
            forall|r: int|
                0 <= r < y ==> (#[trigger] board@[r])@ == Seq::new(
                    BOARD_WIDTH as nat,
                    |x: int| mark_at(writes, x, r),
                ),
        decreases BOARD_HEIGHT - y,
    {
        let row = row_marks(seen, y, Ghost(writes));
        board.push(row);
        y = y + 1;
    }
    assert(board.deep_view() =~~= debug_board(writes));
    board
}

/// Copies out the writes whose position is marked, in order.
fn take_survivors(pixels: &[SetPixelRequest], keep: &Vec<bool>) -> (kept: Vec<SetPixelRequest>)
    requires
        keep.len() == pixels.len(),
        forall|k: int| 0 <= k < pixels.len() ==> #[trigger] keep@[k] == survives(pixels@, k),
    ensures
        kept@ == deduplicated(pixels@),
{
    let mut kept: Vec<SetPixelRequest> = Vec::new();
    let mut i: usize = 0;
    while i < pixels.len()
        invariant
            i <= pixels.len(),
            keep.len() == pixels.len(),
            forall|k: int| 0 <= k < pixels.len() ==> #[trigger] keep@[k] == survives(pixels@, k),
            kept@ == pick(i as nat, survivor_of(pixels@), write_of(pixels@)),
        decreases pixels.len() - i,
    {
        if keep[i] {
            kept.push(pixels[i]);
        }
        i = i + 1;
    }
    kept
}

/// `kept` holds the surviving writes of `writes` and no other write, and
/// no two writes to one cell.
pub open spec fn one_per_cell(writes: Seq<SetPixelRequest>, kept: Seq<SetPixelRequest>) -> bool {
    &&& forall|k: int|
        0 <= k < kept.len() ==> exists|i: int|
            0 <= i < writes.len() && survives(writes, i) && #[trigger] writes[i] == #[trigger] kept[k]
    &&& forall|i: int|
        0 <= i < writes.len() && survives(writes, i) ==> exists|k: int|
            0 <= k < kept.len() && #[trigger] kept[k] == #[trigger] writes[i]
    &&& forall|a: int, b: int|
        0 <= a < b < kept.len() ==> !(#[trigger] kept[a]).same_cell(#[trigger] kept[b])
}

/// Composes a batch under a policy.
///
/// A batch with an invalid write is refused as a whole. Otherwise the result
/// holds the writes that the policy hands on and the occupancy board of the
/// batch.
pub fn draw(pixels: Vec<SetPixelRequest>, policy: DedupPolicy) -> (composed: Result<
    Rendering,
    RenderError,
>)
    ensures
        all_valid(pixels@) ==> composed is Ok && composed->Ok_0.pixels@ == batch_of(
            pixels@,
            policy,
        ) && composed->Ok_0.board.deep_view() == debug_board(pixels@),
        !all_valid(pixels@) ==> composed == Err::<Rendering, RenderError>(
            RenderError::InvalidInput,
        ),
        composed is Ok && policy == DedupPolicy::FirstWins ==> one_per_cell(
            pixels@,
            composed->Ok_0.pixels@,
        ),
{
    if !check_writes(pixels.as_slice()) {
        return Err(RenderError::InvalidInput);
    }
    let (keep, seen) = scan_back(pixels.as_slice());
    let board = board_rows(&seen, Ghost(pixels@));
    match policy {
        DedupPolicy::Overwrite => Ok(Rendering { pixels, board }),
        DedupPolicy::FirstWins => {
            let kept = take_survivors(pixels.as_slice(), &keep);
            proof {
                lemma_deduplicated_one_per_cell(pixels@);
            }
            Ok(Rendering { pixels: kept, board })
        },
    }
}

/// The character that a mark shows as.
pub open spec fn mark_char(mark: u8) -> char {
    mark as char
}

/// The occupancy board as text: one line per canvas row, one character per
/// cell.
pub open spec fn debug_text(writes: Seq<SetPixelRequest>) -> Seq<Seq<char>> {
    Seq::new(
        BOARD_HEIGHT as nat,
        |y: int| Seq::new(BOARD_WIDTH as nat, |x: int| mark_char(mark_at(writes, x, y))),
    )
}

/// The text of a row of marks.
///
/// This is `String::from_utf8` of std, and nothing here checks it. Bytes
/// below 128 are valid UTF-8 in which every byte is one character with the
/// code of the byte: on such bytes the call does not fail, and the text has
/// these characters.
#[verifier::external_body]
fn ascii_text(bytes: Vec<u8>) -> (text: String)
    requires
        forall|i: int| 0 <= i < bytes@.len() ==> #[trigger] bytes@[i] < 128,
    ensures
        text@ == Seq::new(bytes@.len(), |i: int| mark_char(bytes@[i])),
{
    String::from_utf8(bytes).unwrap_or_default()
}

/// Renders the occupancy board of a batch as text, for a reader: `X` for a
/// cell that the batch writes, `.` for any other.
///
/// A batch with a write off the canvas is refused.
pub fn debug_print_pixels(pixels: &[SetPixelRequest]) -> (printed: Result<Vec<String>, RenderError>)
    ensures
        all_on_canvas(pixels@) ==> printed is Ok && printed->Ok_0.deep_view() == debug_text(
            pixels@,
        ),
        !all_on_canvas(pixels@) ==> printed == Err::<Vec<String>, RenderError>(
            RenderError::InvalidInput,
        ),
{
    if !check_on_canvas(pixels) {
        return Err(RenderError::InvalidInput);
    }
    let (_, seen) = scan_back(pixels);
    let mut printed: Vec<String> = Vec::new();
    let mut y: u32 = 0;
    while y < BOARD_HEIGHT
        invariant
            y <= BOARD_HEIGHT,
            marks_of(seen@, pixels@),
            printed@.len() == y,
            forall|r: int| 0 <= r < y ==> (#[trigger] printed@[r])@ == debug_text(pixels@)[r],
        decreases BOARD_HEIGHT - y,
    {
        let row = row_marks(&seen, y, Ghost(pixels@));
        let line = ascii_text(row);
        printed.push(line);
        y = y + 1;
    }
    Ok(printed)
}

/// The number of surviving writes before position `i`: the place in the
/// deduplicated batch of the write at `i`, if it survives.
pub open spec fn kept_before(writes: Seq<SetPixelRequest>, i: int) -> nat {
    pick(i as nat, survivor_of(writes), write_of(writes)).len()
}

/// A surviving write is in the deduplicated batch, after the survivors
/// that precede it.
pub proof fn lemma_survivor_is_kept(writes: Seq<SetPixelRequest>, i: int)
    requires
        0 <= i < writes.len(),
        survives(writes, i),
    ensures
        kept_before(writes, i) < deduplicated(writes).len(),
        deduplicated(writes)[kept_before(writes, i) as int] == writes[i],
{
    lemma_pick_at(writes.len(), survivor_of(writes), write_of(writes), i);
}

/// Every write of the deduplicated batch is a surviving write, and stands
/// after the survivors that precede it.
pub proof fn lemma_kept_is_survivor(writes: Seq<SetPixelRequest>, k: int) -> (i: int)
    requires
        0 <= k < deduplicated(writes).len(),
    ensures
        0 <= i < writes.len(),
        survives(writes, i),
        kept_before(writes, i) == k,
        deduplicated(writes)[k] == writes[i],
{
    lemma_pick_origin(writes.len(), survivor_of(writes), write_of(writes), k)
}

/// The deduplicated batch keeps the order of the writes: a write that
/// stands earlier in it stood earlier in the sequence.
pub proof fn lemma_kept_in_order(writes: Seq<SetPixelRequest>, i: int, j: int)
    requires
        0 <= i < writes.len(),
        0 <= j < writes.len(),
        survives(writes, i),
        survives(writes, j),
    ensures
        i < j <==> kept_before(writes, i) < kept_before(writes, j),
{
    let keep = survivor_of(writes);
    let item = write_of(writes);
    if i < j {
        lemma_pick_order(writes.len(), keep, item, i, j);
    } else if j < i {
        lemma_pick_order(writes.len(), keep, item, j, i);
    }
}

/// The deduplicated batch holds at most one write for a cell.
pub proof fn lemma_one_write_per_cell(writes: Seq<SetPixelRequest>, a: int, b: int)
    requires
        0 <= a < b < deduplicated(writes).len(),
    ensures
        !deduplicated(writes)[a].same_cell(deduplicated(writes)[b]),
{
    let i = lemma_kept_is_survivor(writes, a);
    let j = lemma_kept_is_survivor(writes, b);
    lemma_kept_in_order(writes, i, j);
}

/// From any write on, the sequence holds a last write to the same cell,
/// and that one survives.
pub proof fn lemma_last_write(writes: Seq<SetPixelRequest>, i: int) -> (last: int)
    requires
        0 <= i < writes.len(),
    ensures
        i <= last < writes.len(),
        survives(writes, last),
        writes[last].same_cell(writes[i]),
    decreases writes.len() - i,
{
    if survives(writes, i) {
        i
    } else {
        let j = choose|j: int| i < j < writes.len() && (#[trigger] writes[j]).same_cell(writes[i]);
        lemma_last_write(writes, j)
    }
}

/// Of two writes to one cell the earlier one is dropped. The batch keeps
/// one write to that cell: the last that the sequence holds for it.
pub proof fn lemma_earlier_write_dropped(writes: Seq<SetPixelRequest>, i: int, j: int) -> (last: int)
    requires
        0 <= i < j < writes.len(),
        writes[i].same_cell(writes[j]),
    ensures
        !survives(writes, i),
        j <= last < writes.len(),
        writes[last].same_cell(writes[j]),
        survives(writes, last),
        kept_before(writes, last) < deduplicated(writes).len(),
        deduplicated(writes)[kept_before(writes, last) as int] == writes[last],
        forall|k: int|
            0 <= k < deduplicated(writes).len() && (#[trigger] deduplicated(writes)[k]).same_cell(
                writes[j],
            ) ==> k == kept_before(writes, last),
{
    let last = lemma_last_write(writes, j);
    lemma_survivor_is_kept(writes, last);
    let at = kept_before(writes, last) as int;
    assert forall|k: int|
        0 <= k < deduplicated(writes).len() && (#[trigger] deduplicated(writes)[k]).same_cell(
            writes[j],
        ) implies k == at by {
        if k < at {
            lemma_one_write_per_cell(writes, k, at);
        } else if at < k {
            lemma_one_write_per_cell(writes, at, k);
        }
    }
    last
}

/// Of two different writes to one cell, the batch holds the earlier one
/// and not the later one where the last write that the sequence holds for
/// the cell repeats the earlier one. Where it does not, the batch holds
/// that last write in place of the earlier one.
pub proof fn lemma_repeated_write_is_kept(writes: Seq<SetPixelRequest>, i: int, j: int)
    requires
        0 <= i < j < writes.len(),
        writes[i].same_cell(writes[j]),
        writes[i] != writes[j],
        forall|l: int|
            0 <= l < writes.len() && survives(writes, l) && (#[trigger] writes[l]).same_cell(
                writes[i],
            ) ==> writes[l] == writes[i],
    ensures
        deduplicated(writes).contains(writes[i]),
        !deduplicated(writes).contains(writes[j]),
{
    let kept = deduplicated(writes);
    let last = lemma_last_write(writes, j);
    lemma_survivor_is_kept(writes, last);
    if kept.contains(writes[j]) {
        let k = choose|k: int| 0 <= k < kept.len() && kept[k] == writes[j];
        let from = lemma_kept_is_survivor(writes, k);
    }
}

/// The deduplicated batch holds the surviving writes and no other write,
/// and no two writes to one cell.
pub proof fn lemma_deduplicated_one_per_cell(writes: Seq<SetPixelRequest>)
    ensures
        one_per_cell(writes, deduplicated(writes)),
{
    let kept = deduplicated(writes);
    assert forall|k: int| 0 <= k < kept.len() implies exists|i: int|
        0 <= i < writes.len() && survives(writes, i) && #[trigger] writes[i] == #[trigger] kept[k] by {
        let i = lemma_kept_is_survivor(writes, k);
    }
    assert forall|i: int| 0 <= i < writes.len() && survives(writes, i) implies exists|k: int|
        0 <= k < kept.len() && #[trigger] kept[k] == #[trigger] writes[i] by {
        lemma_survivor_is_kept(writes, i);
    }
    assert forall|a: int, b: int| 0 <= a < b < kept.len() implies !(#[trigger] kept[a]).same_cell(
        #[trigger] kept[b],
    ) by {
        lemma_one_write_per_cell(writes, a, b);
    }
}

} // verus!
