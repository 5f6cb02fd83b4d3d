//! Ordered selection: the items of an index range that a predicate keeps.
//!
//! Every rasteriser and the deduplication are stated as one selection, so the
//! facts about order, membership and length are proved here once.

use vstd::prelude::*;

verus! {

/// The items `item(i)` for those `i` in `0..n` that `keep` accepts, in
/// increasing order of `i`.
pub open spec fn pick<T>(n: nat, keep: spec_fn(int) -> bool, item: spec_fn(int) -> T) -> Seq<T>
    decreases n,
{
    if n == 0 {
        Seq::empty()
    } else {
        let before = pick((n - 1) as nat, keep, item);
        if keep(n - 1) {
            before.push(item(n - 1))
        } else {
            before
        }
    }
}

/// The selection over a shorter range is a prefix of the one over a longer range.
pub proof fn lemma_pick_prefix<T>(
    a: nat,
    b: nat,
    keep: spec_fn(int) -> bool,
    item: spec_fn(int) -> T,
)
    requires
        a <= b,
    ensures
        pick(a, keep, item).len() <= pick(b, keep, item).len(),
        pick(b, keep, item).subrange(0, pick(a, keep, item).len() as int) == pick(a, keep, item),
    decreases b - a,
{
    if a < b {
        lemma_pick_prefix(a, (b - 1) as nat, keep, item);
        let short = pick(a, keep, item);
        let mid = pick((b - 1) as nat, keep, item);
        if keep(b - 1) {
            assert(mid.push(item(b - 1)).subrange(0, short.len() as int) =~= mid.subrange(
                0,
                short.len() as int,
            ));
        }
    } else {
        assert(pick(a, keep, item).subrange(0, pick(a, keep, item).len() as int) =~= pick(
            a,
            keep,
            item,
        ));
    }
}

/// Indices that are not kept add nothing.
pub proof fn lemma_pick_skip<T>(
    a: nat,
    b: nat,
    keep: spec_fn(int) -> bool,
    item: spec_fn(int) -> T,
)
    requires
        a <= b,
        forall|i: int| a <= i < b ==> !#[trigger] keep(i),
    ensures
        pick(b, keep, item) == pick(a, keep, item),
    decreases b - a,
{
    if a < b {
        lemma_pick_skip(a, (b - 1) as nat, keep, item);
    }
}

/// A kept index `i` puts its item at the position that counts the kept
/// indices below `i`.
pub proof fn lemma_pick_at<T>(n: nat, keep: spec_fn(int) -> bool, item: spec_fn(int) -> T, i: int)
    requires
        0 <= i < n,
        keep(i),
    ensures
        pick(i as nat, keep, item).len() < pick(n, keep, item).len(),
        pick(n, keep, item)[pick(i as nat, keep, item).len() as int] == item(i),
{
    let upto = pick(i as nat, keep, item);
    let with = pick((i + 1) as nat, keep, item);
    lemma_pick_prefix((i + 1) as nat, n, keep, item);
    let all = pick(n, keep, item);
    assert(all.subrange(0, with.len() as int)[upto.len() as int] == with[upto.len() as int]);
}

/// Every item of a selection comes from a kept index, at the position that
/// counts the kept indices below it.
pub proof fn lemma_pick_origin<T>(
    n: nat,
    keep: spec_fn(int) -> bool,
    item: spec_fn(int) -> T,
    k: int,
) -> (i: int)
    requires
        0 <= k < pick(n, keep, item).len(),
    ensures
        0 <= i < n,
        keep(i),
        pick(i as nat, keep, item).len() == k,
        pick(n, keep, item)[k] == item(i),
    decreases n,
{
    let before = pick((n - 1) as nat, keep, item);
    if keep(n - 1) && k == before.len() {
        n - 1
    } else {
        lemma_pick_origin((n - 1) as nat, keep, item, k)
    }
}

/// The number of kept indices below `i` does not fall as `i` grows, and
/// grows past a kept index.
pub proof fn lemma_pick_order<T>(
    n: nat,
    keep: spec_fn(int) -> bool,
    item: spec_fn(int) -> T,
    i: int,
    j: int,
)
    requires
        0 <= i < j <= n,
        keep(i),
    ensures
        pick(i as nat, keep, item).len() < pick(j as nat, keep, item).len(),
{
    lemma_pick_at(j as nat, keep, item, i);
}

} // verus!
