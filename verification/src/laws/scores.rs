//! Laws of scores and of putting things in order.

use vstd::prelude::*;

use crate::order::{is_ranking, key_values, picked, positions};
use crate::score::Score;

verus! {

/// The patterns above the one of infinity, of either sign, are those that are no number.
pub proof fn law_no_number(s: Score)
    ensures
        s.nan() <==> 0x7f80_0000 < s.bits < 0x8000_0000 || s.bits > 0xff80_0000,
{
}

/// Numbers without a sign grow with their pattern, numbers with a sign fall with it, and one
/// with a sign is below one without, except that the two zeros are equal. What is no number
/// is neither below nor above anything.
pub proof fn law_below(a: Score, b: Score)
    ensures
        a.nan() || b.nan() ==> !a.lt(b),
        !a.nan() && !b.nan() ==> {
            &&& a.bits < 0x8000_0000 && b.bits < 0x8000_0000 ==> (a.lt(b) <==> a.bits < b.bits)
            &&& a.bits >= 0x8000_0000 && b.bits >= 0x8000_0000 ==> (a.lt(b) <==> a.bits > b.bits)
            &&& a.bits >= 0x8000_0000 && b.bits < 0x8000_0000 ==> (a.lt(b) <==> !(a.bits
                == 0x8000_0000 && b.bits == 0))
            &&& a.bits < 0x8000_0000 && b.bits >= 0x8000_0000 ==> !a.lt(b)
        },
{
}

/// One number ranks below another exactly when it is below it.
pub proof fn law_ranks(a: Score, b: Score)
    requires
        !a.nan(),
        !b.nan(),
    ensures
        a.rank() < b.rank() <==> a.lt(b),
        a.rank() == b.rank() <==> !a.lt(b) && !b.lt(a),
{
}

/// In the total order everything with a sign comes before everything without, patterns
/// without a sign go up and patterns with a sign go down.
pub proof fn law_total_ranks(a: Score, b: Score)
    ensures
        a.total_rank() == b.total_rank() <==> a == b,
        a.bits >= 0x8000_0000 && b.bits < 0x8000_0000 ==> a.total_rank() < b.total_rank(),
        a.bits < b.bits < 0x8000_0000 ==> a.total_rank() < b.total_rank(),
        0x8000_0000 <= a.bits < b.bits ==> b.total_rank() < a.total_rank(),
{
}

/// From zero, of either sign, to one: exactly these lie in the unit interval.
pub proof fn law_unit_interval(s: Score)
    ensures
        s.unit() <==> s.bits <= 0x3f80_0000 || s.bits == 0x8000_0000,
{
}

/// The greater of two is one of them, and the other is not above it. What is no number gives
/// way to the other.
pub proof fn law_greater(a: Score, b: Score)
    ensures
        a.max(b) == a || a.max(b) == b,
        a.nan() ==> a.max(b) == b,
        b.nan() && !a.nan() ==> a.max(b) == a,
        !a.max(b).lt(a),
        !a.max(b).lt(b),
{
}

/// Positions and keys are the integers that stand in the lists.
pub proof fn law_integers(p: Seq<usize>, k: Seq<i64>)
    ensures
        positions(p).len() == p.len(),
        forall|i: int| 0 <= i < p.len() ==> #[trigger] positions(p)[i] == p[i],
        key_values(k).len() == k.len(),
        forall|i: int| 0 <= i < k.len() ==> #[trigger] key_values(k)[i] == k[i],
{
}

/// What is picked by a ranking holds each item once. An item comes before another exactly
/// when its key is greater, or the keys are equal and it came first.
pub proof fn law_picked_by_rank<A>(items: Seq<A>, keys: Seq<int>, order: Seq<int>)
    requires
        items.len() == keys.len(),
        is_ranking(keys, order),
    ensures
        order.len() == items.len(),
        picked(items, order).len() == items.len(),
        forall|i: int|
            0 <= i < items.len() ==> 0 <= #[trigger] order[i] < items.len() && picked(
                items,
                order,
            )[i] == items[order[i]],
        forall|k: int| 0 <= k < items.len() ==> #[trigger] order.contains(k),
        forall|i: int, j: int|
            0 <= i < j < items.len() ==> #[trigger] order[i] != #[trigger] order[j],
        forall|i: int, j: int|
            0 <= i < j < items.len() ==> keys[#[trigger] order[i]] >= keys[#[trigger] order[j]],
        forall|i: int, j: int|
            0 <= i < j < items.len() && keys[order[i]] == keys[order[j]] ==> #[trigger] order[i]
                < #[trigger] order[j],
{
}

} // verus!
