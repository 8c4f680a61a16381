//! What the library promises, said of its inputs and results alone.

use vstd::prelude::*;

pub mod bodies;
pub mod commands;
pub mod entries;
pub mod finding;
pub mod mocks;
pub mod recall;
pub mod requests;
pub mod scores;
pub mod texts;
pub mod transcripts;
pub mod upkeep;

verus! {

/// `r` is made of the items of `from` that are to be kept, one by one and in their order:
/// `at` are the positions at which they stand.
pub open spec fn selects_at<A, B>(
    from: Seq<A>,
    keep: spec_fn(A) -> bool,
    made: spec_fn(A) -> B,
    r: Seq<B>,
    at: Seq<int>,
) -> bool {
    &&& at.len() == r.len()
    &&& forall|i: int, j: int| 0 <= i < j < at.len() ==> #[trigger] at[i] < #[trigger] at[j]
    &&& forall|i: int|
        0 <= i < at.len() ==> 0 <= #[trigger] at[i] < from.len() && keep(from[at[i]]) && r[i]
            == made(from[at[i]])
    &&& forall|k: int| 0 <= k < from.len() && keep(#[trigger] from[k]) ==> at.contains(k)
}

/// `r` is made of the items of `from` that are to be kept: of each of them, of no other, and
/// in their order.
pub open spec fn selects<A, B>(
    from: Seq<A>,
    keep: spec_fn(A) -> bool,
    made: spec_fn(A) -> B,
    r: Seq<B>,
) -> bool {
    exists|at: Seq<int>| #[trigger] selects_at(from, keep, made, r, at)
}

/// What it means to select: there are increasing positions, one for each item of the result,
/// at which an item stands that is to be kept and of which that item is made; and every item
/// that is to be kept stands at one of them.
pub proof fn law_selected<A, B>(
    from: Seq<A>,
    keep: spec_fn(A) -> bool,
    made: spec_fn(A) -> B,
    r: Seq<B>,
)
    requires
        selects(from, keep, made, r),
    ensures
        exists|at: Seq<int>|
            {
                &&& #[trigger] at.len() == r.len()
                &&& forall|i: int, j: int|
                    0 <= i < j < at.len() ==> #[trigger] at[i] < #[trigger] at[j]
                &&& forall|i: int|
                    0 <= i < at.len() ==> 0 <= #[trigger] at[i] < from.len() && keep(from[at[i]])
                        && r[i] == made(from[at[i]])
                &&& forall|k: int|
                    0 <= k < from.len() && keep(#[trigger] from[k]) ==> at.contains(k)
            },
        forall|k: int|
            0 <= k < from.len() && keep(#[trigger] from[k]) ==> r.contains(made(from[k])),
{
    let at = choose|at: Seq<int>| #[trigger] selects_at(from, keep, made, r, at);
    assert(at.len() == r.len());
    assert forall|k: int| 0 <= k < from.len() && keep(#[trigger] from[k]) implies r.contains(
        made(from[k]),
    ) by {
        assert(at.contains(k));
        let i = choose|i: int| 0 <= i < at.len() && at[i] == k;
        assert(r[i] == made(from[k]));
    }
}

/// Of nothing, nothing is made.
pub proof fn lemma_selects_none<A, B>(from: Seq<A>, keep: spec_fn(A) -> bool, made: spec_fn(A) -> B)
    requires
        from.len() == 0,
    ensures
        selects(from, keep, made, Seq::<B>::empty()),
{
    assert(selects_at(from, keep, made, Seq::<B>::empty(), Seq::<int>::empty()));
}

/// One more item at the end adds what is made of it, if it is to be kept.
pub proof fn lemma_selects_one_more<A, B>(
    from: Seq<A>,
    keep: spec_fn(A) -> bool,
    made: spec_fn(A) -> B,
    before: Seq<B>,
)
    requires
        from.len() > 0,
        selects(from.drop_last(), keep, made, before),
    ensures
        keep(from.last()) ==> selects(from, keep, made, before.push(made(from.last()))),
        !keep(from.last()) ==> selects(from, keep, made, before),
{
    let front = from.drop_last();
    let n = from.len() - 1;
    let at = choose|at: Seq<int>| #[trigger] selects_at(front, keep, made, before, at);
    if keep(from.last()) {
        let more = at.push(n);
        let r = before.push(made(from.last()));
        assert forall|i: int| 0 <= i < more.len() implies 0 <= #[trigger] more[i] < from.len()
            && keep(from[more[i]]) && r[i] == made(from[more[i]]) by {
            if i < at.len() {
                assert(more[i] == at[i]);
                assert(front[at[i]] == from[at[i]]);
            }
        }
        assert forall|i: int, j: int| 0 <= i < j < more.len() implies #[trigger] more[i]
            < #[trigger] more[j] by {
            assert(more[i] == at[i]);
            if j < at.len() {
                assert(more[j] == at[j]);
            }
        }
        assert forall|k: int| 0 <= k < from.len() && keep(#[trigger] from[k]) implies more.contains(
            k,
        ) by {
            if k < n {
                assert(front[k] == from[k]);
                assert(at.contains(k));
                let i = choose|i: int| 0 <= i < at.len() && at[i] == k;
                assert(more[i] == k);
            } else {
                assert(more[at.len() as int] == k);
            }
        }
        assert(selects_at(from, keep, made, r, more));
    } else {
        assert forall|k: int| 0 <= k < from.len() && keep(#[trigger] from[k]) implies at.contains(
            k,
        ) by {
            assert(front[k] == from[k]);
        }
        assert forall|i: int| 0 <= i < at.len() implies 0 <= #[trigger] at[i] < from.len() && keep(
            from[at[i]],
        ) && before[i] == made(from[at[i]]) by {
            assert(front[at[i]] == from[at[i]]);
        }
        assert(selects_at(from, keep, made, before, at));
    }
}

/// The positions in a list of `n` items.
pub open spec fn places(n: nat) -> Seq<int> {
    Seq::new(n, |i: int| i)
}

/// What is selected from the first places alone is selected, where the items that stand there
/// count alike.
pub proof fn lemma_selects_one_more_place<B>(
    n: nat,
    keep_before: spec_fn(int) -> bool,
    made_before: spec_fn(int) -> B,
    keep: spec_fn(int) -> bool,
    made: spec_fn(int) -> B,
    before: Seq<B>,
)
    requires
        selects(places(n), keep_before, made_before, before),
        forall|i: int| 0 <= i < n ==> #[trigger] keep_before(i) == keep(i),
        forall|i: int| 0 <= i < n && keep(i) ==> #[trigger] made_before(i) == made(i),
    ensures
        keep(n as int) ==> selects(places(n + 1), keep, made, before.push(made(n as int))),
        !keep(n as int) ==> selects(places(n + 1), keep, made, before),
{
    let at = choose|at: Seq<int>| #[trigger]
        selects_at(places(n), keep_before, made_before, before, at);
    assert forall|i: int| 0 <= i < at.len() implies 0 <= #[trigger] at[i] < places(n).len() && keep(
        places(n)[at[i]],
    ) && before[i] == made(places(n)[at[i]]) by {
        assert(places(n)[at[i]] == at[i]);
        assert(keep_before(at[i]) == keep(at[i]));
        assert(made_before(at[i]) == made(at[i]));
    }
    assert forall|k: int| 0 <= k < places(n).len() && keep(
        #[trigger] places(n)[k],
    ) implies at.contains(k) by {
        assert(keep_before(k) == keep(k));
        assert(keep_before(places(n)[k]));
    }
    assert(selects_at(places(n), keep, made, before, at));
    assert(places(n + 1).drop_last() =~= places(n));
    lemma_selects_one_more(places(n + 1), keep, made, before);
}

} // verus!
