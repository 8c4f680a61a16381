//! The order in which results are ranked: by falling key, and where keys are equal by
//! where they stood before.

use vstd::prelude::*;

verus! {

/// What stands at `a` comes before what stands at `b`.
pub open spec fn comes_before(keys: Seq<int>, a: int, b: int) -> bool {
    keys[a] > keys[b] || (keys[a] == keys[b] && a < b)
}

/// `order` lists all positions of `keys`, each before those that it comes before.
pub open spec fn is_ranking(keys: Seq<int>, order: Seq<int>) -> bool {
    &&& order.len() == keys.len()
    &&& forall|i: int| 0 <= i < order.len() ==> 0 <= #[trigger] order[i] < keys.len()
    &&& forall|i: int, j: int|
        0 <= i < j < order.len() ==> comes_before(keys, #[trigger] order[i], #[trigger] order[j])
    &&& forall|k: int| 0 <= k < keys.len() ==> #[trigger] order.contains(k)
}

/// The items at the positions that `order` lists.
pub open spec fn picked<A>(items: Seq<A>, order: Seq<int>) -> Seq<A> {
    Seq::new(order.len(), |i: int| items[order[i]])
}

/// The positions as integers.
pub open spec fn positions(v: Seq<usize>) -> Seq<int> {
    Seq::new(v.len(), |i: int| v[i] as int)
}

/// The keys as integers.
pub open spec fn key_values(v: Seq<i64>) -> Seq<int> {
    Seq::new(v.len(), |i: int| v[i] as int)
}

/// There is only one ranking.
pub proof fn law_one_ranking(keys: Seq<int>, a: Seq<int>, b: Seq<int>)
    requires
        is_ranking(keys, a),
        is_ranking(keys, b),
    ensures
        a == b,
{
    lemma_same_up_to(keys, a, b, keys.len() as int);
    assert(a =~= b);
}

proof fn lemma_same_up_to(keys: Seq<int>, a: Seq<int>, b: Seq<int>, n: int)
    requires
        is_ranking(keys, a),
        is_ranking(keys, b),
        0 <= n <= keys.len(),
    ensures
        forall|i: int| 0 <= i < n ==> a[i] == b[i],
    decreases n,
{
    if n > 0 {
        lemma_same_up_to(keys, a, b, n - 1);
        let j = n - 1;
        let k = a[j];
        let m = b[j];
        assert(b.contains(k));
        assert(a.contains(m));
        let kb = choose|i: int| 0 <= i < b.len() && b[i] == k;
        let ma = choose|i: int| 0 <= i < a.len() && a[i] == m;
        if k != m {
            if kb < j {
                assert(comes_before(keys, a[kb], a[j]));
            } else if ma < j {
                assert(comes_before(keys, b[ma], b[j]));
            } else {
                assert(comes_before(keys, b[j], b[kb]));
                assert(comes_before(keys, a[j], a[ma]));
            }
        }
    }
}

/// A ranking is sorted by falling key, keeps items with equal keys in their order, and
/// neither drops nor repeats a position.
pub proof fn law_ranking(keys: Seq<int>, order: Seq<int>)
    requires
        is_ranking(keys, order),
    ensures
        forall|i: int, j: int|
            0 <= i < j < order.len() ==> keys[#[trigger] order[i]] >= keys[#[trigger] order[j]],
        forall|i: int, j: int|
            0 <= i < j < order.len() && keys[order[i]] == keys[order[j]] ==> #[trigger] order[i]
                < #[trigger] order[j],
        order.no_duplicates(),
        order.to_set() == Set::new(|k: int| 0 <= k < keys.len()),
{
    assert(order.to_set() =~= Set::new(|k: int| 0 <= k < keys.len())) by {
        assert forall|k: int| order.to_set().contains(k) <==> 0 <= k < keys.len() by {
            if order.contains(k) {
                let i = choose|i: int| 0 <= i < order.len() && order[i] == k;
                assert(0 <= order[i] < keys.len());
            }
        }
    }
}

/// The positions of `keys`, ranked.
pub fn rank(keys: &Vec<i64>) -> (r: Vec<usize>)
    ensures
        is_ranking(key_values(keys@), positions(r@)),
{
    let mut r: Vec<usize> = Vec::new();
    let mut i: usize = 0;
    let ghost all = key_values(keys@);
    while i < keys.len()
        invariant
            i <= keys.len(),
            all == key_values(keys@),
            is_ranking(all.take(i as int), positions(r@)),
        decreases keys.len() - i,
    {
        let ghost before = r@;
        proof {
            assert forall|q: int| 0 <= q < r.len() implies (#[trigger] r@[q]) < i by {
                assert(0 <= positions(r@)[q] < i);
            }
        }
        let mut p: usize = 0;
        while p < r.len() && keys[r[p]] >= keys[i]
            invariant
                i < keys.len(),
                p <= r.len(),
                r@ == before,
                all == key_values(keys@),
                is_ranking(all.take(i as int), positions(before)),
                forall|q: int| 0 <= q < r.len() ==> (#[trigger] r@[q]) < i,
                forall|q: int| 0 <= q < p ==> all[#[trigger] positions(before)[q]] >= all[i as int],
            decreases r.len() - p,
        {
            assert(positions(before)[p as int] == r@[p as int]);
            p += 1;
        }
        r.insert(p, i);
        proof {
            lemma_ranking_insert(all.take(i as int), positions(before), all[i as int], p as int);
            assert(all.take(i + 1) =~= all.take(i as int).push(all[i as int]));
            assert(positions(r@) =~= positions(before).insert(p as int, i as int));
        }
        i += 1;
    }
    assert(all.take(i as int) =~= all);
    r
}

/// A position more, put behind those with a key that is not smaller, makes a ranking of
/// the longer list.
proof fn lemma_ranking_insert(keys: Seq<int>, order: Seq<int>, key: int, p: int)
    requires
        is_ranking(keys, order),
        0 <= p <= order.len(),
        forall|q: int| 0 <= q < p ==> keys[#[trigger] order[q]] >= key,
        p < order.len() ==> keys[order[p]] < key,
    ensures
        is_ranking(keys.push(key), order.insert(p, keys.len() as int)),
{
    let more = keys.push(key);
    let n = keys.len() as int;
    let new = order.insert(p, n);
    assert forall|i: int| 0 <= i < new.len() implies 0 <= #[trigger] new[i] < more.len() by {
        if i < p {
            assert(new[i] == order[i]);
        } else if i > p {
            assert(new[i] == order[i - 1]);
        }
    }
    assert forall|i: int, j: int| 0 <= i < j < new.len() implies comes_before(
        more,
        #[trigger] new[i],
        #[trigger] new[j],
    ) by {
        if j < p {
            assert(new[i] == order[i] && new[j] == order[j]);
        } else if j == p {
            assert(new[i] == order[i]);
        } else if i < p {
            assert(new[i] == order[i] && new[j] == order[j - 1]);
        } else if i == p {
            assert(new[j] == order[j - 1]);
            if j - 1 > p {
                assert(comes_before(keys, order[p], order[j - 1]));
            }
        } else {
            assert(new[i] == order[i - 1] && new[j] == order[j - 1]);
        }
    }
    assert forall|k: int| 0 <= k < more.len() implies #[trigger] new.contains(k) by {
        if k == n {
            assert(new[p] == k);
        } else {
            assert(order.contains(k));
            let i = choose|i: int| 0 <= i < order.len() && order[i] == k;
            if i < p {
                assert(new[i] == k);
            } else {
                assert(new[i + 1] == k);
            }
        }
    }
}

} // verus!
