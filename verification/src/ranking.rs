//! Ranking of scored hits: descending score, ties in index order.
//!
//! A score is the integer that stands for a relevance score of the index;
//! the larger integer is the better score. Hits are identified by their
//! position in the list that the index returned, so that the ranking is a
//! sequence of positions.

use vstd::prelude::*;

verus! {

/// The hit at position `a` ranks before the hit at position `b`: it has the
/// higher score, or the same score and the earlier position.
pub open spec fn precedes(scores: Seq<u32>, a: int, b: int) -> bool {
    scores[a] > scores[b] || (scores[a] == scores[b] && a < b)
}

/// `order` lists positions so that each ranks before all that follow it.
pub open spec fn ranked(scores: Seq<u32>, order: Seq<int>) -> bool {
    forall|k1: int, k2: int|
        0 <= k1 < k2 < order.len() ==> precedes(scores, #[trigger] order[k1], #[trigger] order[k2])
}

/// `order` is the ranking of the first `n` positions: it lists each of them
/// once, and each ranks before all that follow it.
pub open spec fn is_ranking(scores: Seq<u32>, n: nat, order: Seq<int>) -> bool {
    &&& order.len() == n
    &&& forall|k: int| 0 <= k < order.len() ==> 0 <= #[trigger] order[k] < n
    &&& forall|i: int| 0 <= i < n ==> order.contains(i)
    &&& ranked(scores, order)
}

/// `order` with `item` put behind the last position that ranks before it.
pub open spec fn insert_ranked(scores: Seq<u32>, order: Seq<int>, item: int) -> Seq<int>
    decreases order.len(),
{
    if order.len() == 0 {
        seq![item]
    } else if precedes(scores, order.last(), item) {
        order.push(item)
    } else {
        insert_ranked(scores, order.drop_last(), item).push(order.last())
    }
}

/// The ranking of the first `n` positions of `scores`.
pub open spec fn ranking_upto(scores: Seq<u32>, n: nat) -> Seq<int>
    decreases n,
{
    if n == 0 {
        Seq::empty()
    } else {
        insert_ranked(scores, ranking_upto(scores, (n - 1) as nat), n - 1)
    }
}

/// The ranking of all positions of `scores`: descending score, equal scores
/// in the order of their positions.
pub open spec fn ranking_of(scores: Seq<u32>) -> Seq<int> {
    ranking_upto(scores, scores.len())
}

/// The positions of a ranking as integers.
pub open spec fn positions(order: Seq<usize>) -> Seq<int> {
    Seq::new(order.len(), |k: int| order[k] as int)
}

/// `insert_ranked` puts `item` at `at` when everything from `at` on does not
/// rank before it and the position before `at` does.
pub proof fn lemma_insert_ranked_at(scores: Seq<u32>, order: Seq<int>, item: int, at: int)
    requires
        0 <= at <= order.len(),
        forall|k: int| at <= k < order.len() ==> !precedes(scores, #[trigger] order[k], item),
        at > 0 ==> precedes(scores, order[at - 1], item),
    ensures
        insert_ranked(scores, order, item) == order.insert(at, item),
    decreases order.len() - at,
{
    if order.len() == 0 {
        assert(order.insert(at, item) =~= seq![item]);
    } else if at == order.len() {
        assert(order.insert(at, item) =~= order.push(item));
    } else {
        let shorter = order.drop_last();
        assert(!precedes(scores, order[order.len() - 1], item));
        assert forall|k: int| at <= k < shorter.len() implies !precedes(
            scores,
            #[trigger] shorter[k],
            item,
        ) by {
            assert(shorter[k] == order[k]);
        }
        lemma_insert_ranked_at(scores, shorter, item, at);
        assert(shorter.insert(at, item).push(order.last()) =~= order.insert(at, item));
    }
}

/// Inserting a new position into a ranked list keeps it ranked, adds the
/// position and nothing else.
pub proof fn lemma_insert_ranked(scores: Seq<u32>, order: Seq<int>, item: int)
    requires
        ranked(scores, order),
        forall|k: int| 0 <= k < order.len() ==> #[trigger] order[k] != item,
    ensures
        ranked(scores, insert_ranked(scores, order, item)),
        insert_ranked(scores, order, item).len() == order.len() + 1,
        insert_ranked(scores, order, item).contains(item),
        forall|k: int|
            0 <= k < order.len() ==> insert_ranked(scores, order, item).contains(
                #[trigger] order[k],
            ),
        forall|k: int|
            0 <= k < insert_ranked(scores, order, item).len() ==> (#[trigger] insert_ranked(
                scores,
                order,
                item,
            )[k]) == item || order.contains(insert_ranked(scores, order, item)[k]),
    decreases order.len(),
{
    let result = insert_ranked(scores, order, item);
    if order.len() == 0 {
        assert(result[0] == item);
    } else if precedes(scores, order.last(), item) {
        assert(result[order.len() as int] == item);
        assert forall|k1: int, k2: int| 0 <= k1 < k2 < result.len() implies precedes(
            scores,
            #[trigger] result[k1],
            #[trigger] result[k2],
        ) by {
            if k2 == order.len() {
                if k1 < order.len() - 1 {
                    assert(precedes(scores, order[k1], order[order.len() - 1]));
                }
            }
        }
        assert forall|k: int| 0 <= k < order.len() implies result.contains(
            #[trigger] order[k],
        ) by {
            assert(result[k] == order[k]);
        }
        assert forall|k: int| 0 <= k < result.len() implies (#[trigger] result[k]) == item
            || order.contains(result[k]) by {
            if k < order.len() {
                assert(order[k] == result[k]);
            }
        }
    } else {
        let shorter = order.drop_last();
        let last = order.last();
        let inner = insert_ranked(scores, shorter, item);
        assert forall|k1: int, k2: int| 0 <= k1 < k2 < shorter.len() implies precedes(
            scores,
            #[trigger] shorter[k1],
            #[trigger] shorter[k2],
        ) by {
            assert(shorter[k1] == order[k1] && shorter[k2] == order[k2]);
        }
        assert forall|k: int| 0 <= k < shorter.len() implies #[trigger] shorter[k] != item by {
            assert(shorter[k] == order[k]);
        }
        lemma_insert_ranked(scores, shorter, item);
        assert(order[order.len() - 1] != item);
        assert forall|k1: int, k2: int| 0 <= k1 < k2 < result.len() implies precedes(
            scores,
            #[trigger] result[k1],
            #[trigger] result[k2],
        ) by {
            if k2 == inner.len() {
                assert(result[k1] == inner[k1]);
                if inner[k1] != item {
                    assert(shorter.contains(inner[k1]));
                    let j = choose|j: int| 0 <= j < shorter.len() && shorter[j] == inner[k1];
                    assert(precedes(scores, order[j], order[order.len() - 1]));
                }
            } else {
                assert(result[k1] == inner[k1] && result[k2] == inner[k2]);
            }
        }
        let at = choose|at: int| 0 <= at < inner.len() && inner[at] == item;
        assert(result[at] == item);
        assert forall|k: int| 0 <= k < order.len() implies result.contains(
            #[trigger] order[k],
        ) by {
            if k < shorter.len() {
                assert(inner.contains(shorter[k]));
                let j = choose|j: int| 0 <= j < inner.len() && inner[j] == shorter[k];
                assert(result[j] == order[k]);
            } else {
                assert(result[inner.len() as int] == order[k]);
            }
        }
        assert forall|k: int| 0 <= k < result.len() implies (#[trigger] result[k]) == item
            || order.contains(result[k]) by {
            if k < inner.len() {
                assert(result[k] == inner[k]);
                if inner[k] != item {
                    let j = choose|j: int| 0 <= j < shorter.len() && shorter[j] == inner[k];
                    assert(order[j] == result[k]);
                }
            } else {
                assert(order[order.len() - 1] == result[k]);
            }
        }
    }
}

/// `ranking_upto` is the ranking of the first `n` positions.
pub proof fn lemma_ranking_upto(scores: Seq<u32>, n: nat)
    ensures
        is_ranking(scores, n, ranking_upto(scores, n)),
    decreases n,
{
    if n > 0 {
        let before = ranking_upto(scores, (n - 1) as nat);
        let after = ranking_upto(scores, n);
        lemma_ranking_upto(scores, (n - 1) as nat);
        lemma_insert_ranked(scores, before, n - 1);
        assert forall|k: int| 0 <= k < after.len() implies 0 <= #[trigger] after[k] < n by {
            if after[k] != n - 1 {
                let j = choose|j: int| 0 <= j < before.len() && before[j] == after[k];
            }
        }
        assert forall|i: int| 0 <= i < n implies after.contains(i) by {
            if i < n - 1 {
                assert(before.contains(i));
                let j = choose|j: int| 0 <= j < before.len() && before[j] == i;
                assert(after.contains(before[j]));
            }
        }
    }
}

/// The ranking lists every hit once, best score first, equal scores in the
/// order in which the index returned them.
pub proof fn lemma_ranking_of(scores: Seq<u32>)
    ensures
        is_ranking(scores, scores.len(), ranking_of(scores)),
        forall|k1: int, k2: int|
            0 <= k1 < k2 < scores.len() ==> scores[#[trigger] ranking_of(scores)[k1]]
                >= scores[#[trigger] ranking_of(scores)[k2]],
{
    lemma_ranking_upto(scores, scores.len());
}

/// Two rankings of the same positions agree at every place.
proof fn lemma_rankings_agree_at(scores: Seq<u32>, n: nat, a: Seq<int>, b: Seq<int>, k: int)
    requires
        is_ranking(scores, n, a),
        is_ranking(scores, n, b),
        0 <= k < n,
    ensures
        a[k] == b[k],
    decreases k,
{
    assert forall|i: int| 0 <= i < k implies a[i] == b[i] by {
        lemma_rankings_agree_at(scores, n, a, b, i);
    }
    if a[k] != b[k] {
        assert(0 <= a[k] < n && 0 <= b[k] < n);
        assert(b.contains(a[k]));
        let j = choose|j: int| 0 <= j < b.len() && b[j] == a[k];
        if j < k {
            assert(a[j] == b[j]);
            assert(precedes(scores, a[j], a[k]));
        }
        assert(precedes(scores, b[k], b[j]));
        assert(a.contains(b[k]));
        let i = choose|i: int| 0 <= i < a.len() && a[i] == b[k];
        if i < k {
            assert(b[i] == a[i]);
            assert(precedes(scores, b[i], b[k]));
        }
        assert(precedes(scores, a[k], a[i]));
    }
}

/// The scores fix the ranking: whatever lists every hit once, best score
/// first and equal scores in the order in which the index returned them, is
/// the ranking. Two rankings of the same hits cannot differ.
pub proof fn lemma_ranking_is_unique(scores: Seq<u32>, order: Seq<int>)
    requires
        is_ranking(scores, scores.len(), order),
    ensures
        order == ranking_of(scores),
{
    lemma_ranking_upto(scores, scores.len());
    let ranking = ranking_of(scores);
    assert forall|k: int| 0 <= k < scores.len() implies order[k] == ranking[k] by {
        lemma_rankings_agree_at(scores, scores.len(), order, ranking, k);
    }
    assert(order =~= ranking);
}

/// A list that is already in ranking order is its own ranking.
pub proof fn lemma_ranking_of_ranked(scores: Seq<u32>, n: nat)
    requires
        n <= scores.len(),
        forall|k1: int, k2: int| 0 <= k1 < k2 < n ==> scores[k1] >= scores[k2],
    ensures
        ranking_upto(scores, n) == Seq::new(n, |k: int| k),
    decreases n,
{
    if n > 0 {
        lemma_ranking_of_ranked(scores, (n - 1) as nat);
        let before = Seq::new((n - 1) as nat, |k: int| k);
        if n > 1 {
            assert(before[n - 2] == n - 2);
            assert(precedes(scores, before[n - 2], n - 1));
        }
        lemma_insert_ranked_at(scores, before, n - 1, n - 1);
        assert(before.insert(n - 1, n - 1) =~= Seq::new(n, |k: int| k));
    } else {
        assert(ranking_upto(scores, 0) =~= Seq::new(0, |k: int| k));
    }
}

/// Ranks the positions of `scores`: descending score, equal scores in the
/// order of their positions.
pub fn rank_order(scores: &Vec<u32>) -> (order: Vec<usize>)
    ensures
        positions(order@) == ranking_of(scores@),
{
    let mut order: Vec<usize> = Vec::new();
    let mut i: usize = 0;
    assert(positions(order@) =~= ranking_upto(scores@, 0));
    while i < scores.len()
        invariant
            i <= scores.len(),
            order.len() == i,
            positions(order@) == ranking_upto(scores@, i as nat),
            forall|k: int| 0 <= k < order.len() ==> #[trigger] order@[k] < i,
        decreases scores.len() - i,
    {
        let mut at: usize = order.len();
        while at > 0 && scores[order[at - 1]] < scores[i]
            invariant
                i < scores.len(),
                at <= order.len(),
                forall|k: int| 0 <= k < order.len() ==> #[trigger] order@[k] < i,
                forall|k: int|
                    at <= k < order.len() ==> !precedes(
                        scores@,
                        #[trigger] positions(order@)[k],
                        i as int,
                    ),
            decreases at,
        {
            assert(positions(order@)[at - 1] == order@[at - 1]);
            at -= 1;
        }
        proof {
            if at > 0 {
                assert(positions(order@)[at - 1] == order@[at - 1]);
                assert(order@[at - 1] < i);
            }
            lemma_insert_ranked_at(scores@, positions(order@), i as int, at as int);
            assert(positions(order@.insert(at as int, i)) =~= positions(order@).insert(
                at as int,
                i as int,
            ));
        }
        order.insert(at, i);
        i += 1;
    }
    order
}

} // verus!
