//! Ranking by size: the order in which the largest items of a list are
//! shown.

use vstd::prelude::*;

verus! {

/// Where an item of size `size` goes into the ranking `order`: behind the
/// last item that is at least as large.
pub open spec fn slot(sizes: Seq<u64>, order: Seq<usize>, size: u64) -> int
    decreases order.len(),
{
    if order.len() == 0 {
        0
    } else if sizes[order.last() as int] >= size {
        order.len() as int
    } else {
        slot(sizes, order.drop_last(), size)
    }
}

/// The positions of `sizes` ranked from the largest size to the smallest;
/// among equal sizes the earlier position comes first.
pub open spec fn ranking(sizes: Seq<u64>) -> Seq<usize>
    decreases sizes.len(),
{
    if sizes.len() == 0 {
        Seq::empty()
    } else {
        let rest = ranking(sizes.drop_last());
        rest.insert(slot(sizes, rest, sizes.last()), (sizes.len() - 1) as usize)
    }
}

/// The ranking holds exactly the positions of `sizes`, each once, and runs
/// from the largest size to the smallest.
pub proof fn ranking_is_sorted(sizes: Seq<u64>)
    requires
        sizes.len() <= usize::MAX,
    ensures
        ranking(sizes).len() == sizes.len(),
        forall|i: int| 0 <= i < sizes.len() ==> 0 <= #[trigger] ranking(sizes)[i] < sizes.len(),
        forall|i: int, j: int|
            0 <= i < j < sizes.len() ==> ranking(sizes)[i] != ranking(sizes)[j],
        forall|i: int, j: int|
            0 <= i <= j < sizes.len() ==> sizes[ranking(sizes)[i] as int]
                >= sizes[ranking(sizes)[j] as int],
    decreases sizes.len(),
{
    if sizes.len() > 0 {
        let front = sizes.drop_last();
        let rest = ranking(front);
        ranking_is_sorted(front);
        let n = (sizes.len() - 1) as usize;
        let at = slot(sizes, rest, sizes.last());
        assert forall|k: int| 0 <= k < rest.len() implies sizes[rest[k] as int]
            == front[rest[k] as int] by {}
        slot_splits(sizes, rest, sizes.last());
        let r = ranking(sizes);
        assert(r == rest.insert(at, n));
        assert forall|i: int, j: int| 0 <= i < j < sizes.len() implies r[i] != r[j] by {
            if i != at && j != at {
                let a = if i < at { i } else { i - 1 };
                let b = if j < at { j } else { j - 1 };
                assert(rest[a] != rest[b]);
            }
        }
        assert forall|i: int, j: int| 0 <= i <= j < sizes.len() implies sizes[r[i] as int]
            >= sizes[r[j] as int] by {
            let a = if i < at { i } else { i - 1 };
            let b = if j < at { j } else { j - 1 };
            if i != at && j != at {
                assert(sizes[rest[a] as int] >= sizes[rest[b] as int]);
            }
        }
    }
}

/// The slot splits a sorted ranking: what stands before it is at least as
/// large as the new size, what stands from it on is smaller.
pub proof fn slot_splits(sizes: Seq<u64>, order: Seq<usize>, size: u64)
    requires
        forall|i: int, j: int|
            0 <= i <= j < order.len() ==> sizes[order[i] as int] >= sizes[order[j] as int],
    ensures
        0 <= slot(sizes, order, size) <= order.len(),
        forall|i: int| 0 <= i < slot(sizes, order, size) ==> sizes[order[i] as int] >= size,
        forall|i: int|
            slot(sizes, order, size) <= i < order.len() ==> sizes[order[i] as int] < size,
    decreases order.len(),
{
    if order.len() > 0 {
        if sizes[order.last() as int] >= size {
            assert forall|i: int| 0 <= i < order.len() implies sizes[order[i] as int]
                >= size by {
                assert(sizes[order[i] as int] >= sizes[order[order.len() - 1] as int]);
            }
        } else {
            let front = order.drop_last();
            assert forall|i: int, j: int| 0 <= i <= j < front.len() implies sizes[front[i] as int]
                >= sizes[front[j] as int] by {
                assert(sizes[order[i] as int] >= sizes[order[j] as int]);
            }
            slot_splits(sizes, front, size);
            assert forall|i: int|
                slot(sizes, order, size) <= i < order.len() implies sizes[order[i] as int]
                < size by {
                if i < front.len() {
                    assert(front[i] == order[i]);
                }
            }
            assert forall|i: int| 0 <= i < slot(sizes, order, size) implies sizes[order[i] as int]
                >= size by {
                assert(front[i] == order[i]);
            }
        }
    }
}

/// The positions of `sizes` ranked from the largest size to the smallest.
pub fn rank(sizes: &Vec<u64>) -> (order: Vec<usize>)
    ensures
        order@ == ranking(sizes@),
{
    let mut order: Vec<usize> = Vec::new();
    let mut n: usize = 0;
    assert(sizes@.take(0) == Seq::<u64>::empty());
    while n < sizes.len()
        invariant
            n <= sizes.len(),
            order@ == ranking(sizes@.take(n as int)),
            order@.len() == n,
            forall|k: int| 0 <= k < n ==> 0 <= #[trigger] order@[k] < n,
        decreases sizes.len() - n,
    {
        let size = sizes[n];
        let ghost prefix = sizes@.take(n + 1);
        let mut j: usize = order.len();
        assert(order@.take(j as int) == order@);
        while j > 0 && sizes[order[j - 1]] < size
            invariant
                j <= order@.len(),
                order@.len() == n,
                n < sizes.len(),
                size == sizes@[n as int],
                prefix == sizes@.take(n + 1),
                forall|k: int| 0 <= k < n ==> 0 <= #[trigger] order@[k] < n,
                slot(prefix, order@, size) == slot(prefix, order@.take(j as int), size),
            decreases j,
        {
            assert(order@.take(j as int).last() == order@[j - 1]);
            assert(prefix[order@[j - 1] as int] == sizes@[order@[j - 1] as int]);
            assert(order@.take(j as int).drop_last() == order@.take(j - 1));
            j -= 1;
        }
        proof {
            if j > 0 {
                assert(order@.take(j as int).last() == order@[j - 1]);
                assert(prefix[order@[j - 1] as int] == sizes@[order@[j - 1] as int]);
            }
            assert(slot(prefix, order@, size) == j);
            assert(prefix.drop_last() == sizes@.take(n as int));
            assert(prefix.last() == size);
        }
        order.insert(j, n);
        n += 1;
    }
    assert(sizes@.take(sizes@.len() as int) == sizes@);
    order
}

} // verus!
