//! Picking the nearest of a list by rank.

use vstd::prelude::*;

verus! {

/// Whether `b` is the place of the first least of `ranks`.
pub open spec fn is_first_least(ranks: Seq<u32>, b: int) -> bool {
    &&& 0 <= b < ranks.len()
    &&& forall|j: int| 0 <= j < ranks.len() ==> ranks[b] <= #[trigger] ranks[j]
    &&& forall|j: int| 0 <= j < b ==> ranks[b] < #[trigger] ranks[j]
}

/// There is one first least at most.
pub proof fn lemma_first_least_is_one(ranks: Seq<u32>, a: int, b: int)
    requires
        is_first_least(ranks, a),
        is_first_least(ranks, b),
    ensures
        a == b,
{
    if a < b {
        assert(ranks[b] < ranks[a]);
        assert(ranks[a] <= ranks[b]);
    } else if b < a {
        assert(ranks[a] < ranks[b]);
        assert(ranks[b] <= ranks[a]);
    }
}

/// The place of the first least rank, or nothing where there is no rank.
pub fn first_least(ranks: &Vec<u32>) -> (best: Option<usize>)
    ensures
        best.is_none() <==> ranks@.len() == 0,
        best.is_some() ==> is_first_least(ranks@, best.unwrap() as int),
{
    if ranks.len() == 0 {
        return None;
    }
    let mut b: usize = 0;
    let mut i: usize = 1;
    while i < ranks.len()
        invariant
            0 <= b < i <= ranks@.len(),
            forall|j: int| 0 <= j < i ==> ranks@[b as int] <= #[trigger] ranks@[j],
            forall|j: int| 0 <= j < b ==> ranks@[b as int] < #[trigger] ranks@[j],
        decreases ranks@.len() - i,
    {
        if ranks[i] < ranks[b] {
            b = i;
        }
        i = i + 1;
    }
    Some(b)
}

} // verus!
