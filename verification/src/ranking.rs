//! The final order of recommendations: one entry per TMDB id (the first one),
//! best score first, ties kept in their earlier order, and no more than a limit.
//!
//! Scores are given as keys that order as the scores do.
use vstd::prelude::*;

verus! {

/// How many recommendations are returned at most.
pub const MAX_RECOMMENDATIONS: usize = 24;

/// Entry `i` is the first one with its id.
pub open spec fn first_occurrence(ids: Seq<i64>, i: int) -> bool {
    0 <= i < ids.len() && !ids.take(i).contains(ids[i])
}

/// Entry `i` comes before entry `j`: a higher key, or the same key and an earlier position.
pub open spec fn ranks_before(keys: Seq<u64>, i: int, j: int) -> bool {
    keys[i] > keys[j] || (keys[i] == keys[j] && i < j)
}

/// `order` lists first occurrences, each ranked before all that follow it.
pub open spec fn ranked(ids: Seq<i64>, keys: Seq<u64>, order: Seq<usize>) -> bool {
    &&& forall|a: int| 0 <= a < order.len() ==> first_occurrence(ids, #[trigger] order[a] as int)
    &&& forall|a: int, b: int|
        0 <= a < b < order.len() ==> ranks_before(keys, #[trigger] order[a] as int, #[trigger] order[b] as int)
}

/// Whether `id` occurs among the first `i` ids.
fn seen_before(ids: &Vec<i64>, i: usize) -> (r: bool)
    requires
        i < ids@.len(),
    ensures
        r == ids@.take(i as int).contains(ids@[i as int]),
{
    let id = ids[i];
    let mut j: usize = 0;
    while j < i
        invariant
            i < ids@.len(),
            j <= i,
            id == ids@[i as int],
            forall|k: int| 0 <= k < j ==> ids@[k] != id,
        decreases i - j,
    {
        if ids[j] == id {
            assert(ids@.take(i as int)[j as int] == id);
            return true;
        }
        j = j + 1;
    }
    assert(!ids@.take(i as int).contains(id)) by {
        if ids@.take(i as int).contains(id) {
            let k = choose|k: int| 0 <= k < i && ids@.take(i as int)[k] == id;
            assert(ids@[k] == id);
        }
    }
    false
}

/// The positions of the entries to return, in the order to return them: the
/// first entry of each id, best key first, earlier position first among equal
/// keys, cut to `limit`.
pub fn rank_indices(ids: &Vec<i64>, keys: &Vec<u64>, limit: usize) -> (r: Vec<usize>)
    requires
        ids@.len() == keys@.len(),
    ensures
        ranked(ids@, keys@, r@),
        r@.len() <= limit,
        forall|i: int|
            first_occurrence(ids@, i) && !r@.contains(i as usize) ==> r@.len() == limit && forall|a: int|
                0 <= a < r@.len() ==> ranks_before(keys@, #[trigger] r@[a] as int, i),
{
    let n = ids.len();
    let mut sorted: Vec<usize> = Vec::new();
    let mut i: usize = 0;
    while i < n
        invariant
            n == ids@.len(),
            n == keys@.len(),
            i <= n,
            ranked(ids@, keys@, sorted@),
            forall|a: int| 0 <= a < sorted@.len() ==> #[trigger] sorted@[a] < i,
            forall|j: int| 0 <= j < i && first_occurrence(ids@, j) ==> sorted@.contains(j as usize),
        decreases n - i,
    {
        if !seen_before(ids, i) {
            assert(first_occurrence(ids@, i as int));
            let ki = keys[i];
            let m = sorted.len();
            let mut p: usize = 0;
            while p < m && !(ki > keys[sorted[p]])
                invariant
                    m == sorted@.len(),
                    p <= m,
                    n == keys@.len(),
                    i < n,
                    ki == keys@[i as int],
                    forall|a: int| 0 <= a < sorted@.len() ==> #[trigger] sorted@[a] < i,
                    forall|a: int| 0 <= a < p ==> ranks_before(keys@, #[trigger] sorted@[a] as int, i as int),
                decreases m - p,
            {
                assert(keys@[sorted@[p as int] as int] >= ki);
                p = p + 1;
            }
            let ghost before = sorted@;
            proof {
                assert forall|a: int| p <= a < before.len() implies ranks_before(keys@, i as int, #[trigger] before[a] as int) by {
                    assert(ranks_before(keys@, before[p as int] as int, before[a] as int) || a == p);
                }
            }
            sorted.insert(p, i);
            proof {
                assert(sorted@ =~= before.insert(p as int, i));
                assert forall|a: int, b: int|
                    0 <= a < b < sorted@.len() implies ranks_before(keys@, #[trigger] sorted@[a] as int, #[trigger] sorted@[b] as int) by {
                    if a < p && b == p {
                    } else if a < p && b > p {
                        assert(sorted@[b] == before[b - 1]);
                    } else if a == p {
                        assert(sorted@[b] == before[b - 1]);
                    } else if a > p {
                        assert(sorted@[a] == before[a - 1]);
                        assert(sorted@[b] == before[b - 1]);
                    }
                }
                assert forall|j: int| 0 <= j < i + 1 && first_occurrence(ids@, j) implies sorted@.contains(j as usize) by {
                    if j == i {
                        assert(sorted@[p as int] == i);
                    } else {
                        let k = choose|k: int| 0 <= k < before.len() && before[k] == j as usize;
                        if k < p {
                            assert(sorted@[k] == j as usize);
                        } else {
                            assert(sorted@[k + 1] == j as usize);
                        }
                    }
                }
            }
        } else {
            proof {
                assert forall|j: int| 0 <= j < i + 1 && first_occurrence(ids@, j) implies sorted@.contains(j as usize) by {
                    if j == i {
                        assert(false);
                    }
                }
            }
        }
        i = i + 1;
    }
    let ghost full = sorted@;
    if sorted.len() > limit {
        sorted.truncate(limit);
    }
    proof {
        assert(forall|a: int| 0 <= a < sorted@.len() ==> sorted@[a] == full[a]);
        assert forall|j: int| first_occurrence(ids@, j) && !sorted@.contains(j as usize) implies sorted@.len() == limit
            && forall|a: int| 0 <= a < sorted@.len() ==> ranks_before(keys@, #[trigger] sorted@[a] as int, j) by {
            assert(full.contains(j as usize));
            let k = choose|k: int| 0 <= k < full.len() && full[k] == j as usize;
            if k < sorted@.len() {
                assert(sorted@[k] == j as usize);
            }
            assert forall|a: int| 0 <= a < sorted@.len() implies ranks_before(keys@, #[trigger] sorted@[a] as int, j) by {
                assert(full[a] == sorted@[a]);
                assert(a < k);
            }
        }
    }
    sorted
}

} // verus!
