//! Choosing the best-scoring items.
//!
//! `top_indices` picks up to `k` positions of a score list in non-increasing
//! order of score, which is what sorting by descending score (comparing with
//! `partial_cmp`) and truncating to `k` yields: every chosen score is at least
//! every score left out, and no chosen score is below a later chosen one.
use crate::float_bits::{lemma_float_order, FloatBits};
use vstd::prelude::*;

verus! {

/// `idx` lists distinct positions of `scores`, best first, and holds the
/// best-scoring ones: `min(k, len)` of them, none scored below a later one or
/// below a position left out.
pub open spec fn is_top_selection(scores: Seq<FloatBits>, k: nat, idx: Seq<usize>) -> bool {
    &&& idx.len() == if k < scores.len() {
        k
    } else {
        scores.len()
    }
    &&& forall|i: int| 0 <= i < idx.len() ==> #[trigger] idx[i] < scores.len()
    &&& forall|i: int, j: int| 0 <= i < j < idx.len() ==> idx[i] != idx[j]
    &&& forall|i: int, j: int|
        0 <= i < j < idx.len() ==> !(#[trigger] scores[idx[i] as int]).spec_lt(
            #[trigger] scores[idx[j] as int],
        )
    &&& forall|i: int, p: int|
        0 <= i < idx.len() && 0 <= p < scores.len() && !idx.contains(p as usize) ==> !(
        #[trigger] scores[idx[i] as int]).spec_lt(#[trigger] scores[p])
}

/// The position of a best score among the positions not yet taken.
fn best_untaken(scores: &Vec<FloatBits>, taken: &Vec<bool>) -> (r: usize)
    requires
        scores@.len() == taken@.len(),
        exists|p: int| 0 <= p < taken@.len() && !taken@[p],
    ensures
        r < scores@.len(),
        !taken@[r as int],
        forall|p: int|
            0 <= p < scores@.len() && !taken@[p] ==> !scores@[r as int].spec_lt(
                #[trigger] scores@[p],
            ),
{
    let n = scores.len();
    let mut best: Option<usize> = None;
    let mut i: usize = 0;
    while i < n
        invariant
            n == scores@.len(),
            n == taken@.len(),
            i <= n,
            best matches Some(b) ==> b < i && !taken@[b as int],
            best is None ==> forall|p: int| 0 <= p < i ==> taken@[p],
            best matches Some(b) ==> forall|p: int|
                0 <= p < i && !taken@[p] ==> !scores@[b as int].spec_lt(#[trigger] scores@[p]),
        decreases n - i,
    {
        if !taken[i] {
            match best {
                None => {
                    best = Some(i);
                },
                Some(b) => {
                    if scores[b].lt(&scores[i]) {
                        proof {
                            assert forall|p: int|
                                0 <= p < i + 1 && !taken@[p] implies !scores@[i as int].spec_lt(
                                #[trigger] scores@[p],
                            ) by {
                                lemma_float_order(scores@[b as int], scores@[i as int], scores@[p]);
                            }
                        }
                        best = Some(i);
                    }
                },
            }
        }
        i = i + 1;
    }
    match best {
        Some(b) => b,
        None => {
            proof {
                let p = choose|p: int| 0 <= p < taken@.len() && !taken@[p];
                assert(taken@[p]);
            }
            0
        },
    }
}

/// Up to `k` positions of `scores`, best score first (see `is_top_selection`).
pub fn top_indices(scores: &Vec<FloatBits>, k: usize) -> (r: Vec<usize>)
    ensures
        is_top_selection(scores@, k as nat, r@),
{
    let n = scores.len();
    let mut taken: Vec<bool> = Vec::new();
    let mut i: usize = 0;
    while i < n
        invariant
            i <= n,
            taken@.len() == i,
            forall|p: int| 0 <= p < i ==> !taken@[p],
        decreases n - i,
    {
        taken.push(false);
        i = i + 1;
    }
    let want = if k < n {
        k
    } else {
        n
    };
    let mut idx: Vec<usize> = Vec::new();
    while idx.len() < want
        invariant
            n == scores@.len(),
            taken@.len() == n,
            want <= n,
            want == if k < n {
                k
            } else {
                n
            },
            idx@.len() <= want,
            forall|i: int| 0 <= i < idx@.len() ==> #[trigger] idx@[i] < n,
            forall|i: int, j: int| 0 <= i < j < idx@.len() ==> idx@[i] != idx@[j],
            forall|p: int| 0 <= p < n ==> (taken@[p] <==> idx@.contains(p as usize)),
            forall|i: int, j: int|
                0 <= i < j < idx@.len() ==> !(#[trigger] scores@[idx@[i] as int]).spec_lt(
                    #[trigger] scores@[idx@[j] as int],
                ),
            forall|i: int, p: int|
                0 <= i < idx@.len() && 0 <= p < n && !taken@[p] ==> !(
                #[trigger] scores@[idx@[i] as int]).spec_lt(#[trigger] scores@[p]),
        decreases want - idx@.len(),
    {
        proof {
            // Fewer positions are taken than exist, so one is free.
            assert(exists|p: int| 0 <= p < taken@.len() && !taken@[p]) by {
                lemma_free_position(idx@, n as int);
                let p = choose|p: usize| (p as int) < n && !#[trigger] idx@.contains(p);
                assert(!taken@[p as int]);
            }
        }
        let b = best_untaken(scores, &taken);
        let ghost old_idx = idx@;
        let ghost old_taken = taken@;
        taken.set(b, true);
        idx.push(b);
        proof {
            assert forall|p: int| 0 <= p < n implies (taken@[p] <==> idx@.contains(p as usize)) by {
                if p == b as int {
                    assert(idx@[idx@.len() - 1] == b);
                } else {
                    if idx@.contains(p as usize) {
                        let j = choose|j: int| 0 <= j < idx@.len() && idx@[j] == p as usize;
                        assert(j < old_idx.len());
                        assert(old_idx.contains(p as usize));
                    }
                    if old_idx.contains(p as usize) {
                        let j = choose|j: int| 0 <= j < old_idx.len() && old_idx[j] == p as usize;
                        assert(idx@[j] == p as usize);
                    }
                }
            }
            assert forall|i: int, j: int| 0 <= i < j < idx@.len() implies idx@[i] != idx@[j] by {
                if j == idx@.len() - 1 {
                    assert(!old_taken[b as int]);
                    assert(old_idx[i] < n);
                    if old_idx[i] == b {
                        assert(old_idx.contains(b));
                    }
                }
            }
            assert forall|i: int, j: int|
                0 <= i < j < idx@.len() implies !(#[trigger] scores@[idx@[i] as int]).spec_lt(
                #[trigger] scores@[idx@[j] as int],
            ) by {
                if j == idx@.len() - 1 {
                    assert(!old_taken[b as int]);
                }
            }
        }
    }
    proof {
        assert forall|i: int, p: int|
            0 <= i < idx@.len() && 0 <= p < scores@.len() && !idx@.contains(
                p as usize,
            ) implies !(#[trigger] scores@[idx@[i] as int]).spec_lt(#[trigger] scores@[p]) by {
            assert(!taken@[p]);
        }
    }
    idx
}

/// Distinct positions below `n`, fewer than `n` of them, leave one out.
proof fn lemma_free_position(idx: Seq<usize>, n: int)
    requires
        idx.len() < n,
        n <= usize::MAX + 1,
        forall|i: int| 0 <= i < idx.len() ==> #[trigger] idx[i] < n,
        forall|i: int, j: int| 0 <= i < j < idx.len() ==> idx[i] != idx[j],
    ensures
        exists|p: usize| (p as int) < n && !#[trigger] idx.contains(p),
{
    let s = idx.to_set();
    assert(idx.no_duplicates()) by {
        assert forall|i: int, j: int| 0 <= i < idx.len() && 0 <= j < idx.len() && i != j implies idx[i]
            != idx[j] by {
            if i < j {
            } else {
            }
        }
    }
    idx.unique_seq_to_set();
    let full = Set::new(|p: usize| (p as int) < n);
    if forall|p: usize| (p as int) < n ==> #[trigger] idx.contains(p) {
        assert(full.subset_of(s));
        lemma_range_usize_len(n);
        vstd::set_lib::lemma_len_subset(full, s);
        assert(false);
    }
}

proof fn lemma_range_usize_len(n: int)
    requires
        0 <= n <= usize::MAX + 1,
    ensures
        Set::new(|p: usize| (p as int) < n).finite(),
        Set::new(|p: usize| (p as int) < n).len() == n,
    decreases n,
{
    let s = Set::new(|p: usize| (p as int) < n);
    if n == 0 {
        assert(s =~= Set::empty());
    } else {
        lemma_range_usize_len(n - 1);
        let t = Set::new(|p: usize| (p as int) < n - 1);
        assert(s =~= t.insert((n - 1) as usize));
    }
}

} // verus!
