//! Candidate-trade search: the pruned candidate-goods ranking for a dyad.
//!
//! For a pair of agents, the search ranks every non-numeraire good by how
//! strongly the two agents disagree on its worth (the absolute difference of
//! their log marginal rates of substitution against the numeraire) and keeps
//! the `k` goods with the largest disagreement. The real-valued disagreement
//! scores are computed by the caller and handed in as order-preserving keys;
//! the ranking itself — descending by score, ties broken by good index, never
//! the numeraire, no duplicates — is verified here.

use crate::pareto_oracle::CobbDouglasWalrasOracle;
use vstd::prelude::*;

verus! {

/// Every entry of `cands` is a good index below `n` other than `base`.
pub open spec fn candidates_in_range(cands: Seq<usize>, n: int, base: usize) -> bool {
    forall|m: int| 0 <= m < cands.len() ==> (cands[m] as int) < n && cands[m] != base
}

/// No good appears twice in `cands`.
pub open spec fn pairwise_distinct(cands: Seq<usize>) -> bool {
    forall|m: int, p: int| 0 <= m < p < cands.len() ==> cands[m] != cands[p]
}

/// Scores never increase along `cands`.
pub open spec fn sorted_by_score_desc(cands: Seq<usize>, scores: Seq<u64>) -> bool {
    forall|m: int, p: int|
        0 <= m < p < cands.len() ==> scores[cands[p] as int] <= scores[cands[m] as int]
}

/// Goods with equal scores stand in index order, so the ranking breaks ties
/// deterministically.
pub open spec fn stable_on_ties(cands: Seq<usize>, scores: Seq<u64>) -> bool {
    forall|m: int, p: int|
        0 <= m < p < cands.len() && scores[cands[p] as int] == scores[cands[m] as int]
            ==> cands[m] < cands[p]
}

/// Inserts good `g` into a list sorted descending by score, after every good
/// of equal or larger score, so that sortedness and index order on ties are
/// both kept.
fn insert_sorted(order: &mut Vec<usize>, scores: &Vec<u64>, base: usize, g: usize)
    requires
        (g as int) < scores@.len(),
        g != base,
        forall|m: int|
            0 <= m < old(order)@.len() ==> (old(order)@[m] as int) < scores@.len() && old(
                order,
            )@[m] < g && old(order)@[m] != base,
        sorted_by_score_desc(old(order)@, scores@),
        stable_on_ties(old(order)@, scores@),
        pairwise_distinct(old(order)@),
    ensures
        final(order)@.len() == old(order)@.len() + 1,
        forall|m: int|
            0 <= m < final(order)@.len() ==> (final(order)@[m] as int) < scores@.len()
                && final(order)@[m] <= g && final(order)@[m] != base,
        sorted_by_score_desc(final(order)@, scores@),
        stable_on_ties(final(order)@, scores@),
        pairwise_distinct(final(order)@),
        forall|x: usize| final(order)@.contains(x) <==> (old(order)@.contains(x) || x == g),
{
    let ghost pre = order@;
    let mut pos: usize = 0;
    while pos < order.len() && scores[order[pos]] >= scores[g]
        invariant
            order@ == pre,
            pos <= pre.len(),
            (g as int) < scores@.len(),
            forall|m: int| 0 <= m < pre.len() ==> (pre[m] as int) < scores@.len(),
            forall|m: int| 0 <= m < pos ==> scores@[pre[m] as int] >= scores@[g as int],
        decreases pre.len() - pos,
    {
        pos = pos + 1;
    }
    order.insert(pos, g);
    proof {
        let posi = pos as int;
        pre.insert_ensures(posi, g);
        let s2 = order@;
        assert(s2 == pre.insert(posi, g));
        assert forall|m: int| 0 <= m < s2.len() implies #[trigger] s2[m] == (if m < posi {
            pre[m]
        } else if m == posi {
            g
        } else {
            pre[m - 1]
        }) by {
            if m < posi {
                assert(pre.insert(posi, g)[m] == pre[m]);
            } else if m == posi {
                assert(pre.insert(posi, g)[posi] == g);
            } else {
                assert(pre.insert(posi, g)[(m - 1) + 1] == pre[m - 1]);
            }
        }
        // Everything of equal or larger score stands before position `pos`,
        // everything after it has strictly smaller score.
        assert forall|m: int| posi <= m < pre.len() implies scores@[pre[m] as int] < scores@[g as int] by {
            if posi < pre.len() {
                assert(scores@[pre[posi] as int] < scores@[g as int]);
                if posi < m {
                    assert(scores@[pre[m] as int] <= scores@[pre[posi] as int]);
                }
            }
        }
        assert forall|m: int, p: int| 0 <= m < p < s2.len() implies scores@[s2[p] as int]
            <= scores@[s2[m] as int] by {
            if p < posi {
            } else if p == posi {
                assert(scores@[pre[m] as int] >= scores@[g as int]);
            } else {
                if m < posi {
                    assert(scores@[s2[p] as int] == scores@[pre[p - 1] as int]);
                } else if m == posi {
                    assert(scores@[pre[p - 1] as int] < scores@[g as int]);
                } else {
                    assert(scores@[pre[p - 1] as int] <= scores@[pre[m - 1] as int]);
                }
            }
        }
        assert forall|m: int, p: int|
            0 <= m < p < s2.len() && scores@[s2[p] as int] == scores@[s2[m] as int] implies s2[m]
            < s2[p] by {
            if p < posi {
            } else if p == posi {
                assert(pre[m] < g);
            } else {
                if m < posi {
                } else if m == posi {
                    assert(scores@[pre[p - 1] as int] < scores@[g as int]);
                } else {
                }
            }
        }
        assert forall|m: int, p: int| 0 <= m < p < s2.len() implies s2[m] != s2[p] by {
            if p == posi {
                assert(pre[m] < g);
            } else if m == posi {
                assert(pre[p - 1] < g);
            }
        }
        assert forall|x: usize| order@.contains(x) implies (pre.contains(x) || x == g) by {
            let m = choose|m: int| 0 <= m < s2.len() && s2[m] == x;
            if m < posi {
                assert(pre[m] == x);
            } else if m > posi {
                assert(pre[m - 1] == x);
            }
        }
        assert forall|x: usize| pre.contains(x) || x == g implies order@.contains(x) by {
            if x == g {
                assert(s2[posi] == x);
            } else {
                let m = choose|m: int| 0 <= m < pre.len() && pre[m] == x;
                if m < posi {
                    assert(s2[m] == x);
                } else {
                    assert(s2[m + 1] == x);
                }
            }
        }
    }
}

/// Selects the pruned candidate set of goods for a dyad: the `k` goods on
/// which the two agents' disagreement scores are largest, excluding the
/// numeraire. `scores` holds one order-preserving disagreement key per good.
/// The result lists `min(k, goods_count - 1)` distinct non-numeraire goods in
/// descending score order (ties in index order), and every good left out
/// scores no higher than any good kept; when `k` covers the whole roster the
/// result holds every non-numeraire good.
pub fn candidate_goods_pruned(scores: &Vec<u64>, base: usize, k: usize) -> (cands: Vec<usize>)
    requires
        base < scores@.len(),
    ensures
        cands@.len() == if (k as int) < scores@.len() - 1 {
            k as int
        } else {
            scores@.len() - 1
        },
        candidates_in_range(cands@, scores@.len() as int, base),
        pairwise_distinct(cands@),
        sorted_by_score_desc(cands@, scores@),
        stable_on_ties(cands@, scores@),
        forall|h: int, m: int|
            #![trigger scores@[h], cands@[m]]
            0 <= h < scores@.len() && h != base && !cands@.contains(h as usize) && 0 <= m
                < cands@.len() ==> scores@[h] <= scores@[cands@[m] as int],
        (k as int) >= scores@.len() - 1 ==> forall|h: int|
            0 <= h < scores@.len() && h != base ==> #[trigger] cands@.contains(h as usize),
{
    let n = scores.len();
    let mut order: Vec<usize> = Vec::new();
    for g in 0..n
        invariant
            n == scores@.len(),
            base < n,
            order@.len() == (g as int) - (if (g as int) > (base as int) {
                1int
            } else {
                0int
            }),
            forall|m: int|
                0 <= m < order@.len() ==> (order@[m] as int) < scores@.len() && order@[m] < g
                    && order@[m] != base,
            sorted_by_score_desc(order@, scores@),
            stable_on_ties(order@, scores@),
            pairwise_distinct(order@),
            forall|h: int| 0 <= h < g && h != base ==> #[trigger] order@.contains(h as usize),
    {
        if g != base {
            let ghost before = order@;
            insert_sorted(&mut order, scores, base, g);
            proof {
                assert forall|h: int| 0 <= h < g + 1 && h != base implies #[trigger] order@.contains(
                    h as usize,
                ) by {
                    if h < g {
                        assert(before.contains(h as usize));
                    }
                }
            }
        }
    }
    let limit = if k < n - 1 {
        k
    } else {
        n - 1
    };
    let ghost full = order@;
    order.truncate(limit);
    proof {
        assert(order@ == full.subrange(0, limit as int));
        assert forall|h: int, m: int|
            #![trigger scores@[h], order@[m]]
            0 <= h < scores@.len() && h != base && !order@.contains(h as usize) && 0 <= m
                < order@.len() implies scores@[h] <= scores@[order@[m] as int] by {
            assert(full.contains(h as usize));
            let ph = choose|q: int| 0 <= q < full.len() && full[q] == h as usize;
            if ph < limit as int {
                assert(order@[ph] == h as usize);
                assert(false);
            }
            assert(order@[m] == full[m]);
            assert(scores@[full[ph] as int] <= scores@[full[m] as int]);
        }
        if limit as int == full.len() {
            assert(order@ =~= full);
        }
    }
    order
}

/// Decides whether an ordered good-pair can be evaluated for a dyad whose
/// agents hold `len_i` and `len_j` goods: the two goods must differ, both
/// must be in range, and the two agents must hold the same number of goods.
/// A pair that fails this test yields no trade candidate.
pub fn ordered_pair_evaluable(len_i: usize, len_j: usize, good_a: usize, good_b: usize) -> (ok:
    bool)
    ensures
        ok == (good_a != good_b && good_a < len_i && good_b < len_i && len_i == len_j),
{
    good_a != good_b && good_a < len_i && good_b < len_i && len_i == len_j
}

/// Builds the default market-clearing oracle.
pub fn default_oracle() -> (oracle: CobbDouglasWalrasOracle)
    ensures
        oracle == (CobbDouglasWalrasOracle {}),
{
    CobbDouglasWalrasOracle
}

} // verus!
