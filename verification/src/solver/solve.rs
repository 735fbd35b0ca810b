//! The highest-scoring single result for a winning hand.

use vstd::prelude::*;

use crate::solver::decompose_standard::counts_ok;
use crate::solver::fan::{hand_score, score_hand};
use crate::solver::fan_context::FanContext;
use crate::solver::types::FanSolveResult;
use crate::solver::decomposition::Decomposition;
use crate::solver::{covers, decompose_hand, decomposes, DecomposeResult, SolverError};
use crate::structs::Hand;

verus! {

/// Each result is the scoring of the decomposition beside it.
pub open spec fn scored_each(hand: Hand, ctx: FanContext, ds: Seq<DecomposeResult>, rs: Seq<FanSolveResult>) -> bool {
    &&& ds.len() == rs.len()
    &&& forall|i: int| 0 <= i < ds.len() ==> decomposes(hand, (#[trigger] ds[i]).decompositions)
    &&& forall|i: int| 0 <= i < ds.len() ==> hand_score(ds[i].decompositions, ctx, #[trigger] rs[i])
}

/// `b` is the first result of the highest total among `rs`.
pub open spec fn first_highest(rs: Seq<FanSolveResult>, b: FanSolveResult) -> bool {
    exists|i: int|
        0 <= i < rs.len() && #[trigger] rs[i].total_score == b.total_score && rs[i].fans@ == b.fans@
            && (forall|j: int| 0 <= j < rs.len() ==> #[trigger] rs[j].total_score <= b.total_score)
            && (forall|j: int| 0 <= j < i ==> #[trigger] rs[j].total_score < b.total_score)
}

/// Find the highest-scoring fan result for a hand and context.
///
/// Every decomposition is scored and the first result of the highest total
/// is returned; `None` where the hand has no decomposition.
pub fn solve_fan(hand: &Hand, ctx: &FanContext) -> (r: Result<Option<FanSolveResult>, SolverError>)
    requires
        counts_ok(hand.concealed),
    ensures
        r matches Ok(o) && exists|ds: Seq<DecomposeResult>, rs: Seq<FanSolveResult>|
            #[trigger] scored_each(*hand, *ctx, ds, rs) && covers(*hand, ds) && (o is None <==> ds.len() == 0)
                && (o matches Some(b) ==> first_highest(rs, b)),
        r matches Ok(o) && (o is Some <==> exists|d: Decomposition| #[trigger] decomposes(*hand, d)),
{
    let decompositions = match decompose_hand(hand) {
        Ok(ds) => ds,
        Err(e) => return Err(e),
    };
    if decompositions.len() == 0 {
        proof {
            assert(scored_each(*hand, *ctx, Seq::<DecomposeResult>::empty(), Seq::<FanSolveResult>::empty()));
            assert(decompositions@ == Seq::<DecomposeResult>::empty());
            reveal(covers);
            assert forall|d: Decomposition| !decomposes(*hand, d) by {
                if decomposes(*hand, d) {
                    assert(covers(*hand, decompositions@));
                }
            }
        }
        return Ok(None);
    }
    let mut best: Option<FanSolveResult> = None;
    let ghost mut ds: Seq<DecomposeResult> = Seq::empty();
    let ghost mut rs: Seq<FanSolveResult> = Seq::empty();
    let mut i: usize = 0;
    while i < decompositions.len()
        invariant
            i <= decompositions@.len(),
            forall|k: int| 0 <= k < decompositions@.len() ==> {
                &&& decomposes(*hand, (#[trigger] decompositions@[k]).decompositions)
                &&& decompositions@[k].decompositions.wf()
            },
            scored_each(*hand, *ctx, ds, rs),
            ds == decompositions@.take(i as int),
            rs.len() == i,
            i == 0 <==> best is None,
            best matches Some(b) ==> first_highest(rs, b),
        decreases decompositions@.len() - i,
    {
        let mut results = score_hand(&decompositions[i].decompositions, ctx);
        let r = match results.pop() {
            Some(r) => r,
            None => {
                proof {
                    assert(false);
                }
                return Err(SolverError::InvalidHand);
            },
        };
        let ghost rs2 = rs.push(r);
        let ghost ds2 = ds.push(decompositions@[i as int]);
        proof {
            assert(rs2[i as int] == r);
            assert forall|k: int| 0 <= k < ds2.len() implies decomposes(*hand, (#[trigger] ds2[k]).decompositions) by {
                if k < ds.len() {
                    assert(ds2[k] == ds[k]);
                }
            }
            assert forall|k: int| 0 <= k < ds2.len() implies hand_score(ds2[k].decompositions, *ctx, #[trigger] rs2[k]) by {
                if k < ds.len() {
                    assert(ds2[k] == ds[k]);
                    assert(rs2[k] == rs[k]);
                }
            }
        }
        let is_better = match &best {
            None => true,
            Some(b) => r.total_score > b.total_score,
        };
        if is_better {
            proof {
                if i > 0 {
                    let b = best->0;
                    let w = choose|w: int|
                        0 <= w < rs.len() && #[trigger] rs[w].total_score == b.total_score && rs[w].fans@ == b.fans@
                            && (forall|j: int| 0 <= j < rs.len() ==> #[trigger] rs[j].total_score <= b.total_score)
                            && (forall|j: int| 0 <= j < w ==> #[trigger] rs[j].total_score < b.total_score);
                    assert(forall|j: int| 0 <= j < rs.len() ==> #[trigger] rs2[j].total_score == rs[j].total_score);
                }
                assert(first_highest(rs2, r)) by {
                    assert(rs2[i as int].total_score == r.total_score && rs2[i as int].fans@ == r.fans@);
                    assert forall|j: int| 0 <= j < rs2.len() implies #[trigger] rs2[j].total_score <= r.total_score by {
                        if j < i {
                            assert(rs2[j] == rs[j]);
                        }
                    }
                    assert forall|j: int| 0 <= j < i implies #[trigger] rs2[j].total_score < r.total_score by {
                        assert(rs2[j] == rs[j]);
                    }
                }
            }
            best = Some(r);
        } else {
            proof {
                let b = best->0;
                let w = choose|w: int|
                    0 <= w < rs.len() && #[trigger] rs[w].total_score == b.total_score && rs[w].fans@ == b.fans@
                        && (forall|j: int| 0 <= j < rs.len() ==> #[trigger] rs[j].total_score <= b.total_score)
                        && (forall|j: int| 0 <= j < w ==> #[trigger] rs[j].total_score < b.total_score);
                assert(rs2[w] == rs[w]);
                assert forall|j: int| 0 <= j < rs2.len() implies #[trigger] rs2[j].total_score <= b.total_score by {
                    if j < i {
                        assert(rs2[j] == rs[j]);
                    }
                }
                assert forall|j: int| 0 <= j < w implies #[trigger] rs2[j].total_score < b.total_score by {
                    assert(rs2[j] == rs[j]);
                }
                assert(first_highest(rs2, b));
            }
        }
        proof {
            assert(ds2 == decompositions@.take(i as int + 1));
            ds = ds2;
            rs = rs2;
        }
        i = i + 1;
    }
    proof {
        assert(ds == decompositions@);
        assert(decomposes(*hand, decompositions@[0].decompositions));
    }
    Ok(best)
}

} // verus!
