//! The search for the best compatible selection of candidates, without the
//! account-once principle.

use vstd::prelude::*;

use super::fan_types::{FanCandidate, FanInstance, FanSolveResult};
use crate::solver::search::{
    best_selections, best_selections_exec, chain_ok, chain_score, found_view, ints, items_wf,
    lemma_chain_prefix, lemma_order_in_range, scores_fit, search_order, SearchItem,
};

verus! {

/// A candidate as the search sees it: its own score and exclusions, and as
/// identity its fan, whether it uses the pair, and the low sixteen bits of
/// its set mask.
pub open spec fn candidate_item(c: FanCandidate) -> SearchItem {
    SearchItem {
        bit: c.fan_type.spec_bit() as u16,
        score: c.score,
        mask: c.used_set_mask,
        key: (c.fan_type.spec_bit() as u16, c.uses_pair, c.used_set_mask & 0xffff),
        excludes: c.excludes_mask.0,
    }
}

pub open spec fn candidate_items(c: Seq<FanCandidate>) -> Seq<SearchItem> {
    c.map_values(|x: FanCandidate| candidate_item(x))
}

pub open spec fn instance_of(c: FanCandidate) -> FanInstance {
    FanInstance {
        fan_type: c.fan_type,
        used_set_mask: c.used_set_mask,
        uses_pair: c.uses_pair,
        score: c.score,
    }
}

/// The instances a selection picks, in search order.
pub open spec fn picked_instances(c: Seq<FanCandidate>, order: Seq<int>, sel: Seq<int>) -> Seq<FanInstance> {
    sel.map_values(|pos: int| instance_of(c[order[pos]]))
}

/// `r` is the first of the best selections `found` of total `best`, or the
/// empty result where the best total is zero.
pub open spec fn best_result(c: Seq<FanCandidate>, r: FanSolveResult, best: int, found: Seq<Seq<int>>) -> bool {
    let items = candidate_items(c);
    let order = search_order(items);
    &&& best_selections(items, order, false, best, found)
    &&& found.len() >= 1
    &&& best == 0 ==> r.total_score == 0 && r.fans@.len() == 0
    &&& best > 0 ==> r.total_score == best && r.fans@ == picked_instances(c, order, found[0])
}

/// The sum of the scores of the fans.
pub open spec fn scores_sum(fans: Seq<FanInstance>) -> int
    decreases fans.len(),
{
    if fans.len() == 0 {
        0
    } else {
        scores_sum(fans.drop_last()) + fans.last().score
    }
}

/// The instances a selection picks score what the selection scores.
proof fn lemma_picked_sum(c: Seq<FanCandidate>, order: Seq<int>, sel: Seq<int>)
    requires
        forall|m: int| 0 <= m < sel.len() ==> 0 <= #[trigger] sel[m] < order.len(),
        forall|j: int| 0 <= j < order.len() ==> 0 <= #[trigger] order[j] < c.len(),
    ensures
        scores_sum(picked_instances(c, order, sel)) == chain_score(candidate_items(c), order, sel),
    decreases sel.len(),
{
    if sel.len() > 0 {
        let prev = sel.drop_last();
        lemma_picked_sum(c, order, prev);
        assert(picked_instances(c, order, sel).drop_last() == picked_instances(c, order, prev));
        assert(0 <= sel.last() < order.len());
        assert(candidate_items(c)[order[sel.last()]].score == c[order[sel.last()]].score);
    }
}

/// The total of a result is the sum of the scores of its fans.
pub proof fn lemma_result_total(c: Seq<FanCandidate>, r: FanSolveResult, best: int, found: Seq<Seq<int>>)
    requires
        best_result(c, r, best, found),
    ensures
        r.total_score == scores_sum(r.fans@),
{
    let items = candidate_items(c);
    let order = search_order(items);
    assert(chain_ok(items, order, false, Seq::<int>::empty()));
    assert(chain_score(items, order, Seq::<int>::empty()) == 0);
    if best > 0 {
        let sel = found[0];
        assert(chain_ok(items, order, false, sel));
        assert(chain_score(items, order, sel) == best);
        assert forall|m: int| 0 <= m < sel.len() implies 0 <= #[trigger] sel[m] < order.len() by {
            lemma_chain_prefix(items, order, false, sel, m);
        }
        lemma_order_in_range(items, 0);
        lemma_picked_sum(c, order, sel);
    }
}

fn to_item(c: &FanCandidate) -> (r: SearchItem)
    ensures
        r == candidate_item(*c),
        r.bit < 128,
{
    let bit = c.fan_type.bit_index() as u16;
    SearchItem {
        bit,
        score: c.score,
        mask: c.used_set_mask,
        key: (bit, c.uses_pair, c.used_set_mask & 0xffff),
        excludes: c.excludes_mask.0,
    }
}

/// Find the maximum-score subset of the candidates, respecting the
/// non-repeat principle and the exclusions.
///
/// Candidates are tried from the highest score down, ties in input order;
/// of the selections of the highest total, the first in depth-first order is
/// returned. The running total is kept in sixteen bits, so no valid
/// selection may score more than 65535.
pub fn solve_max_score(candidates: Vec<FanCandidate>) -> (r: FanSolveResult)
    requires
        scores_fit(candidate_items(candidates@), false, 65535),
    ensures
        exists|best: int, found: Seq<Seq<int>>| #[trigger] best_result(candidates@, r, best, found),
{
    let mut items: Vec<SearchItem> = Vec::new();
    let mut i: usize = 0;
    while i < candidates.len()
        invariant
            i <= candidates@.len(),
            items@ == candidate_items(candidates@).subrange(0, i as int),
            items_wf(items@),
        decreases candidates@.len() - i,
    {
        items.push(to_item(&candidates[i]));
        i = i + 1;
    }
    assert(items@ == candidate_items(candidates@));
    let (order, best, found) = best_selections_exec(&items, false);
    let ghost ord = ints(order@);
    let ghost fv = found_view(found@);
    if best == 0 {
        let r = FanSolveResult::default();
        assert(best_result(candidates@, r, best as int, fv));
        return r;
    }
    proof {
        crate::solver::search::lemma_order_in_range(items@, 0);
        assert(crate::solver::search::chain_ok(items@, ord, false, fv[0]));
        crate::solver::search::lemma_selection_len(items@, false, fv[0]);
        crate::solver::search::lemma_score_bound(items@, ord, fv[0]);
        assert forall|m: int| 0 <= m < found@[0]@.len() implies 0 <= #[trigger] found@[0]@[m] < ord.len() by {
            crate::solver::search::lemma_chain_prefix(items@, ord, false, fv[0], m);
            assert(fv[0][m] == found@[0]@[m] as int);
        }
    }
    let sel = &found[0];
    let mut fans: Vec<FanInstance> = Vec::new();
    let mut q: usize = 0;
    while q < sel.len()
        invariant
            q <= sel@.len(),
            ord == ints(order@),
            forall|m: int| 0 <= m < ord.len() ==> 0 <= #[trigger] ord[m] < items@.len(),
            items@.len() == candidates@.len(),
            fv[0] == ints(sel@),
            forall|m: int| 0 <= m < sel@.len() ==> 0 <= #[trigger] sel@[m] < ord.len(),
            fans@ == picked_instances(candidates@, ord, ints(sel@)).subrange(0, q as int),
        decreases sel@.len() - q,
    {
        let pos = sel[q];
        let idx = order[pos];
        proof {
            assert(ord[pos as int] == idx as int);
        }
        let c = &candidates[idx];
        fans.push(FanInstance {
            fan_type: c.fan_type,
            used_set_mask: c.used_set_mask,
            uses_pair: c.uses_pair,
            score: c.score,
        });
        q = q + 1;
    }
    assert(fans@ == picked_instances(candidates@, ord, fv[0]));
    assert(best <= 65535) by {
        assert(best as int == crate::solver::search::chain_score(items@, ord, fv[0]));
    }
    let r = FanSolveResult { total_score: best as u16, fans };
    assert(best_result(candidates@, r, best as int, fv));
    r
}

} // verus!
