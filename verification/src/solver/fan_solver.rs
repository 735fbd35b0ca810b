//! The search for every best selection of fan instances, with the
//! account-once principle.

use vstd::prelude::*;

use crate::solver::search::{
    best_selections, best_selections_exec, found_view, ints, items_wf, search_order, SearchItem,
};
use crate::solver::{FanInstance, FanResult};
use crate::solver::types::{has_bit, lemma_exclusions_go_down, lemma_mask_bits};

verus! {

/// The identity of a fan instance: its fan, whether it uses the pair, and
/// the sets it uses. Two instances with the same identity are the same fan
/// counted twice.
pub open spec fn dedup_key_spec(inst: FanInstance) -> (u16, bool, u64) {
    (inst.fan_type.spec_bit() as u16, inst.uses_pair, inst.used_set_mask)
}

pub fn dedup_key_of(inst: &FanInstance) -> (r: (u16, bool, u64))
    ensures
        r == dedup_key_spec(*inst),
{
    (inst.fan_type.bit_index() as u16, inst.uses_pair, inst.used_set_mask)
}

/// A fan instance as the search sees it: scored by the points of its fan,
/// excluding what its fan excludes.
pub open spec fn item_of(inst: FanInstance) -> SearchItem {
    SearchItem {
        bit: inst.fan_type.spec_bit() as u16,
        score: inst.fan_type.spec_points(),
        mask: inst.used_set_mask,
        key: dedup_key_spec(inst),
        excludes: inst.fan_type.exclusion_mask(),
    }
}

pub open spec fn fan_items(c: Seq<FanInstance>) -> Seq<SearchItem> {
    c.map_values(|inst: FanInstance| item_of(inst))
}

/// The instances a selection picks, in search order.
pub open spec fn picked(c: Seq<FanInstance>, order: Seq<int>, sel: Seq<int>) -> Seq<FanInstance> {
    sel.map_values(|pos: int| c[order[pos]])
}

/// `r` holds every best selection of the candidates, found as `found`
/// with total `best`: one result per selection, or one empty result where
/// the best total is zero.
pub open spec fn max_results(c: Seq<FanInstance>, r: Seq<FanResult>, best: int, found: Seq<Seq<int>>) -> bool {
    let items = fan_items(c);
    let order = search_order(items);
    &&& best_selections(items, order, true, best, found)
    &&& best == 0 ==> r.len() == 1 && r[0].fans@.len() == 0
    &&& best > 0 ==> r.len() == found.len() && forall|i: int|
        0 <= i < r.len() ==> (#[trigger] r[i]).fans@ == picked(c, order, found[i])
}

fn to_item(inst: &FanInstance) -> (r: SearchItem)
    ensures
        r == item_of(*inst),
        r.bit < 128,
{
    let bit = inst.fan_type.bit_index();
    SearchItem {
        bit: bit as u16,
        score: inst.fan_type.points(),
        mask: inst.used_set_mask,
        key: dedup_key_of(inst),
        excludes: inst.fan_type.excludes_mask().0,
    }
}

/// Every best selection of the candidates, each as one result.
///
/// Candidates are tried from the most valuable down, ties in input order;
/// a candidate joins a selection when no fan already selected excludes it,
/// when no selected instance has its identity, and when it does not join
/// sets already joined by another fan a second time (account-once).
/// Every best selection is returned, in depth-first order; with no
/// candidates, one empty result.
pub fn solve_max_score(candidates: Vec<FanInstance>) -> (r: Vec<FanResult>)
    ensures
        r@.len() >= 1,
        exists|best: int, found: Seq<Seq<int>>| #[trigger] max_results(candidates@, r@, best, found),
        forall|i: int| 0 <= i < r@.len() ==> (#[trigger] r@[i]).fans@.len() <= candidates@.len(),
{
    let mut items: Vec<SearchItem> = Vec::new();
    let mut i: usize = 0;
    while i < candidates.len()
        invariant
            i <= candidates@.len(),
            items@ == fan_items(candidates@).subrange(0, i as int),
            items_wf(items@),
        decreases candidates@.len() - i,
    {
        items.push(to_item(&candidates[i]));
        i = i + 1;
    }
    assert(items@ == fan_items(candidates@));
    let (order, best, found) = best_selections_exec(&items, true);
    let ghost ord = ints(order@);
    let ghost fv = found_view(found@);
    proof {
        crate::solver::search::lemma_order_in_range(items@, 0);
    }
    let mut results: Vec<FanResult> = Vec::new();
    if best > 0 {
        let mut k: usize = 0;
        while k < found.len()
            invariant
                k <= found@.len(),
                ord == ints(order@),
                ord == search_order(items@),
                items@ == fan_items(candidates@),
                fv == found_view(found@),
                best_selections(items@, ord, true, best as int, fv),
                forall|q: int| 0 <= q < ord.len() ==> 0 <= #[trigger] ord[q] < items@.len(),
                results@.len() == k,
                forall|m: int| 0 <= m < k ==> (#[trigger] results@[m]).fans@ == picked(candidates@, ord, fv[m]),
                forall|m: int| 0 <= m < k ==> (#[trigger] results@[m]).fans@.len() <= candidates@.len(),
            decreases found@.len() - k,
        {
            let sel = &found[k];
            proof {
                assert(fv[k as int] == ints(sel@));
                assert(crate::solver::search::chain_ok(items@, ord, true, fv[k as int]));
                assert forall|m: int| 0 <= m < sel@.len() implies 0 <= #[trigger] sel@[m] < ord.len() by {
                    crate::solver::search::lemma_chain_prefix(items@, ord, true, fv[k as int], m);
                    assert(fv[k as int][m] == sel@[m] as int);
                }
            }
            let mut fans: Vec<FanInstance> = Vec::new();
            let mut q: usize = 0;
            while q < sel.len()
                invariant
                    q <= sel@.len(),
                    ord == ints(order@),
                    forall|m: int| 0 <= m < ord.len() ==> 0 <= #[trigger] ord[m] < items@.len(),
                    items@.len() == candidates@.len(),
                    fv[k as int] == ints(sel@),
                    forall|m: int| 0 <= m < sel@.len() ==> 0 <= #[trigger] sel@[m] < ord.len(),
                    fans@ == picked(candidates@, ord, ints(sel@)).subrange(0, q as int),
                decreases sel@.len() - q,
            {
                let pos = sel[q];
                let idx = order[pos];
                proof {
                    assert(ord[pos as int] == idx as int);
                }
                fans.push(candidates[idx]);
                q = q + 1;
            }
            assert(fans@ == picked(candidates@, ord, fv[k as int]));
            proof {
                crate::solver::search::lemma_selection_len(items@, true, fv[k as int]);
            }
            results.push(FanResult { fans });
            k = k + 1;
        }
    } else {
        results.push(FanResult::default());
    }
    assert(max_results(candidates@, results@, best as int, fv));
    results
}


/// No result counts a fan together with a fan that it excludes, whichever
/// of the two comes first.
pub proof fn lemma_no_excluded_pair(c: Seq<FanInstance>, r: Seq<FanResult>, best: int, found: Seq<Seq<int>>, i: int, a: int, b: int)
    requires
        max_results(c, r, best, found),
        0 <= i < r.len(),
        0 <= a < b < r[i].fans@.len(),
    ensures
        !r[i].fans@[a].fan_type.excludes(r[i].fans@[b].fan_type),
        !r[i].fans@[b].fan_type.excludes(r[i].fans@[a].fan_type),
{
    let items = fan_items(c);
    let order = search_order(items);
    let sel = found[i];
    assert(crate::solver::search::chain_ok(items, order, true, Seq::<int>::empty()));
    assert(crate::solver::search::chain_score(items, order, Seq::<int>::empty()) == 0);
    assert(best > 0);
    assert(crate::solver::search::chain_ok(items, order, true, sel));
    crate::solver::search::lemma_order_in_range(items, 0);
    crate::solver::search::lemma_chain_prefix(items, order, true, sel, sel.len() as int);
    crate::solver::search::lemma_chain_prefix(items, order, true, sel, a);
    crate::solver::search::lemma_chain_prefix(items, order, true, sel, b);
    assert forall|k: int| 0 <= k < items.len() implies (#[trigger] items[k]).bit < 128 by {
        assert(items[k] == item_of(c[k]));
    }
    crate::solver::search::lemma_selection_compatible(items, order, true, sel);
    assert(crate::solver::search::compatible(items, order, sel, a, b));
    crate::solver::search::lemma_selection_descends(items, true, sel);
    let fa = c[order[sel[a]]];
    let fb = c[order[sel[b]]];
    assert(r[i].fans@[a] == fa && r[i].fans@[b] == fb);
    assert(items[order[sel[a]]] == item_of(fa));
    assert(items[order[sel[b]]] == item_of(fb));
    lemma_mask_bits(fa.fan_type);
    crate::solver::types::lemma_points_follow_rulebook(fb.fan_type);
    assert(!has_bit(fa.fan_type.exclusion_mask(), fb.fan_type.spec_bit()));
    if fb.fan_type.excludes(fa.fan_type) {
        lemma_exclusions_go_down(fb.fan_type, fa.fan_type);
        assert(items[order[sel[a]]].score >= items[order[sel[b]]].score);
    }
}

} // verus!
