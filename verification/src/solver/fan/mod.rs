//! Scoring one decomposition with a single best selection, and the small
//! search kernel it grew from.

pub mod fan_types;
pub mod search;

use vstd::prelude::*;

use crate::solver::decomposition::Decomposition;
use crate::solver::fan_context::FanContext;
use crate::solver::rules::{all_rules, check_profile};
use crate::solver::search::{
    best_selections, best_selections_exec, found_view, ints, items_wf, scores_fit, search_order, SearchItem,
};
use crate::solver::types::{FanCandidate, FanExclusionSet, FanSolveResult, FanType, ScoredFan};
use crate::solver::view::HandProfile;
use crate::solver::{DynamicFanContext, FanInstance, StaticFanContext, WinMethod};

verus! {

/// What the rules see of a context before the hand is taken apart.
pub open spec fn static_of(ctx: FanContext) -> StaticFanContext {
    StaticFanContext {
        seat_wind: ctx.seat_wind,
        prevalent_wind: ctx.prevalent_wind,
        win_method: ctx.win_method,
        winning_tile: ctx.winning_tile,
        flower_count: ctx.flower_count,
        is_concealed: ctx.is_concealed,
        is_fully_concealed: ctx.is_fully_concealed,
        is_last_tile_draw: ctx.is_last_tile_draw,
        is_last_tile_claim: ctx.is_last_tile_claim,
        is_last_tile_of_kind: ctx.is_last_tile_of_kind,
        wall_remaining: ctx.wall_remaining,
    }
}

/// Whether the winning tile came from a kong.
pub open spec fn dynamic_of(ctx: FanContext) -> DynamicFanContext {
    DynamicFanContext {
        is_kong_replacement: ctx.win_method == WinMethod::KongReplacement,
        is_rob_kong: ctx.win_method == WinMethod::RobKong,
    }
}

/// A fan found, scored by its points and excluding what its fan excludes.
pub open spec fn candidate_of(f: FanInstance) -> FanCandidate {
    FanCandidate {
        fan_type: f.fan_type,
        used_set_mask: f.used_set_mask,
        uses_pair: f.uses_pair,
        score: f.fan_type.spec_points(),
        excludes_mask: FanExclusionSet(f.fan_type.exclusion_mask()),
    }
}

/// The fans found, as candidates of the search.
pub open spec fn candidates_of(fs: Seq<FanInstance>) -> Seq<FanCandidate> {
    fs.map_values(|f: FanInstance| candidate_of(f))
}

pub open spec fn scored_item(c: FanCandidate) -> SearchItem {
    SearchItem {
        bit: c.fan_type.spec_bit() as u16,
        score: c.score,
        mask: c.used_set_mask,
        key: (c.fan_type.spec_bit() as u16, c.uses_pair, c.used_set_mask & 0xffff),
        excludes: c.excludes_mask.0,
    }
}

pub open spec fn scored_items(c: Seq<FanCandidate>) -> Seq<SearchItem> {
    c.map_values(|x: FanCandidate| scored_item(x))
}

pub open spec fn scored_fan_of(c: FanCandidate) -> ScoredFan {
    ScoredFan {
        fan_type: c.fan_type,
        used_set_mask: c.used_set_mask,
        uses_pair: c.uses_pair,
        score: c.score,
    }
}

/// `r` is the first of the best selections `found` of total `best`, or the
/// empty result where the best total is zero.
pub open spec fn first_best(c: Seq<FanCandidate>, r: FanSolveResult, best: int, found: Seq<Seq<int>>) -> bool {
    let items = scored_items(c);
    let order = search_order(items);
    &&& best_selections(items, order, false, best, found)
    &&& found.len() >= 1
    &&& best == 0 ==> r.total_score == 0 && r.fans@.len() == 0
    &&& best > 0 ==> r.total_score == best && r.fans@ == found[0].map_values(
        |pos: int| scored_fan_of(c[order[pos]]),
    )
}

fn to_item(c: &FanCandidate) -> (r: SearchItem)
    ensures
        r == scored_item(*c),
        r.bit < 128,
{
    let bit = c.fan_type.bit_index() as u16;
    SearchItem {
        bit,
        score: c.score,
        mask: c.used_set_mask,
        key: (bit, c.uses_pair, c.used_set_mask & 0xffff),
        excludes: c.excludes_mask.0,
    }
}

/// The first best selection of the candidates, without the account-once
/// principle.
pub fn solve_candidates(candidates: Vec<FanCandidate>) -> (r: FanSolveResult)
    requires
        scores_fit(scored_items(candidates@), false, 65535),
    ensures
        exists|best: int, found: Seq<Seq<int>>| #[trigger] first_best(candidates@, r, best, found),
{
    let mut items: Vec<SearchItem> = Vec::new();
    let mut i: usize = 0;
    while i < candidates.len()
        invariant
            i <= candidates@.len(),
            items@ == scored_items(candidates@).subrange(0, i as int),
            items_wf(items@),
        decreases candidates@.len() - i,
    {
        items.push(to_item(&candidates[i]));
        i = i + 1;
    }
    assert(items@ == scored_items(candidates@));
    let (order, best, found) = best_selections_exec(&items, false);
    let ghost ord = ints(order@);
    let ghost fv = found_view(found@);
    if best == 0 {
        let r = FanSolveResult::default();
        assert(first_best(candidates@, r, best as int, fv));
        return r;
    }
    proof {
        crate::solver::search::lemma_order_in_range(items@, 0);
        assert(crate::solver::search::chain_ok(items@, ord, false, fv[0]));
        crate::solver::search::lemma_selection_len(items@, false, fv[0]);
        crate::solver::search::lemma_score_bound(items@, ord, fv[0]);
        assert forall|m: int| 0 <= m < found@[0]@.len() implies 0 <= #[trigger] found@[0]@[m] < ord.len() by {
            crate::solver::search::lemma_chain_prefix(items@, ord, false, fv[0], m);
            assert(fv[0][m] == found@[0]@[m] as int);
        }
    }
    let sel = &found[0];
    let mut fans: Vec<ScoredFan> = Vec::new();
    let mut q: usize = 0;
    while q < sel.len()
        invariant
            q <= sel@.len(),
            ord == ints(order@),
            forall|m: int| 0 <= m < ord.len() ==> 0 <= #[trigger] ord[m] < items@.len(),
            items@.len() == candidates@.len(),
            fv[0] == ints(sel@),
            forall|m: int| 0 <= m < sel@.len() ==> 0 <= #[trigger] sel@[m] < ord.len(),
            fans@ == ints(sel@).map_values(|pos: int| scored_fan_of(candidates@[ord[pos]])).subrange(
                0,
                q as int,
            ),
        decreases sel@.len() - q,
    {
        let pos = sel[q];
        let idx = order[pos];
        proof {
            assert(ord[pos as int] == idx as int);
        }
        let c = &candidates[idx];
        fans.push(ScoredFan {
            fan_type: c.fan_type,
            used_set_mask: c.used_set_mask,
            uses_pair: c.uses_pair,
            score: c.score,
        });
        q = q + 1;
    }
    assert(fans@ == fv[0].map_values(|pos: int| scored_fan_of(candidates@[ord[pos]])));
    assert(best <= 65535) by {
        assert(best as int == crate::solver::search::chain_score(items@, ord, fv[0]));
    }
    let r = FanSolveResult { total_score: best as u16, fans };
    assert(first_best(candidates@, r, best as int, fv));
    r
}

/// The fans are all Flower Tiles (or there are none).
pub open spec fn only_flowers(fans: Seq<ScoredFan>) -> bool {
    forall|i: int| 0 <= i < fans.len() ==> (#[trigger] fans[i]).fan_type == FanType::FlowerTiles
}

/// The Chicken Hand fan, worth eight points.
pub open spec fn chicken_fan() -> ScoredFan {
    ScoredFan { fan_type: FanType::ChickenHand, used_set_mask: 0, uses_pair: false, score: 8 }
}

/// Chicken Hand added to a result that scores nothing but flowers.
pub open spec fn with_chicken(r: FanSolveResult, out: FanSolveResult) -> bool {
    if only_flowers(r.fans@) {
        out.total_score == r.total_score + 8 && out.fans@ == r.fans@.push(chicken_fan())
    } else {
        out.total_score == r.total_score && out.fans@ == r.fans@
    }
}

/// `r` is the scoring of the decomposition `decomp` under `ctx`: the first
/// best selection of the fans its rules find, or Chicken Hand.
pub open spec fn hand_score(decomp: Decomposition, ctx: FanContext, r: FanSolveResult) -> bool {
    exists|p: HandProfile, best: int, found: Seq<Seq<int>>, raw: FanSolveResult|
        p.views(decomp) && p.wf() && #[trigger] first_best(
            candidates_of(all_rules(p, static_of(ctx), dynamic_of(ctx), ctx.wait_type)),
            raw,
            best,
            found,
        ) && with_chicken(raw, r)
}

/// Scores one decomposition: builds its profile, runs every rule, gives
/// each fan found its score and exclusions, takes the first best selection,
/// and awards Chicken Hand where nothing but flowers scored.
pub fn score_hand(decomp: &Decomposition, ctx: &FanContext) -> (r: Vec<FanSolveResult>)
    requires
        decomp.wf(),
    ensures
        r@.len() == 1,
        hand_score(*decomp, *ctx, r@[0]),
{
    let profile = HandProfile::from_decomposition(decomp);
    let static_ctx = StaticFanContext {
        seat_wind: ctx.seat_wind,
        prevalent_wind: ctx.prevalent_wind,
        win_method: ctx.win_method,
        winning_tile: ctx.winning_tile,
        flower_count: ctx.flower_count,
        is_concealed: ctx.is_concealed,
        is_fully_concealed: ctx.is_fully_concealed,
        is_last_tile_draw: ctx.is_last_tile_draw,
        is_last_tile_claim: ctx.is_last_tile_claim,
        is_last_tile_of_kind: ctx.is_last_tile_of_kind,
        wall_remaining: ctx.wall_remaining,
    };
    let dynamic_ctx = DynamicFanContext {
        is_kong_replacement: ctx.win_method == WinMethod::KongReplacement,
        is_rob_kong: ctx.win_method == WinMethod::RobKong,
    };
    let raw = check_profile(&profile, &static_ctx, &dynamic_ctx, ctx.wait_type);
    proof {
        crate::solver::rules::lemma_rules_len(81, profile, static_ctx, dynamic_ctx, ctx.wait_type);
    }
    let mut candidates: Vec<FanCandidate> = Vec::new();
    let mut i: usize = 0;
    while i < raw.len()
        invariant
            i <= raw@.len(),
            candidates@ == raw@.map_values(|f: FanInstance| candidate_of(f)).subrange(0, i as int),
        decreases raw@.len() - i,
    {
        let f = raw[i];
        let mask = f.fan_type.excludes_mask();
        candidates.push(FanCandidate {
            fan_type: f.fan_type,
            used_set_mask: f.used_set_mask,
            uses_pair: f.uses_pair,
            score: f.fan_type.points(),
            excludes_mask: mask,
        });
        i = i + 1;
    }
    let ghost cands = candidates@;
    assert(cands == candidates_of(raw@));
    proof {
        crate::solver::search::lemma_scores_fit(scored_items(cands), false);
        assert(scores_fit(scored_items(cands), false, 65535));
    }
    let result = solve_candidates(candidates);
    let ghost raw_result = result;
    proof {
        let (best, found) = choose|best: int, found: Seq<Seq<int>>| #[trigger] first_best(cands, raw_result, best, found);
        assert(first_best(cands, raw_result, best, found));
        assert(raw@.len() <= 81);
        assert(scored_items(cands).len() == raw@.len());
        crate::solver::search::lemma_scores_fit(scored_items(cands), false);
        if best > 0 {
            let its = scored_items(cands);
            assert(crate::solver::search::chain_ok(its, search_order(its), false, found[0]));
            assert(crate::solver::search::chain_score(its, search_order(its), found[0]) == best);
            assert(crate::solver::search::chain_score(its, search_order(its), found[0]) <= 255 * its.len());
            assert(255 * its.len() <= 255 * 81) by (nonlinear_arith)
                requires
                    its.len() <= 81,
            ;
            assert(best <= 255 * 81);
            assert(raw_result.total_score == best);
        } else {
            let its = scored_items(cands);
            assert(crate::solver::search::chain_ok(its, search_order(its), false, Seq::<int>::empty()));
            assert(crate::solver::search::chain_score(its, search_order(its), Seq::<int>::empty()) == 0);
            assert(raw_result.total_score == 0);
        }
        assert(raw_result.total_score <= 255 * 81);
    }
    let mut out = result;
    // Chicken Hand: a hand that scores nothing but flowers gains eight points.
    let mut only = true;
    let mut k: usize = 0;
    while k < out.fans.len()
        invariant
            k <= out.fans@.len(),
            only <==> forall|i: int| 0 <= i < k ==> (#[trigger] out.fans@[i]).fan_type == FanType::FlowerTiles,
        decreases out.fans@.len() - k,
    {
        if !matches!(out.fans[k].fan_type, FanType::FlowerTiles) {
            only = false;
        }
        k = k + 1;
    }
    if only {
        out.fans.push(ScoredFan {
            fan_type: FanType::ChickenHand,
            used_set_mask: 0,
            uses_pair: false,
            score: 8,
        });
        out.total_score = out.total_score + 8;
        assert(out.fans@ =~= raw_result.fans@.push(chicken_fan()));
    }
    let mut r: Vec<FanSolveResult> = Vec::new();
    r.push(out);
    proof {
        let (best, found) = choose|best: int, found: Seq<Seq<int>>| #[trigger] first_best(cands, raw_result, best, found);
        assert(first_best(cands, raw_result, best, found));
        assert(with_chicken(raw_result, r@[0]));
        assert(static_of(*ctx) == static_ctx);
        assert(dynamic_of(*ctx) == dynamic_ctx);
        assert(first_best(
            candidates_of(all_rules(profile, static_of(*ctx), dynamic_of(*ctx), ctx.wait_type)),
            raw_result,
            best,
            found,
        ));
    }
    r
}


/// The first best selection never counts a fan together with a fan that it
/// excludes, whichever of the two comes first.
pub proof fn lemma_first_best_no_excluded_pair(fs: Seq<FanInstance>, r: FanSolveResult, best: int, found: Seq<Seq<int>>, a: int, b: int)
    requires
        first_best(candidates_of(fs), r, best, found),
        0 <= a < b < r.fans@.len(),
    ensures
        !r.fans@[a].fan_type.excludes(r.fans@[b].fan_type),
        !r.fans@[b].fan_type.excludes(r.fans@[a].fan_type),
{
    let c = candidates_of(fs);
    let items = scored_items(c);
    let order = search_order(items);
    let sel = found[0];
    assert(crate::solver::search::chain_ok(items, order, false, Seq::<int>::empty()));
    assert(crate::solver::search::chain_score(items, order, Seq::<int>::empty()) == 0);
    assert(best > 0);
    assert(crate::solver::search::chain_ok(items, order, false, sel));
    crate::solver::search::lemma_order_in_range(items, 0);
    crate::solver::search::lemma_chain_prefix(items, order, false, sel, sel.len() as int);
    crate::solver::search::lemma_chain_prefix(items, order, false, sel, a);
    crate::solver::search::lemma_chain_prefix(items, order, false, sel, b);
    assert forall|k: int| 0 <= k < items.len() implies (#[trigger] items[k]).bit < 128 by {
        assert(items[k] == scored_item(c[k]));
        assert(c[k] == candidate_of(fs[k]));
    }
    crate::solver::search::lemma_selection_compatible(items, order, false, sel);
    assert(crate::solver::search::compatible(items, order, sel, a, b));
    crate::solver::search::lemma_selection_descends(items, false, sel);
    let ca = c[order[sel[a]]];
    let cb = c[order[sel[b]]];
    assert(r.fans@[a] == scored_fan_of(ca) && r.fans@[b] == scored_fan_of(cb));
    assert(ca == candidate_of(fs[order[sel[a]]]));
    assert(cb == candidate_of(fs[order[sel[b]]]));
    assert(items[order[sel[a]]] == scored_item(ca));
    assert(items[order[sel[b]]] == scored_item(cb));
    crate::solver::types::lemma_mask_bits(ca.fan_type);
    crate::solver::types::lemma_points_follow_rulebook(cb.fan_type);
    assert(!crate::solver::types::has_bit(ca.fan_type.exclusion_mask(), cb.fan_type.spec_bit()));
    if cb.fan_type.excludes(ca.fan_type) {
        crate::solver::types::lemma_exclusions_go_down(cb.fan_type, ca.fan_type);
        assert(items[order[sel[a]]].score >= items[order[sel[b]]].score);
    }
}

} // verus!
