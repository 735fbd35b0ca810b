//! Decomposition of winning hands and fan scoring.

pub mod types;
pub mod decomposition;
pub mod view;
pub mod rules;
pub mod decompose_standard;
pub mod decompose_special;
pub mod search;
pub mod fan_solver;
pub mod fan_context;
pub mod fan;
pub mod solve;
pub mod hu_solver;
pub mod completeness;


use vstd::prelude::*;

use crate::structs::{Hand, Meld, Pair, Tile, Wind};
use self::decompose_special::{detect_seven_pairs, detect_thirteen_orphans};
use self::decompose_standard::{counts_ok, decompose_standard, found_std, hand_sound, ConcealedDecompStd};
use self::decomposition::Decomposition;
use self::fan_solver::max_results;
use self::rules::all_rules;
use self::types::FanType;
use self::view::HandProfile;

verus! {

/// Why a hand could not be scored.
#[derive(Clone, Copy, Debug, PartialEq, Eq, Structural)]
pub enum SolverError {
    InvalidHand,
}

/// How the winning tile was obtained.
#[derive(Clone, Copy, Debug, PartialEq, Eq, Structural)]
pub enum WinMethod {
    SelfDraw,
    Discard,
    KongReplacement,
    RobKong,
}

/// The type of wait before the winning tile.
#[derive(Clone, Copy, Debug, PartialEq, Eq, Structural)]
pub enum WaitType {
    /// None / not applicable (multiple winning tiles possible).
    Multiple,
    /// Waiting for 3 to complete 1-2-3, or 7 to complete 7-8-9.
    Edge,
    /// Waiting for a tile in the middle of a chow (e.g., 4 for 3-4-5).
    Closed,
    /// Waiting for a single tile to complete the pair.
    Single,
}

/// What is known of the win before the hand is taken apart.
#[derive(Clone, Copy, Debug)]
pub struct StaticFanContext {
    pub seat_wind: Wind,
    pub prevalent_wind: Wind,
    pub win_method: WinMethod,
    pub winning_tile: Tile,
    pub flower_count: u8,
    pub is_concealed: bool,
    pub is_fully_concealed: bool,
    pub is_last_tile_draw: bool,
    pub is_last_tile_claim: bool,
    pub is_last_tile_of_kind: bool,
    pub wall_remaining: usize,
}

/// How the winning tile came, where it came from a kong.
#[derive(Clone, Copy, Debug)]
pub struct DynamicFanContext {
    pub is_kong_replacement: bool,
    pub is_rob_kong: bool,
}

/// One fan counted in a result: its type, the sets it uses (bit `i` for
/// set `i`) and whether it uses the pair.
#[derive(Clone, Copy, Debug)]
pub struct FanInstance {
    pub fan_type: FanType,
    pub used_set_mask: u64,
    pub uses_pair: bool,
}

/// The sum of the points of a list of fans.
pub open spec fn points_of(fans: Seq<FanInstance>) -> int
    decreases fans.len(),
{
    if fans.len() == 0 {
        0
    } else {
        points_of(fans.drop_last()) + fans.last().fan_type.spec_points()
    }
}

/// A decomposition together with the wait it was won on.
pub struct DecomposeResult {
    pub decompositions: decomposition::Decomposition,
    pub wait_type: WaitType,
}

/// The fans counted for one decomposition.
#[derive(Clone, Debug)]
pub struct FanResult {
    pub fans: Vec<FanInstance>,
}

impl FanResult {
    pub open spec fn spec_total(&self) -> int {
        points_of(self.fans@)
    }

    /// The sum of the points of the fans; the sum must fit in a byte.
    pub fn total_score(&self) -> (r: u8)
        requires
            self.spec_total() <= 255,
        ensures
            r == self.spec_total(),
    {
        let mut total: u8 = 0;
        let mut i: usize = 0;
        while i < self.fans.len()
            invariant
                i <= self.fans@.len(),
                total == points_of(self.fans@.take(i as int)),
                points_of(self.fans@) <= 255,
            decreases self.fans@.len() - i,
        {
            proof {
                lemma_points_prefix(self.fans@, i as int + 1);
                assert(self.fans@.take(i as int + 1).drop_last() == self.fans@.take(i as int));
            }
            total = total + self.fans[i].fan_type.points();
            i = i + 1;
        }
        assert(self.fans@.take(i as int) == self.fans@);
        total
    }

    /// The sum of the points of the fans, in a width that holds any sum.
    pub fn points_total(&self) -> (r: u128)
        ensures
            r == self.spec_total(),
    {
        let mut total: u128 = 0;
        let mut i: usize = 0;
        while i < self.fans.len()
            invariant
                i <= self.fans@.len(),
                total == points_of(self.fans@.take(i as int)),
                total <= 88 * i,
            decreases self.fans@.len() - i,
        {
            proof {
                assert(self.fans@.take(i as int + 1).drop_last() == self.fans@.take(i as int));
            }
            total = total + self.fans[i].fan_type.points() as u128;
            i = i + 1;
        }
        assert(self.fans@.take(i as int) == self.fans@);
        total
    }
}

impl Default for FanResult {
    fn default() -> (r: Self)
        ensures
            r.fans@.len() == 0,
    {
        FanResult { fans: Vec::new() }
    }
}

/// A prefix of a list of fans is worth no more than the list.
pub proof fn lemma_points_prefix(fans: Seq<FanInstance>, k: int)
    requires
        0 <= k <= fans.len(),
    ensures
        0 <= points_of(fans.take(k)) <= points_of(fans),
    decreases fans.len() - k,
{
    if k < fans.len() {
        lemma_points_prefix(fans, k + 1);
        assert(fans.take(k + 1).drop_last() == fans.take(k));
    } else {
        assert(fans.take(k) == fans);
    }
    lemma_points_nonneg(fans.take(k));
}

pub proof fn lemma_points_nonneg(fans: Seq<FanInstance>)
    ensures
        points_of(fans) >= 0,
    decreases fans.len(),
{
    if fans.len() > 0 {
        lemma_points_nonneg(fans.drop_last());
    }
}

// ── Decomposing a hand ───────────────────────────────────────────

/// The wait of a decomposition; waits are not analysed yet, so every
/// decomposition counts as waiting on several tiles.
pub fn stub_wait_type() -> (r: WaitType)
    ensures
        r == WaitType::Multiple,
{
    WaitType::Multiple
}

/// `d` is a decomposition of the hand: a standard one made of the declared
/// sets, then concealed pungs and chows that with the pair hold exactly the
/// concealed tiles; or seven pairs, in the order of the tiles; or thirteen
/// orphans, with the orphan held twice as the pair.
pub open spec fn decomposes(hand: Hand, d: Decomposition) -> bool {
    match d {
        Decomposition::Standard { pair, sets } => {
            &&& sets@.len() <= 4
            &&& sets@.len() >= hand.melds@.len()
            &&& sets@.subrange(0, hand.melds@.len() as int) == hand.melds@
            &&& hand_sound(hand.concealed, pair.spec_tile(), sets@.skip(hand.melds@.len() as int))
        },
        Decomposition::SevenPairs { pairs } => {
            &&& decompose_special::is_seven_pairs(hand.concealed)
            &&& forall|i: int|
                0 <= i < 7 ==> (#[trigger] pairs@[i]).spec_tile() == decompose_special::pair_tiles_upto(
                    hand.concealed,
                    34,
                )[i]
        },
        Decomposition::ThirteenOrphans { pair } => {
            &&& decompose_special::is_thirteen_orphans(hand.concealed)
            &&& hand.concealed.spec_count(pair.spec_tile()) == 2
            &&& decompose_special::orphans().contains(pair.spec_tile())
        },
    }
}

/// Two decompositions of a hand with `n` declared sets are the same: the
/// same pair and sets, the declared ones in their order and the others in
/// some order; or seven pairs of the same tiles; or thirteen orphans with
/// the same pair.
pub open spec fn same_decomp(a: Decomposition, b: Decomposition, n: int) -> bool {
    match (a, b) {
        (Decomposition::Standard { pair: p, sets: s }, Decomposition::Standard { pair: q, sets: t }) => {
            &&& p.spec_tile() == q.spec_tile()
            &&& s@.len() == t@.len()
            &&& s@.subrange(0, n) == t@.subrange(0, n)
            &&& s@.skip(n).to_multiset() == t@.skip(n).to_multiset()
        },
        (Decomposition::SevenPairs { pairs: p }, Decomposition::SevenPairs { pairs: q }) => forall|i: int|
            0 <= i < 7 ==> (#[trigger] p@[i]).spec_tile() == q@[i].spec_tile(),
        (Decomposition::ThirteenOrphans { pair: p }, Decomposition::ThirteenOrphans { pair: q }) => p.spec_tile()
            == q.spec_tile(),
        _ => false,
    }
}

/// `a` and `b` list the same pair and the same sets in the same order.
pub open spec fn same_listing(a: Decomposition, b: Decomposition) -> bool {
    match (a, b) {
        (Decomposition::Standard { pair: p, sets: s }, Decomposition::Standard { pair: q, sets: t }) => {
            p.spec_tile() == q.spec_tile() && s@ == t@
        },
        (Decomposition::SevenPairs { pairs: p }, Decomposition::SevenPairs { pairs: q }) => forall|i: int|
            0 <= i < 7 ==> (#[trigger] p@[i]).spec_tile() == q@[i].spec_tile(),
        (Decomposition::ThirteenOrphans { pair: p }, Decomposition::ThirteenOrphans { pair: q }) => p.spec_tile()
            == q.spec_tile(),
        _ => false,
    }
}

/// No two of `ds` list the same decomposition.
#[verifier::opaque]
pub open spec fn listed_once(ds: Seq<DecomposeResult>) -> bool {
    forall|i: int, j: int|
        0 <= i < j < ds.len() ==> !same_listing(#[trigger] ds[i].decompositions, #[trigger] ds[j].decompositions)
}

/// `d` is the standard decomposition with the declared sets `declared`
/// followed by the concealed part `c`.
pub open spec fn std_entry(d: Decomposition, c: ConcealedDecompStd, declared: Seq<Meld>) -> bool {
    d matches Decomposition::Standard { pair, sets } && pair.spec_tile() == c.pair_tile && sets@ == declared + c.melds@
}

/// Every decomposition of the hand is among `ds`.
#[verifier::opaque]
pub open spec fn covers(hand: Hand, ds: Seq<DecomposeResult>) -> bool {
    forall|d: Decomposition|
        #[trigger] decomposes(hand, d) ==> exists|i: int|
            0 <= i < ds.len() && same_decomp(#[trigger] ds[i].decompositions, d, hand.melds@.len() as int)
}

/// The standard decompositions kept, then seven pairs and thirteen orphans
/// where they apply, cover every decomposition of the hand.
proof fn lemma_decompose_cover(
    hand: Hand,
    standard: Seq<ConcealedDecompStd>,
    std_results: Seq<DecomposeResult>,
    results: Seq<DecomposeResult>,
    seven_pairs: Option<Decomposition>,
    thirteen_orphans: Option<Decomposition>,
    n_sp: int,
)
    requires
        forall|pair: Tile, melds: Seq<Meld>| #[trigger] hand_sound(hand.concealed, pair, melds) ==> found_std(standard, pair, melds),
        forall|k: int|
            0 <= k < standard.len() && (#[trigger] standard[k]).melds@.len() + hand.melds@.len() <= 4 ==> exists|j: int|
                0 <= j < std_results.len() && built_from(#[trigger] std_results[j].decompositions, standard[k], hand),
        std_results.len() <= n_sp <= results.len(),
        forall|j: int| 0 <= j < std_results.len() ==> #[trigger] results[j] == std_results[j],
        seven_pairs is Some <==> decompose_special::is_seven_pairs(hand.concealed),
        match seven_pairs {
            Some(Decomposition::SevenPairs { pairs }) => forall|i: int|
                0 <= i < 7 ==> (#[trigger] pairs@[i]).spec_tile() == decompose_special::pair_tiles_upto(hand.concealed, 34)[i],
            Some(_) => false,
            None => true,
        },
        seven_pairs is Some ==> n_sp == std_results.len() + 1 && results[std_results.len() as int].decompositions
            == seven_pairs->0,
        thirteen_orphans is Some <==> decompose_special::is_thirteen_orphans(hand.concealed),
        match thirteen_orphans {
            Some(Decomposition::ThirteenOrphans { pair }) => hand.concealed.spec_count(pair.spec_tile()) == 2
                && decompose_special::orphans().contains(pair.spec_tile()),
            Some(_) => false,
            None => true,
        },
        thirteen_orphans is Some ==> results[n_sp].decompositions == thirteen_orphans->0 && n_sp < results.len(),
    ensures
        covers(hand, results),
{
    reveal(covers);
    assert forall|d: Decomposition| #[trigger] decomposes(hand, d) implies exists|j: int|
        0 <= j < results.len() && same_decomp(#[trigger] results[j].decompositions, d, hand.melds@.len() as int) by {
        let n = hand.melds@.len() as int;
        match d {
            Decomposition::Standard { pair, sets } => {
                broadcast use vstd::seq_lib::group_to_multiset_ensures;

                let rest = sets@.skip(n);
                assert(found_std(standard, pair.spec_tile(), rest));
                let k = choose|k: int|
                    0 <= k < standard.len() && standard[k].pair_tile == pair.spec_tile()
                        && #[trigger] standard[k].melds@.to_multiset() == rest.to_multiset();
                assert(standard[k].melds@.len() == standard[k].melds@.to_multiset().len());
                assert(rest.len() == rest.to_multiset().len());
                let j = choose|j: int|
                    0 <= j < std_results.len() && built_from(#[trigger] std_results[j].decompositions, standard[k], hand);
                assert(results[j] == std_results[j]);
                let e = results[j].decompositions;
                if let Decomposition::Standard { pair: q, sets: t } = e {
                    assert(t@.subrange(0, n) == hand.melds@);
                    assert(t@.skip(n) == standard[k].melds@);
                    assert(sets@.subrange(0, n) == hand.melds@);
                }
                assert(same_decomp(e, d, n));
            },
            Decomposition::SevenPairs { pairs } => {
                let e = results[std_results.len() as int].decompositions;
                assert(same_decomp(e, d, n));
            },
            Decomposition::ThirteenOrphans { pair } => {
                let e = results[n_sp].decompositions;
                if let Decomposition::ThirteenOrphans { pair: q } = e {
                    decompose_special::lemma_thirteen_pair_unique(hand.concealed, q.spec_tile(), pair.spec_tile());
                }
                assert(same_decomp(e, d, n));
            },
        }
    }
}

/// `d` is the standard decomposition made of the declared sets and the
/// concealed decomposition `c`.
pub open spec fn built_from(d: Decomposition, c: ConcealedDecompStd, hand: Hand) -> bool {
    d matches Decomposition::Standard { pair, sets } && pair.spec_tile() == c.pair_tile && sets@ == hand.melds@
        + c.melds@
}

/// Every decomposition of the hand into sets and a pair (declared sets
/// first, the concealed sets in some order), then seven pairs and thirteen
/// orphans where they apply. A standard decomposition with more than four
/// sets in all is left out.
pub fn decompose_hand(hand: &Hand) -> (r: Result<Vec<DecomposeResult>, SolverError>)
    requires
        counts_ok(hand.concealed),
    ensures
        r matches Ok(ds) && forall|i: int| 0 <= i < ds@.len() ==> {
            &&& decomposes(*hand, (#[trigger] ds@[i]).decompositions)
            &&& ds@[i].decompositions.wf()
            &&& ds@[i].wait_type == WaitType::Multiple
        },
        r matches Ok(ds) && covers(*hand, ds@),
        r matches Ok(ds) && listed_once(ds@),
{
    let counts = &hand.concealed;
    let declared = &hand.melds;
    let n_declared = declared.len();
    let standard = decompose_standard(counts);
    let seven_pairs = detect_seven_pairs(counts);
    let thirteen_orphans = detect_thirteen_orphans(counts);
    let mut results: Vec<DecomposeResult> = Vec::new();
    let ghost mut src: Seq<int> = Seq::empty();
    let mut i: usize = 0;
    while i < standard.len()
        invariant
            i <= standard@.len(),
            n_declared == hand.melds@.len(),
            declared == &hand.melds,
            forall|k: int| 0 <= k < standard@.len() ==> hand_sound(hand.concealed, (#[trigger] standard@[k]).pair_tile, standard@[k].melds@),
            forall|k: int| 0 <= k < results@.len() ==> {
                &&& decomposes(*hand, (#[trigger] results@[k]).decompositions)
                &&& results@[k].decompositions.wf()
                &&& results@[k].wait_type == WaitType::Multiple
            },
            forall|k: int|
                0 <= k < i && (#[trigger] standard@[k]).melds@.len() + n_declared <= 4 ==> exists|j: int|
                    0 <= j < results@.len() && built_from(#[trigger] results@[j].decompositions, standard@[k], *hand),
            src.len() == results@.len(),
            forall|j: int| 0 <= j < results@.len() ==> 0 <= #[trigger] src[j] < i,
            forall|a: int, b: int| 0 <= a < b < src.len() ==> #[trigger] src[a] < #[trigger] src[b],
            forall|j: int| 0 <= j < results@.len() ==> std_entry((#[trigger] results@[j]).decompositions, standard@[src[j]], hand.melds@),
        decreases standard@.len() - i,
    {
        let concealed = &standard[i];
        let ghost before = results@;
        if concealed.melds.len() <= 4 && n_declared <= 4 - concealed.melds.len() {
            let mut sets: Vec<Meld> = Vec::new();
            let mut k: usize = 0;
            while k < n_declared
                invariant
                    k <= n_declared,
                    n_declared == hand.melds@.len(),
                    declared == &hand.melds,
                    sets@ == hand.melds@.subrange(0, k as int),
                decreases n_declared - k,
            {
                sets.push(declared[k]);
                k = k + 1;
            }
            let mut k: usize = 0;
            while k < concealed.melds.len()
                invariant
                    k <= concealed.melds@.len(),
                    sets@ == hand.melds@ + concealed.melds@.subrange(0, k as int),
                decreases concealed.melds@.len() - k,
            {
                sets.push(concealed.melds[k]);
                k = k + 1;
            }
            proof {
                assert(sets@ == hand.melds@ + concealed.melds@);
                assert(sets@.subrange(0, n_declared as int) == hand.melds@);
                assert(sets@.skip(n_declared as int) == concealed.melds@);
            }
            let pair = Pair::new(concealed.pair_tile);
            results.push(DecomposeResult {
                decompositions: Decomposition::Standard { pair, sets },
                wait_type: stub_wait_type(),
            });
            proof {
                assert(built_from(results@[before.len() as int].decompositions, standard@[i as int], *hand));
                let src0 = src;
                src = src0.push(i as int);
                assert forall|j: int| 0 <= j < results@.len() implies std_entry((#[trigger] results@[j]).decompositions, standard@[src[j]], hand.melds@) by {
                    if j < before.len() {
                        assert(results@[j] == before[j]);
                        assert(src[j] == src0[j]);
                    }
                }
            }
        }
        proof {
            assert forall|k: int|
                0 <= k < i + 1 && (#[trigger] standard@[k]).melds@.len() + n_declared <= 4 implies exists|j: int|
                    0 <= j < results@.len() && built_from(#[trigger] results@[j].decompositions, standard@[k], *hand) by {
                if k < i {
                    let j = choose|j: int| 0 <= j < before.len() && built_from(#[trigger] before[j].decompositions, standard@[k], *hand);
                    assert(results@[j] == before[j]);
                } else {
                    assert(built_from(results@[before.len() as int].decompositions, standard@[i as int], *hand));
                }
            }
        }
        i = i + 1;
    }
    let ghost n_std = results@.len();
    let ghost std_results = results@;
    proof {
        reveal(crate::solver::decompose_standard::std_distinct);
        assert forall|a: int, b: int| 0 <= a < b < std_results.len() implies !same_listing(
            #[trigger] std_results[a].decompositions,
            #[trigger] std_results[b].decompositions,
        ) by {
            assert(src[a] < src[b]);
            let x = standard@[src[a]];
            let y = standard@[src[b]];
            assert(!(x.pair_tile == y.pair_tile && x.melds@ == y.melds@));
            crate::solver::decompose_standard::lemma_prefix_cancel(hand.melds@, x.melds@, y.melds@);
        }
    }
    if let Some(decomp) = seven_pairs {
        results.push(DecomposeResult { decompositions: decomp, wait_type: stub_wait_type() });
    }
    let ghost n_sp = results@.len();
    if let Some(decomp) = thirteen_orphans {
        results.push(DecomposeResult { decompositions: decomp, wait_type: stub_wait_type() });
    }
    proof {
        assert(forall|j: int| 0 <= j < n_std ==> #[trigger] results@[j] == std_results[j]);
        reveal(listed_once);
        assert forall|a: int, b: int| 0 <= a < b < results@.len() implies !same_listing(
            #[trigger] results@[a].decompositions,
            #[trigger] results@[b].decompositions,
        ) by {
            if b < n_std {
                assert(results@[a] == std_results[a] && results@[b] == std_results[b]);
            } else if a < n_std {
                assert(results@[a] == std_results[a]);
            } else {
                assert(a == n_std && b == n_std + 1);
            }
        }
    }
    proof {
        lemma_decompose_cover(*hand, standard@, std_results, results@, seven_pairs, thirteen_orphans, n_sp as int);
    }
    Ok(results)
}

// ── Scoring ──────────────────────────────────────────────────────

/// `r` is the scoring of the decomposition `d`: the best selections among
/// the fans that the rules find on its profile.
pub open spec fn scores(d: DecomposeResult, s: StaticFanContext, dy: DynamicFanContext, r: Seq<FanResult>) -> bool {
    exists|p: HandProfile, best: int, found: Seq<Seq<int>>|
        p.views(d.decompositions) && p.wf() && #[trigger] max_results(
            all_rules(p, s, dy, d.wait_type),
            r,
            best,
            found,
        )
}

/// Scores one decomposition: every best selection of the fans its rules
/// find.
pub fn score_decomposition(
    decomp: &DecomposeResult,
    static_ctx: &StaticFanContext,
    dynamic_ctx: &DynamicFanContext,
) -> (r: Vec<FanResult>)
    requires
        decomp.decompositions.wf(),
    ensures
        scores(*decomp, *static_ctx, *dynamic_ctx, r@),
        r@.len() >= 1,
        forall|i: int| 0 <= i < r@.len() ==> (#[trigger] r@[i]).fans@.len() <= 81,
{
    let profile = HandProfile::from_decomposition(&decomp.decompositions);
    let candidates = rules::check_profile(&profile, static_ctx, dynamic_ctx, decomp.wait_type);
    proof {
        rules::lemma_rules_len(81, profile, *static_ctx, *dynamic_ctx, decomp.wait_type);
    }
    let ghost cands = candidates@;
    let r = fan_solver::solve_max_score(candidates);
    proof {
        let (best, found) = choose|best: int, found: Seq<Seq<int>>| #[trigger] max_results(cands, r@, best, found);
        assert(max_results(cands, r@, best, found));
    }
    r
}

// ── The best results over all decompositions ─────────────────────

/// The fans of each result.
pub open spec fn fans_of(rs: Seq<FanResult>) -> Seq<Seq<FanInstance>> {
    rs.map_values(|r: FanResult| r.fans@)
}

/// The highest total among the results; -1 for none.
pub open spec fn top_total(rs: Seq<Seq<FanInstance>>) -> int
    decreases rs.len(),
{
    if rs.len() == 0 {
        -1
    } else {
        let t = top_total(rs.drop_last());
        if points_of(rs.last()) > t {
            points_of(rs.last())
        } else {
            t
        }
    }
}

/// The results whose total is `v`, in order.
pub open spec fn with_total(rs: Seq<Seq<FanInstance>>, v: int) -> Seq<Seq<FanInstance>>
    decreases rs.len(),
{
    if rs.len() == 0 {
        Seq::empty()
    } else {
        with_total(rs.drop_last(), v) + if points_of(rs.last()) == v {
            seq![rs.last()]
        } else {
            Seq::empty()
        }
    }
}

/// Every result kept has the highest total, and no result has more.
pub proof fn lemma_kept_highest(rs: Seq<Seq<FanInstance>>)
    ensures
        forall|i: int| 0 <= i < rs.len() ==> points_of(#[trigger] rs[i]) <= top_total(rs),
        forall|i: int|
            0 <= i < with_total(rs, top_total(rs)).len() ==> points_of(#[trigger] with_total(rs, top_total(rs))[i])
                == top_total(rs),
        rs.len() > 0 ==> with_total(rs, top_total(rs)).len() > 0,
    decreases rs.len(),
{
    lemma_with_total_all(rs, top_total(rs));
    if rs.len() > 0 {
        let prev = rs.drop_last();
        lemma_kept_highest(prev);
        assert forall|i: int| 0 <= i < rs.len() implies points_of(#[trigger] rs[i]) <= top_total(rs) by {
            if i < prev.len() {
                assert(rs[i] == prev[i]);
            }
        }
        lemma_points_nonneg(rs.last());
        if points_of(rs.last()) < top_total(rs) {
            assert(top_total(rs) == top_total(prev));
            assert(with_total(rs, top_total(rs)) == with_total(prev, top_total(prev)));
            assert(prev.len() > 0);
        } else {
            assert(with_total(rs, top_total(rs)).len() == with_total(prev, top_total(rs)).len() + 1);
        }
    }
}

/// The results kept for a total all have that total.
proof fn lemma_with_total_all(rs: Seq<Seq<FanInstance>>, v: int)
    ensures
        forall|i: int| 0 <= i < with_total(rs, v).len() ==> points_of(#[trigger] with_total(rs, v)[i]) == v,
    decreases rs.len(),
{
    if rs.len() > 0 {
        let prev = rs.drop_last();
        lemma_with_total_all(prev, v);
        let w = with_total(rs, v);
        let wp = with_total(prev, v);
        assert forall|i: int| 0 <= i < w.len() implies points_of(#[trigger] w[i]) == v by {
            if i < wp.len() {
                assert(w[i] == wp[i]);
            }
        }
    }
}

/// Results of a lower total than `v` drop out.
proof fn lemma_with_total_below(rs: Seq<Seq<FanInstance>>, v: int)
    requires
        top_total(rs) < v,
    ensures
        with_total(rs, v) == Seq::<Seq<FanInstance>>::empty(),
    decreases rs.len(),
{
    if rs.len() > 0 {
        lemma_with_total_below(rs.drop_last(), v);
    }
}

fn copy_fans(v: &Vec<FanInstance>) -> (r: Vec<FanInstance>)
    ensures
        r@ == v@,
{
    let mut r: Vec<FanInstance> = Vec::new();
    let mut i: usize = 0;
    while i < v.len()
        invariant
            i <= v@.len(),
            r@ == v@.subrange(0, i as int),
        decreases v@.len() - i,
    {
        r.push(v[i]);
        i = i + 1;
    }
    assert(r@ == v@);
    r
}

/// The results of the highest total, in order; none for no results.
pub fn keep_highest_score(results: Vec<FanResult>) -> (r: Vec<FanResult>)
    ensures
        fans_of(r@) == with_total(fans_of(results@), top_total(fans_of(results@))),
{
    let ghost all = fans_of(results@);
    let mut kept: Vec<FanResult> = Vec::new();
    let mut best: u128 = 0;
    let mut i: usize = 0;
    while i < results.len()
        invariant
            i <= results@.len(),
            all == fans_of(results@),
            i == 0 ==> kept@.len() == 0,
            i > 0 ==> best as int == top_total(all.take(i as int)),
            fans_of(kept@) == with_total(all.take(i as int), top_total(all.take(i as int))),
        decreases results@.len() - i,
    {
        let candidate = &results[i];
        let score = candidate.points_total();
        let ghost prev = all.take(i as int);
        let ghost next = all.take(i as int + 1);
        proof {
            assert(next.drop_last() == prev);
            assert(next.last() == candidate.fans@);
        }
        let copy = FanResult { fans: copy_fans(&candidate.fans) };
        proof {
            lemma_points_nonneg(candidate.fans@);
            assert(points_of(next.last()) == score as int);
            if i > 0 {
                assert(top_total(next) == if score as int > best as int { score as int } else { best as int });
            } else {
                assert(top_total(next) == score as int);
            }
            let t = top_total(next);
            assert(with_total(next, t) == with_total(prev, t) + if score as int == t {
                seq![candidate.fans@]
            } else {
                Seq::<Seq<FanInstance>>::empty()
            });
        }
        if i == 0 || score > best {
            proof {
                if i > 0 {
                    lemma_with_total_below(prev, score as int);
                } else {
                    assert(prev.len() == 0);
                }
            }
            kept = Vec::new();
            kept.push(copy);
            best = score;
            proof {
                assert(fans_of(kept@) =~= seq![candidate.fans@]);
            }
        } else if score == best {
            let ghost before = kept@;
            kept.push(copy);
            proof {
                assert(fans_of(kept@) =~= fans_of(before).push(candidate.fans@));
            }
        }
        i = i + 1;
    }
    proof {
        assert(all.take(i as int) == all);
    }
    kept
}

/// Everything the scoring of the hand's decompositions gives, in order; every
/// decomposition of the hand is among those scored.
pub open spec fn all_scored(hand: Hand, s: StaticFanContext, d: DynamicFanContext, all: Seq<FanResult>) -> bool {
    exists|ds: Seq<DecomposeResult>, parts: Seq<Seq<FanResult>>|
        #[trigger] scored_parts(hand, s, d, ds, parts) && covers(hand, ds) && all == concat_all(parts)
}

/// Each part is the scoring of one decomposition of the hand.
pub open spec fn scored_parts(
    hand: Hand,
    s: StaticFanContext,
    d: DynamicFanContext,
    ds: Seq<DecomposeResult>,
    parts: Seq<Seq<FanResult>>,
) -> bool {
    &&& ds.len() == parts.len()
    &&& forall|i: int| 0 <= i < ds.len() ==> decomposes(hand, (#[trigger] ds[i]).decompositions)
    &&& forall|i: int| 0 <= i < ds.len() ==> scores(ds[i], s, d, #[trigger] parts[i])
}

/// The parts one after another.
pub open spec fn concat_all(parts: Seq<Seq<FanResult>>) -> Seq<FanResult>
    decreases parts.len(),
{
    if parts.len() == 0 {
        Seq::empty()
    } else {
        concat_all(parts.drop_last()) + parts.last()
    }
}

/// Some result is kept exactly where the hand has a decomposition.
proof fn lemma_some_kept(hand: Hand, ds: Seq<DecomposeResult>, all: Seq<FanResult>)
    requires
        covers(hand, ds),
        forall|k: int| 0 <= k < ds.len() ==> decomposes(hand, (#[trigger] ds[k]).decompositions),
        all.len() == 0 <==> ds.len() == 0,
    ensures
        with_total(fans_of(all), top_total(fans_of(all))).len() > 0 <==> exists|d: Decomposition|
            #[trigger] decomposes(hand, d),
{
    reveal(covers);
    lemma_kept_highest(fans_of(all));
    assert(fans_of(all).len() == all.len());
    if ds.len() > 0 {
        assert(decomposes(hand, ds[0].decompositions));
    } else {
        assert(fans_of(all) == Seq::<Seq<FanInstance>>::empty());
        assert forall|d: Decomposition| !decomposes(hand, d) by {
            if decomposes(hand, d) {
                assert(covers(hand, ds));
            }
        }
    }
}

/// The highest-scoring results for a hand, over all its decompositions:
/// every decomposition is scored, and the results of the highest total are
/// kept, in order.
pub fn solve_fan(
    hand: &Hand,
    static_ctx: &StaticFanContext,
    dynamic_ctx: &DynamicFanContext,
) -> (r: Result<Vec<FanResult>, SolverError>)
    requires
        counts_ok(hand.concealed),
    ensures
        r matches Ok(v) && exists|all: Seq<FanResult>|
            #[trigger] all_scored(*hand, *static_ctx, *dynamic_ctx, all) && fans_of(v@) == with_total(
                fans_of(all),
                top_total(fans_of(all)),
            ),
        r matches Ok(v) && (v@.len() > 0 <==> exists|d: Decomposition| #[trigger] decomposes(*hand, d)),
{
    let decomps = match decompose_hand(hand) {
        Ok(ds) => ds,
        Err(e) => return Err(e),
    };
    let mut all: Vec<FanResult> = Vec::new();
    let ghost mut ds_seen: Seq<DecomposeResult> = Seq::empty();
    let ghost mut parts: Seq<Seq<FanResult>> = Seq::empty();
    let mut i: usize = 0;
    while i < decomps.len()
        invariant
            i <= decomps@.len(),
            counts_ok(hand.concealed),
            forall|k: int| 0 <= k < decomps@.len() ==> {
                &&& decomposes(*hand, (#[trigger] decomps@[k]).decompositions)
                &&& decomps@[k].decompositions.wf()
            },
            scored_parts(*hand, *static_ctx, *dynamic_ctx, ds_seen, parts),
            ds_seen == decomps@.take(i as int),
            all@ == concat_all(parts),
            all@.len() == 0 <==> i == 0,
        decreases decomps@.len() - i,
    {
        let mut rs = score_decomposition(&decomps[i], static_ctx, dynamic_ctx);
        let ghost part = rs@;
        let ghost before = all@;
        all.append(&mut rs);
        proof {
            let ds2 = ds_seen.push(decomps@[i as int]);
            let parts2 = parts.push(part);
            assert(parts2.drop_last() == parts);
            assert(concat_all(parts2) == concat_all(parts) + part);
            assert forall|k: int| 0 <= k < ds2.len() implies decomposes(*hand, (#[trigger] ds2[k]).decompositions) by {
                if k < ds_seen.len() {
                    assert(ds2[k] == ds_seen[k]);
                }
            }
            assert forall|k: int| 0 <= k < ds2.len() implies scores(ds2[k], *static_ctx, *dynamic_ctx, #[trigger] parts2[k]) by {
                if k < ds_seen.len() {
                    assert(ds2[k] == ds_seen[k]);
                    assert(parts2[k] == parts[k]);
                }
            }
            assert(ds2 == decomps@.take(i as int + 1));
            ds_seen = ds2;
            parts = parts2;
        }
        i = i + 1;
    }
    proof {
        assert(ds_seen == decomps@);
    }
    let ghost all_seq = all@;
    let kept = keep_highest_score(all);
    proof {
        assert(all_scored(*hand, *static_ctx, *dynamic_ctx, all_seq));
        assert(fans_of(kept@).len() == kept@.len());
        lemma_some_kept(*hand, decomps@, all_seq);
    }
    Ok(kept)
}

/// Whether the hand has a decomposition: standard, seven pairs or thirteen
/// orphans.
pub fn is_hu(hand: &Hand) -> (r: Result<bool, SolverError>)
    requires
        counts_ok(hand.concealed),
    ensures
        r matches Ok(b) && (b <==> exists|d: Decomposition| #[trigger] decomposes(*hand, d)),
{
    match decompose_hand(hand) {
        Ok(ds) => {
            if ds.len() > 0 {
                proof {
                    assert(decomposes(*hand, ds@[0].decompositions));
                }
                Ok(true)
            } else {
                proof {
                    reveal(covers);
                    assert forall|d: Decomposition| !decomposes(*hand, d) by {
                        if decomposes(*hand, d) {
                            assert(covers(*hand, ds@));
                        }
                    }
                }
                Ok(false)
            }
        },
        Err(_) => Ok(false),
    }
}

} // verus!
