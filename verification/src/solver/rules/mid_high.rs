//! The 32, 24 and 16 point fans.

use vstd::prelude::*;

use super::helpers::{
    all_in_range, all_melds, all_pair_tiles, all_pairs_pass, any_meld, any_triple, bit_exec,
    count_melds, emit, fan_if, find_triple, four_sets, four_sets_exec, in_range, QuadTest,
    TileTest, TripleTest, triple_found,
};
use crate::solver::types::FanType;
use crate::solver::view::{
    bit_value, is_even_rank, is_honor_tile, is_terminal_tile, spec_is_even_rank, spec_is_honor,
    spec_is_terminal, HandProfile, MeldTest, ProfileKind,
};
use crate::solver::{DynamicFanContext, FanInstance, StaticFanContext, WaitType};
use crate::solver::decomposition::Decomposition;
use crate::solver::view::{lemma_chow_start, spec_rank};
use crate::structs::Meld;

verus! {

// ── 32 points ────────────────────────────────────────────────────

/// Four chows of one suit, each shifted up by one rank or each by two.
pub open spec fn four_shifted_chows_fires(p: HandProfile) -> bool {
    p.kind == ProfileKind::Standard && four_sets(p, QuadTest::FourShiftedChows)
}

pub fn four_shifted_chows(
    profile: &HandProfile,
    _static_ctx: &StaticFanContext,
    _dynamic_ctx: &DynamicFanContext,
    _wait_type: WaitType,
) -> (r: Vec<FanInstance>)
    requires
        profile.wf(),
    ensures
        r@ == emit(four_shifted_chows_fires(*profile), FanType::FourShiftedChows, 15, false),
{
    let fires = profile.is_standard() && four_sets_exec(profile, QuadTest::FourShiftedChows);
    fan_if(fires, FanType::FourShiftedChows, 15, false)
}

/// Three kongs or more.
pub open spec fn three_kongs_fires(p: HandProfile) -> bool {
    p.n_kongs >= 3
}

pub fn three_kongs(
    profile: &HandProfile,
    _static_ctx: &StaticFanContext,
    _dynamic_ctx: &DynamicFanContext,
    _wait_type: WaitType,
) -> (r: Vec<FanInstance>)
    requires
        profile.wf(),
    ensures
        r@ == emit(three_kongs_fires(*profile), FanType::ThreeKongs, 15, false),
{
    fan_if(profile.n_kongs >= 3, FanType::ThreeKongs, 15, false)
}

/// Every set is named by a terminal or an honor, and so is the pair.
pub open spec fn all_terminals_and_honors_fires(p: HandProfile) -> bool {
    &&& p.kind == ProfileKind::Standard
    &&& p.all_pass(MeldTest::TerminalOrHonorTile)
    &&& spec_is_terminal(p.pair.tile) || spec_is_honor(p.pair.tile)
}

pub fn all_terminals_and_honors(
    profile: &HandProfile,
    _static_ctx: &StaticFanContext,
    _dynamic_ctx: &DynamicFanContext,
    _wait_type: WaitType,
) -> (r: Vec<FanInstance>)
    requires
        profile.wf(),
    ensures
        r@ == emit(
            all_terminals_and_honors_fires(*profile),
            FanType::AllTerminalsAndHonors,
            15,
            true,
        ),
{
    let fires = profile.is_standard() && all_melds(profile, MeldTest::TerminalOrHonorTile) && (
    is_terminal_tile(profile.pair.tile) || is_honor_tile(profile.pair.tile));
    fan_if(fires, FanType::AllTerminalsAndHonors, 15, true)
}

// ── 24 points ────────────────────────────────────────────────────

/// Seven pairs.
pub open spec fn seven_pairs_fires(p: HandProfile) -> bool {
    p.kind == ProfileKind::SevenPairs
}

pub fn seven_pairs(
    profile: &HandProfile,
    _static_ctx: &StaticFanContext,
    _dynamic_ctx: &DynamicFanContext,
    _wait_type: WaitType,
) -> (r: Vec<FanInstance>)
    requires
        profile.wf(),
    ensures
        r@ == emit(seven_pairs_fires(*profile), FanType::SevenPairs, 0, true),
{
    fan_if(profile.kind == ProfileKind::SevenPairs, FanType::SevenPairs, 0, true)
}

/// Knitted hands are not decomposed yet, so this fan is never found.
pub fn greater_honors_and_knitted_tiles(
    _profile: &HandProfile,
    _static_ctx: &StaticFanContext,
    _dynamic_ctx: &DynamicFanContext,
    _wait_type: WaitType,
) -> (r: Vec<FanInstance>)
    ensures
        r@ == emit(false, FanType::GreaterHonorsAndKnittedTiles, 0, true),
{
    fan_if(false, FanType::GreaterHonorsAndKnittedTiles, 0, true)
}

/// Pungs or kongs of even ranks only, and an even pair.
pub open spec fn all_even_pungs_fires(p: HandProfile) -> bool {
    &&& p.kind == ProfileKind::Standard
    &&& p.all_pass(MeldTest::EvenPung)
    &&& spec_is_even_rank(p.pair.tile)
}

pub fn all_even_pungs(
    profile: &HandProfile,
    _static_ctx: &StaticFanContext,
    _dynamic_ctx: &DynamicFanContext,
    _wait_type: WaitType,
) -> (r: Vec<FanInstance>)
    requires
        profile.wf(),
    ensures
        r@ == emit(all_even_pungs_fires(*profile), FanType::AllEvenPungs, 15, true),
{
    let fires = profile.is_standard() && all_melds(profile, MeldTest::EvenPung) && is_even_rank(
        profile.pair.tile,
    );
    fan_if(fires, FanType::AllEvenPungs, 15, true)
}

/// Every set and the pair in the suit of the first set.
pub open spec fn full_flush_fires(p: HandProfile) -> bool {
    let s = p.meld(0).suit;
    &&& p.kind == ProfileKind::Standard
    &&& s < 3
    &&& p.all_pass(MeldTest::InSuit(s))
    &&& p.pair.suit == s
}

pub fn full_flush(
    profile: &HandProfile,
    _static_ctx: &StaticFanContext,
    _dynamic_ctx: &DynamicFanContext,
    _wait_type: WaitType,
) -> (r: Vec<FanInstance>)
    requires
        profile.wf(),
    ensures
        r@ == emit(full_flush_fires(*profile), FanType::FullFlush, 15, true),
{
    let s = profile.melds[0].suit;
    let fires = profile.is_standard() && s < 3 && all_melds(profile, MeldTest::InSuit(s))
        && profile.pair.suit == s;
    fan_if(fires, FanType::FullFlush, 15, true)
}

/// Three identical chows.
pub open spec fn pure_triple_chow_fires(p: HandProfile) -> bool {
    p.kind == ProfileKind::Standard && any_triple(p, TripleTest::PureTripleChow)
}

pub fn pure_triple_chow(
    profile: &HandProfile,
    _static_ctx: &StaticFanContext,
    _dynamic_ctx: &DynamicFanContext,
    _wait_type: WaitType,
) -> (r: Vec<FanInstance>)
    requires
        profile.wf(),
    ensures
        r@ == emit(pure_triple_chow_fires(*profile), FanType::PureTripleChow, 15, false),
{
    let fires = profile.is_standard() && find_triple(profile, TripleTest::PureTripleChow).is_some();
    fan_if(fires, FanType::PureTripleChow, 15, false)
}

/// Three pungs or kongs of one suit, each one rank above the last.
pub open spec fn pure_shifted_pungs_fires(p: HandProfile) -> bool {
    p.kind == ProfileKind::Standard && any_triple(p, TripleTest::PureShiftedPungs)
}

pub fn pure_shifted_pungs(
    profile: &HandProfile,
    _static_ctx: &StaticFanContext,
    _dynamic_ctx: &DynamicFanContext,
    _wait_type: WaitType,
) -> (r: Vec<FanInstance>)
    requires
        profile.wf(),
    ensures
        r@ == emit(pure_shifted_pungs_fires(*profile), FanType::PureShiftedPungs, 15, false),
{
    let fires = profile.is_standard() && find_triple(profile, TripleTest::PureShiftedPungs).is_some();
    fan_if(fires, FanType::PureShiftedPungs, 15, false)
}

/// The sets a standard hand uses for a fan over the whole hand.
pub open spec fn whole_hand_mask(p: HandProfile) -> int {
    if p.kind == ProfileKind::Standard {
        15
    } else {
        0
    }
}

/// Every tile ranks from `lo` to `hi`: in a standard hand by the naming
/// tile of each set and the pair, in seven pairs by every pair.
pub open spec fn tiles_in_range(p: HandProfile, lo: u8, hi: u8) -> bool {
    match p.kind {
        ProfileKind::Standard => in_range(p, lo, hi),
        ProfileKind::SevenPairs => all_pairs_pass(p, TileTest::RankIn(lo, hi)),
        ProfileKind::ThirteenOrphans => false,
    }
}

fn tiles_in_range_exec(p: &HandProfile, lo: u8, hi: u8) -> (r: bool)
    requires
        p.wf(),
    ensures
        r == tiles_in_range(*p, lo, hi),
{
    match p.kind {
        ProfileKind::Standard => all_in_range(p, lo, hi),
        ProfileKind::SevenPairs => all_pair_tiles(p, TileTest::RankIn(lo, hi)),
        ProfileKind::ThirteenOrphans => false,
    }
}

fn whole_hand_mask_exec(p: &HandProfile) -> (r: u64)
    ensures
        r == whole_hand_mask(*p),
{
    if p.kind == ProfileKind::Standard {
        15
    } else {
        0
    }
}

/// Ranks 7 to 9 only.
pub fn upper_tiles(
    profile: &HandProfile,
    _static_ctx: &StaticFanContext,
    _dynamic_ctx: &DynamicFanContext,
    _wait_type: WaitType,
) -> (r: Vec<FanInstance>)
    requires
        profile.wf(),
    ensures
        r@ == emit(tiles_in_range(*profile, 7, 9), FanType::UpperTiles, whole_hand_mask(*profile), true),
{
    fan_if(tiles_in_range_exec(profile, 7, 9), FanType::UpperTiles, whole_hand_mask_exec(profile), true)
}

/// Ranks 4 to 6 only.
pub fn middle_tiles(
    profile: &HandProfile,
    _static_ctx: &StaticFanContext,
    _dynamic_ctx: &DynamicFanContext,
    _wait_type: WaitType,
) -> (r: Vec<FanInstance>)
    requires
        profile.wf(),
    ensures
        r@ == emit(tiles_in_range(*profile, 4, 6), FanType::MiddleTiles, whole_hand_mask(*profile), true),
{
    fan_if(tiles_in_range_exec(profile, 4, 6), FanType::MiddleTiles, whole_hand_mask_exec(profile), true)
}

/// Ranks 1 to 3 only.
pub fn lower_tiles(
    profile: &HandProfile,
    _static_ctx: &StaticFanContext,
    _dynamic_ctx: &DynamicFanContext,
    _wait_type: WaitType,
) -> (r: Vec<FanInstance>)
    requires
        profile.wf(),
    ensures
        r@ == emit(tiles_in_range(*profile, 1, 3), FanType::LowerTiles, whole_hand_mask(*profile), true),
{
    fan_if(tiles_in_range_exec(profile, 1, 3), FanType::LowerTiles, whole_hand_mask_exec(profile), true)
}

// ── 16 points ────────────────────────────────────────────────────

/// Chows 1-2-3, 4-5-6 and 7-8-9 of one suit.
pub open spec fn pure_straight_fires(p: HandProfile) -> bool {
    p.kind == ProfileKind::Standard && any_triple(p, TripleTest::PureStraight)
}

/// The three chows of the first straight found.
pub open spec fn pure_straight_mask(p: HandProfile) -> int {
    match triple_found(p, TripleTest::PureStraight) {
        Some((a, b, c)) => bit_value(a) + bit_value(b) + bit_value(c),
        None => 0,
    }
}

pub fn pure_straight(
    profile: &HandProfile,
    _static_ctx: &StaticFanContext,
    _dynamic_ctx: &DynamicFanContext,
    _wait_type: WaitType,
) -> (r: Vec<FanInstance>)
    requires
        profile.wf(),
    ensures
        r@ == emit(
            pure_straight_fires(*profile),
            FanType::PureStraight,
            pure_straight_mask(*profile),
            false,
        ),
{
    if !profile.is_standard() {
        return fan_if(false, FanType::PureStraight, 0, false);
    }
    match find_triple(profile, TripleTest::PureStraight) {
        Some((a, b, c)) => {
            let mask = bit_exec(a) + bit_exec(b) + bit_exec(c);
            fan_if(true, FanType::PureStraight, mask, false)
        },
        None => fan_if(false, FanType::PureStraight, 0, false),
    }
}

/// The suit of the first set after the first that lies in another suit
/// than the first.
pub open spec fn second_suit(p: HandProfile) -> Option<u8> {
    let s = p.meld(0).suit;
    if p.meld(1).suit != s {
        Some(p.meld(1).suit)
    } else if p.meld(2).suit != s {
        Some(p.meld(2).suit)
    } else if p.meld(3).suit != s {
        Some(p.meld(3).suit)
    } else {
        None
    }
}

/// Two suits each with a chow 1-2-3 and a chow 7-8-9, and a pair of fives in
/// the third suit.
pub open spec fn three_suited_terminal_chows_fires(p: HandProfile) -> bool {
    let s0 = p.meld(0).suit;
    &&& p.kind == ProfileKind::Standard
    &&& p.n_sets == 4
    &&& !p.pair.is_honor && p.pair.rank == 5
    &&& p.all_pass(MeldTest::Chow)
    &&& match second_suit(p) {
        Some(s1) => {
            &&& forall|i: int| 0 <= i < 4 ==> (#[trigger] p.meld(i)).suit == s0 || p.meld(i).suit == s1
            &&& p.any_pass(MeldTest::ChowOf(s0, 1)) && p.any_pass(MeldTest::ChowOf(s0, 7))
            &&& p.any_pass(MeldTest::ChowOf(s1, 1)) && p.any_pass(MeldTest::ChowOf(s1, 7))
            &&& p.pair.suit != s0 && p.pair.suit != s1
        },
        None => false,
    }
}

pub fn three_suited_terminal_chows(
    profile: &HandProfile,
    _static_ctx: &StaticFanContext,
    _dynamic_ctx: &DynamicFanContext,
    _wait_type: WaitType,
) -> (r: Vec<FanInstance>)
    requires
        profile.wf(),
    ensures
        r@ == emit(
            three_suited_terminal_chows_fires(*profile),
            FanType::ThreeSuitedTerminalChows,
            15,
            true,
        ),
{
    let p = profile;
    if !(p.is_standard() && p.n_sets == 4 && !p.pair.is_honor && p.pair.rank == 5 && all_melds(
        p,
        MeldTest::Chow,
    )) {
        return fan_if(false, FanType::ThreeSuitedTerminalChows, 15, true);
    }
    let s0 = p.melds[0].suit;
    let s1 = if p.melds[1].suit != s0 {
        p.melds[1].suit
    } else if p.melds[2].suit != s0 {
        p.melds[2].suit
    } else if p.melds[3].suit != s0 {
        p.melds[3].suit
    } else {
        return fan_if(false, FanType::ThreeSuitedTerminalChows, 15, true);
    };
    let two_suits = (p.melds[0].suit == s0 || p.melds[0].suit == s1) && (p.melds[1].suit == s0
        || p.melds[1].suit == s1) && (p.melds[2].suit == s0 || p.melds[2].suit == s1) && (
    p.melds[3].suit == s0 || p.melds[3].suit == s1);
    proof {
        if !two_suits {
            assert(!(p.meld(0).suit == s0 || p.meld(0).suit == s1) || !(p.meld(1).suit == s0
                || p.meld(1).suit == s1) || !(p.meld(2).suit == s0 || p.meld(2).suit == s1) || !(
            p.meld(3).suit == s0 || p.meld(3).suit == s1));
        } else {
            assert forall|i: int| 0 <= i < 4 implies (#[trigger] p.meld(i)).suit == s0
                || p.meld(i).suit == s1 by {
                assert(i == 0 || i == 1 || i == 2 || i == 3);
            }
        }
    }
    let fires = two_suits && any_meld(p, MeldTest::ChowOf(s0, 1)) && any_meld(
        p,
        MeldTest::ChowOf(s0, 7),
    ) && any_meld(p, MeldTest::ChowOf(s1, 1)) && any_meld(p, MeldTest::ChowOf(s1, 7))
        && p.pair.suit != s0 && p.pair.suit != s1;
    fan_if(fires, FanType::ThreeSuitedTerminalChows, 15, true)
}

/// Three chows of one suit, each shifted up by one rank or each by two.
pub open spec fn pure_shifted_chows_fires(p: HandProfile) -> bool {
    p.kind == ProfileKind::Standard && any_triple(p, TripleTest::PureShiftedChows)
}

pub fn pure_shifted_chows(
    profile: &HandProfile,
    _static_ctx: &StaticFanContext,
    _dynamic_ctx: &DynamicFanContext,
    _wait_type: WaitType,
) -> (r: Vec<FanInstance>)
    requires
        profile.wf(),
    ensures
        r@ == emit(pure_shifted_chows_fires(*profile), FanType::PureShiftedChows, 15, false),
{
    let fires = profile.is_standard() && find_triple(profile, TripleTest::PureShiftedChows).is_some();
    fan_if(fires, FanType::PureShiftedChows, 15, false)
}

/// A five in every set and a pair of fives.
pub open spec fn all_fives_fires(p: HandProfile) -> bool {
    p.kind == ProfileKind::Standard && p.all_pass(MeldTest::Five) && p.pair.rank == 5
}

pub fn all_fives(
    profile: &HandProfile,
    _static_ctx: &StaticFanContext,
    _dynamic_ctx: &DynamicFanContext,
    _wait_type: WaitType,
) -> (r: Vec<FanInstance>)
    requires
        profile.wf(),
    ensures
        r@ == emit(all_fives_fires(*profile), FanType::AllFives, 15, true),
{
    let fires = profile.is_standard() && all_melds(profile, MeldTest::Five) && profile.pair.rank
        == 5;
    fan_if(fires, FanType::AllFives, 15, true)
}

/// Three pungs or kongs of one rank in the three suits.
pub open spec fn triple_pung_fires(p: HandProfile) -> bool {
    p.kind == ProfileKind::Standard && any_triple(p, TripleTest::TriplePung)
}

pub fn triple_pung(
    profile: &HandProfile,
    _static_ctx: &StaticFanContext,
    _dynamic_ctx: &DynamicFanContext,
    _wait_type: WaitType,
) -> (r: Vec<FanInstance>)
    requires
        profile.wf(),
    ensures
        r@ == emit(triple_pung_fires(*profile), FanType::TriplePung, 15, false),
{
    let fires = profile.is_standard() && find_triple(profile, TripleTest::TriplePung).is_some();
    fan_if(fires, FanType::TriplePung, 15, false)
}

/// Three concealed pungs or kongs.
pub open spec fn three_concealed_pungs_fires(p: HandProfile) -> bool {
    p.count_pass(MeldTest::ConcealedPungOrKong) >= 3
}

pub fn three_concealed_pungs(
    profile: &HandProfile,
    _static_ctx: &StaticFanContext,
    _dynamic_ctx: &DynamicFanContext,
    _wait_type: WaitType,
) -> (r: Vec<FanInstance>)
    requires
        profile.wf(),
    ensures
        r@ == emit(three_concealed_pungs_fires(*profile), FanType::ThreeConcealedPungs, 15, false),
{
    let fires = count_melds(profile, MeldTest::ConcealedPungOrKong) >= 3;
    fan_if(fires, FanType::ThreeConcealedPungs, 15, false)
}


/// Every tile of every set of the standard decomposition `d` ranks from `lo`
/// to `top`, and the pair ranks from `lo` to `hi`.
pub open spec fn tiles_rank_within(d: Decomposition, lo: int, hi: int, top: int) -> bool {
    match d {
        Decomposition::Standard { pair, sets } => {
            &&& forall|i: int, k: int|
                0 <= i < sets@.len() && 0 <= k < sets@[i].spec_tiles().len() ==> lo <= spec_rank(
                    #[trigger] sets@[i].spec_tiles()[k],
                ) <= top
            &&& lo <= spec_rank(pair.spec_tile()) <= hi
        },
        _ => false,
    }
}

/// The first tile of every set of the standard decomposition `d` ranks
/// from `lo` to `hi`.
pub open spec fn first_tiles_within(d: Decomposition, lo: int, hi: int) -> bool {
    match d {
        Decomposition::Standard { pair, sets } => forall|i: int|
            0 <= i < sets@.len() ==> lo <= spec_rank((#[trigger] sets@[i]).spec_tiles()[0]) <= hi,
        _ => false,
    }
}

/// A set's first tile names it, and its other tiles rank at most two above.
proof fn lemma_set_tiles(m: Meld)
    requires
        m is Chow ==> crate::structs::sets::is_chow_start(m.spec_tile()),
    ensures
        m.spec_tiles()[0] == m.spec_tile(),
        forall|k: int| 0 <= k < m.spec_tiles().len() ==> spec_rank(m.spec_tile()) <= spec_rank(
            #[trigger] m.spec_tiles()[k],
        ) <= spec_rank(m.spec_tile()) + if m is Chow { 2int } else { 0int },
        m is Chow ==> 1 <= spec_rank(m.spec_tile()) <= 7,
{
    if m is Chow {
        lemma_chow_start(m.spec_tile());
    }
}

/// Upper, Middle and Lower Tiles by the tiles of a standard hand: where every
/// tile of every set and of the pair ranks from `lo` to `hi`, the range
/// holds; where the range holds, the pair and the first tile of every set
/// rank from `lo` to `hi`, and every tile of a set at most two above `hi`
/// (a chow is judged by its lowest tile).
pub proof fn lemma_range_by_tiles(p: HandProfile, d: Decomposition, lo: u8, hi: u8)
    requires
        p.views(d),
        p.wf(),
        d is Standard,
        1 <= lo <= hi,
    ensures
        tiles_rank_within(d, lo as int, hi as int, hi as int) ==> tiles_in_range(p, lo, hi),
        tiles_in_range(p, lo, hi) ==> tiles_rank_within(d, lo as int, hi as int, hi + 2) && first_tiles_within(
            d,
            lo as int,
            hi as int,
        ),
{
    match d {
        Decomposition::Standard { pair, sets } => {
            assert forall|i: int| 0 <= i < sets@.len() implies {
                &&& p.meld(i).rank == spec_rank(sets@[i].spec_tile())
                &&& (sets@[i] is Chow ==> crate::structs::sets::is_chow_start(sets@[i].spec_tile()))
            } by {
                assert(p.meld(i).describes(sets@[i]));
            }
            if tiles_rank_within(d, lo as int, hi as int, hi as int) {
                assert forall|i: int| 0 <= i < p.n_sets implies crate::solver::view::meld_passes(
                    MeldTest::RankIn(lo, hi),
                    #[trigger] p.meld(i),
                ) by {
                    lemma_set_tiles(sets@[i]);
                    assert(lo <= spec_rank(sets@[i].spec_tiles()[0]) <= hi);
                }
            }
            if tiles_in_range(p, lo, hi) {
                assert forall|i: int, k: int|
                    0 <= i < sets@.len() && 0 <= k < sets@[i].spec_tiles().len() implies lo <= spec_rank(
                    #[trigger] sets@[i].spec_tiles()[k],
                ) <= hi + 2 by {
                    lemma_set_tiles(sets@[i]);
                    assert(crate::solver::view::meld_passes(MeldTest::RankIn(lo, hi), p.meld(i)));
                }
                assert forall|i: int| 0 <= i < sets@.len() implies lo <= spec_rank(
                    (#[trigger] sets@[i]).spec_tiles()[0],
                ) <= hi by {
                    lemma_set_tiles(sets@[i]);
                    assert(crate::solver::view::meld_passes(MeldTest::RankIn(lo, hi), p.meld(i)));
                }
            }
        },
        _ => {},
    }
}

/// Upper Tiles on a standard hand holds exactly where every tile of every
/// set and of the pair ranks from 7 to 9.
pub proof fn lemma_upper_tiles_by_tiles(p: HandProfile, d: Decomposition)
    requires
        p.views(d),
        p.wf(),
        d is Standard,
    ensures
        tiles_in_range(p, 7, 9) <==> tiles_rank_within(d, 7, 9, 9),
{
    lemma_range_by_tiles(p, d, 7, 9);
    match d {
        Decomposition::Standard { pair, sets } => {
            if tiles_in_range(p, 7, 9) {
                assert forall|i: int, k: int|
                    0 <= i < sets@.len() && 0 <= k < sets@[i].spec_tiles().len() implies 7 <= spec_rank(
                    #[trigger] sets@[i].spec_tiles()[k],
                ) <= 9 by {
                    assert(p.meld(i).describes(sets@[i]));
                    lemma_set_tiles(sets@[i]);
                }
            }
        },
        _ => {},
    }
}

} // verus!
