//! The 12, 8 and 6 point fans.

use vstd::prelude::*;

use super::helpers::{
    all_in_range, all_melds, any_meld, any_triple, count_melds, count_suits_used, emit, fan_if,
    find_triple, in_range, suit_in_use, suit_used, suits_used, TripleTest, all_pair_tiles,
    all_pairs_pass, TileTest,
};
use crate::solver::types::FanType;
use crate::solver::view::{
    is_reversible_tile, spec_is_reversible, HandProfile, MeldTest, ProfileKind,
};
use crate::solver::{DynamicFanContext, FanInstance, StaticFanContext, WaitType, WinMethod};

verus! {

// ── 12 points ────────────────────────────────────────────────────

/// Knitted hands are not decomposed yet, so this fan is never found.
pub fn lesser_honors_and_knitted_tiles(
    _profile: &HandProfile,
    _static_ctx: &StaticFanContext,
    _dynamic_ctx: &DynamicFanContext,
    _wait_type: WaitType,
) -> (r: Vec<FanInstance>)
    ensures
        r@ == emit(false, FanType::LesserHonorsAndKnittedTiles, 0, true),
{
    fan_if(false, FanType::LesserHonorsAndKnittedTiles, 0, true)
}

/// Knitted hands are not decomposed yet, so this fan is never found.
pub fn knitted_straight(
    _profile: &HandProfile,
    _static_ctx: &StaticFanContext,
    _dynamic_ctx: &DynamicFanContext,
    _wait_type: WaitType,
) -> (r: Vec<FanInstance>)
    ensures
        r@ == emit(false, FanType::KnittedStraight, 0, true),
{
    fan_if(false, FanType::KnittedStraight, 0, true)
}

/// Ranks 6 to 9 only, in a standard hand or in seven pairs.
pub open spec fn upper_four_fires(p: HandProfile) -> bool {
    ||| p.kind == ProfileKind::Standard && in_range(p, 6, 9)
    ||| p.kind == ProfileKind::SevenPairs && all_pairs_pass(p, TileTest::RankIn(6, 9))
}

pub fn upper_four(
    profile: &HandProfile,
    _static_ctx: &StaticFanContext,
    _dynamic_ctx: &DynamicFanContext,
    _wait_type: WaitType,
) -> (r: Vec<FanInstance>)
    requires
        profile.wf(),
    ensures
        r@ == emit(upper_four_fires(*profile), FanType::UpperFour, 0, true),
{
    let fires = if profile.kind == ProfileKind::SevenPairs {
        all_pair_tiles(profile, TileTest::RankIn(6, 9))
    } else {
        profile.is_standard() && all_in_range(profile, 6, 9)
    };
    fan_if(fires, FanType::UpperFour, 0, true)
}

/// Ranks 1 to 4 only, in a standard hand or in seven pairs.
pub open spec fn lower_four_fires(p: HandProfile) -> bool {
    ||| p.kind == ProfileKind::Standard && in_range(p, 1, 4)
    ||| p.kind == ProfileKind::SevenPairs && all_pairs_pass(p, TileTest::RankIn(1, 4))
}

pub fn lower_four(
    profile: &HandProfile,
    _static_ctx: &StaticFanContext,
    _dynamic_ctx: &DynamicFanContext,
    _wait_type: WaitType,
) -> (r: Vec<FanInstance>)
    requires
        profile.wf(),
    ensures
        r@ == emit(lower_four_fires(*profile), FanType::LowerFour, 0, true),
{
    let fires = if profile.kind == ProfileKind::SevenPairs {
        all_pair_tiles(profile, TileTest::RankIn(1, 4))
    } else {
        profile.is_standard() && all_in_range(profile, 1, 4)
    };
    fan_if(fires, FanType::LowerFour, 0, true)
}

/// Three wind pungs or kongs.
pub open spec fn big_three_winds_fires(p: HandProfile) -> bool {
    p.kind == ProfileKind::Standard && p.count_pass(MeldTest::WindPung) >= 3
}

pub fn big_three_winds(
    profile: &HandProfile,
    _static_ctx: &StaticFanContext,
    _dynamic_ctx: &DynamicFanContext,
    _wait_type: WaitType,
) -> (r: Vec<FanInstance>)
    requires
        profile.wf(),
    ensures
        r@ == emit(big_three_winds_fires(*profile), FanType::BigThreeWinds, 15, false),
{
    let fires = profile.is_standard() && count_melds(profile, MeldTest::WindPung) >= 3;
    fan_if(fires, FanType::BigThreeWinds, 15, false)
}

// ── 8 points ─────────────────────────────────────────────────────

/// Chows 1-2-3, 4-5-6 and 7-8-9, one in each suit.
pub open spec fn mixed_straight_fires(p: HandProfile) -> bool {
    p.kind == ProfileKind::Standard && any_triple(p, TripleTest::MixedStraight)
}

pub fn mixed_straight(
    profile: &HandProfile,
    _static_ctx: &StaticFanContext,
    _dynamic_ctx: &DynamicFanContext,
    _wait_type: WaitType,
) -> (r: Vec<FanInstance>)
    requires
        profile.wf(),
    ensures
        r@ == emit(mixed_straight_fires(*profile), FanType::MixedStraight, 0, false),
{
    let fires = profile.is_standard() && find_triple(profile, TripleTest::MixedStraight).is_some();
    fan_if(fires, FanType::MixedStraight, 0, false)
}

/// Every tile reads the same upside down.
pub open spec fn reversible_tiles_fires(p: HandProfile) -> bool {
    &&& p.kind == ProfileKind::Standard
    &&& p.all_pass(MeldTest::Reversible)
    &&& spec_is_reversible(p.pair.tile)
}

pub fn reversible_tiles(
    profile: &HandProfile,
    _static_ctx: &StaticFanContext,
    _dynamic_ctx: &DynamicFanContext,
    _wait_type: WaitType,
) -> (r: Vec<FanInstance>)
    requires
        profile.wf(),
    ensures
        r@ == emit(reversible_tiles_fires(*profile), FanType::ReversibleTiles, 0, true),
{
    let fires = profile.is_standard() && all_melds(profile, MeldTest::Reversible)
        && is_reversible_tile(profile.pair.tile);
    fan_if(fires, FanType::ReversibleTiles, 0, true)
}

/// Three chows of the same ranks, one in each suit.
pub open spec fn mixed_triple_chow_fires(p: HandProfile) -> bool {
    p.kind == ProfileKind::Standard && any_triple(p, TripleTest::MixedTripleChow)
}

pub fn mixed_triple_chow(
    profile: &HandProfile,
    _static_ctx: &StaticFanContext,
    _dynamic_ctx: &DynamicFanContext,
    _wait_type: WaitType,
) -> (r: Vec<FanInstance>)
    requires
        profile.wf(),
    ensures
        r@ == emit(mixed_triple_chow_fires(*profile), FanType::MixedTripleChow, 15, false),
{
    let fires = profile.is_standard() && find_triple(profile, TripleTest::MixedTripleChow).is_some();
    fan_if(fires, FanType::MixedTripleChow, 15, false)
}

/// Three pungs or kongs, one in each suit, each one rank above the last.
pub open spec fn mixed_shifted_pungs_fires(p: HandProfile) -> bool {
    p.kind == ProfileKind::Standard && any_triple(p, TripleTest::MixedShiftedPungs)
}

pub fn mixed_shifted_pungs(
    profile: &HandProfile,
    _static_ctx: &StaticFanContext,
    _dynamic_ctx: &DynamicFanContext,
    _wait_type: WaitType,
) -> (r: Vec<FanInstance>)
    requires
        profile.wf(),
    ensures
        r@ == emit(mixed_shifted_pungs_fires(*profile), FanType::MixedShiftedPungs, 15, false),
{
    let fires = profile.is_standard() && find_triple(profile, TripleTest::MixedShiftedPungs).is_some();
    fan_if(fires, FanType::MixedShiftedPungs, 15, false)
}

/// Chicken hand is awarded after the search, where nothing else scored; the
/// rule itself finds nothing.
pub fn chicken_hand(
    _profile: &HandProfile,
    _static_ctx: &StaticFanContext,
    _dynamic_ctx: &DynamicFanContext,
    _wait_type: WaitType,
) -> (r: Vec<FanInstance>)
    ensures
        r@ == emit(false, FanType::ChickenHand, 0, false),
{
    fan_if(false, FanType::ChickenHand, 0, false)
}

/// Winning on the last tile of the wall.
pub fn last_tile_draw(
    _profile: &HandProfile,
    static_ctx: &StaticFanContext,
    _dynamic_ctx: &DynamicFanContext,
    _wait_type: WaitType,
) -> (r: Vec<FanInstance>)
    ensures
        r@ == emit(static_ctx.is_last_tile_draw, FanType::LastTileDraw, 0, false),
{
    fan_if(static_ctx.is_last_tile_draw, FanType::LastTileDraw, 0, false)
}

/// Winning on the last discard of the game.
pub fn last_tile_claim(
    _profile: &HandProfile,
    static_ctx: &StaticFanContext,
    _dynamic_ctx: &DynamicFanContext,
    _wait_type: WaitType,
) -> (r: Vec<FanInstance>)
    ensures
        r@ == emit(static_ctx.is_last_tile_claim, FanType::LastTileClaim, 0, false),
{
    fan_if(static_ctx.is_last_tile_claim, FanType::LastTileClaim, 0, false)
}

/// Winning on the replacement tile drawn after a kong.
pub fn out_with_replacement_tile(
    _profile: &HandProfile,
    _static_ctx: &StaticFanContext,
    dynamic_ctx: &DynamicFanContext,
    _wait_type: WaitType,
) -> (r: Vec<FanInstance>)
    ensures
        r@ == emit(dynamic_ctx.is_kong_replacement, FanType::OutWithReplacementTile, 0, false),
{
    fan_if(dynamic_ctx.is_kong_replacement, FanType::OutWithReplacementTile, 0, false)
}

/// Winning on the tile another player adds to a melded pung.
pub fn robbing_the_kong(
    _profile: &HandProfile,
    _static_ctx: &StaticFanContext,
    dynamic_ctx: &DynamicFanContext,
    _wait_type: WaitType,
) -> (r: Vec<FanInstance>)
    ensures
        r@ == emit(dynamic_ctx.is_rob_kong, FanType::RobbingTheKong, 0, false),
{
    fan_if(dynamic_ctx.is_rob_kong, FanType::RobbingTheKong, 0, false)
}

/// Two concealed kongs.
pub open spec fn two_concealed_kongs_fires(p: HandProfile) -> bool {
    p.kind == ProfileKind::Standard && p.count_pass(MeldTest::ConcealedKong) >= 2
}

pub fn two_concealed_kongs(
    profile: &HandProfile,
    _static_ctx: &StaticFanContext,
    _dynamic_ctx: &DynamicFanContext,
    _wait_type: WaitType,
) -> (r: Vec<FanInstance>)
    requires
        profile.wf(),
    ensures
        r@ == emit(two_concealed_kongs_fires(*profile), FanType::TwoConcealedKongs, 15, false),
{
    let fires = profile.is_standard() && count_melds(profile, MeldTest::ConcealedKong) >= 2;
    fan_if(fires, FanType::TwoConcealedKongs, 15, false)
}

// ── 6 points ─────────────────────────────────────────────────────

/// Pungs and kongs only.
pub open spec fn all_pungs_fires(p: HandProfile) -> bool {
    p.kind == ProfileKind::Standard && p.n_sets > 0 && p.all_pass(MeldTest::PungOrKong)
}

pub fn all_pungs(
    profile: &HandProfile,
    _static_ctx: &StaticFanContext,
    _dynamic_ctx: &DynamicFanContext,
    _wait_type: WaitType,
) -> (r: Vec<FanInstance>)
    requires
        profile.wf(),
    ensures
        r@ == emit(all_pungs_fires(*profile), FanType::AllPungs, 0, false),
{
    let fires = profile.is_standard() && profile.n_sets > 0 && all_melds(
        profile,
        MeldTest::PungOrKong,
    );
    fan_if(fires, FanType::AllPungs, 0, false)
}

/// One suit with honors.
pub open spec fn half_flush_fires(p: HandProfile) -> bool {
    &&& p.kind == ProfileKind::Standard
    &&& suits_used(p) == 1
    &&& p.any_pass(MeldTest::Honor) || p.pair.is_honor
}

pub fn half_flush(
    profile: &HandProfile,
    _static_ctx: &StaticFanContext,
    _dynamic_ctx: &DynamicFanContext,
    _wait_type: WaitType,
) -> (r: Vec<FanInstance>)
    requires
        profile.wf(),
    ensures
        r@ == emit(half_flush_fires(*profile), FanType::HalfFlush, 0, true),
{
    let fires = profile.is_standard() && count_suits_used(profile) == 1 && (any_meld(
        profile,
        MeldTest::Honor,
    ) || profile.pair.is_honor);
    fan_if(fires, FanType::HalfFlush, 0, true)
}

/// Three chows, one in each suit, each one rank above the last.
pub open spec fn mixed_shifted_chows_fires(p: HandProfile) -> bool {
    p.kind == ProfileKind::Standard && any_triple(p, TripleTest::MixedShiftedChows)
}

pub fn mixed_shifted_chows(
    profile: &HandProfile,
    _static_ctx: &StaticFanContext,
    _dynamic_ctx: &DynamicFanContext,
    _wait_type: WaitType,
) -> (r: Vec<FanInstance>)
    requires
        profile.wf(),
    ensures
        r@ == emit(mixed_shifted_chows_fires(*profile), FanType::MixedShiftedChows, 15, false),
{
    let fires = profile.is_standard() && find_triple(profile, TripleTest::MixedShiftedChows).is_some();
    fan_if(fires, FanType::MixedShiftedChows, 15, false)
}

/// The three suits, winds and dragons all appear.
pub open spec fn all_types_fires(p: HandProfile) -> bool {
    &&& p.kind == ProfileKind::Standard
    &&& suit_used(p, 0) && suit_used(p, 1) && suit_used(p, 2)
    &&& p.any_pass(MeldTest::Wind) || p.pair.is_wind
    &&& p.any_pass(MeldTest::Dragon) || p.pair.is_dragon
}

pub fn all_types(
    profile: &HandProfile,
    _static_ctx: &StaticFanContext,
    _dynamic_ctx: &DynamicFanContext,
    _wait_type: WaitType,
) -> (r: Vec<FanInstance>)
    requires
        profile.wf(),
    ensures
        r@ == emit(all_types_fires(*profile), FanType::AllTypes, 0, true),
{
    let p = profile;
    let fires = p.is_standard() && suit_in_use(p, 0) && suit_in_use(p, 1) && suit_in_use(p, 2)
        && (any_meld(p, MeldTest::Wind) || p.pair.is_wind) && (any_meld(p, MeldTest::Dragon)
        || p.pair.is_dragon);
    fan_if(fires, FanType::AllTypes, 0, true)
}

/// Every set declared, winning on a discard. With every set exposed only
/// the pair was waited on, so the wait was single.
pub open spec fn melded_hand_fires(p: HandProfile, s: StaticFanContext) -> bool {
    &&& p.kind == ProfileKind::Standard
    &&& p.all_pass(MeldTest::Exposed)
    &&& s.win_method == WinMethod::Discard
}

pub fn melded_hand(
    profile: &HandProfile,
    static_ctx: &StaticFanContext,
    _dynamic_ctx: &DynamicFanContext,
    _wait_type: WaitType,
) -> (r: Vec<FanInstance>)
    requires
        profile.wf(),
    ensures
        r@ == emit(melded_hand_fires(*profile, *static_ctx), FanType::MeldedHand, 0, true),
{
    let fires = profile.is_standard() && all_melds(profile, MeldTest::Exposed)
        && static_ctx.win_method == WinMethod::Discard;
    fan_if(fires, FanType::MeldedHand, 0, true)
}

/// Two dragon pungs or kongs.
pub open spec fn two_dragon_pungs_fires(p: HandProfile) -> bool {
    p.kind == ProfileKind::Standard && p.count_pass(MeldTest::DragonPung) >= 2
}

pub fn two_dragon_pungs(
    profile: &HandProfile,
    _static_ctx: &StaticFanContext,
    _dynamic_ctx: &DynamicFanContext,
    _wait_type: WaitType,
) -> (r: Vec<FanInstance>)
    requires
        profile.wf(),
    ensures
        r@ == emit(two_dragon_pungs_fires(*profile), FanType::TwoDragonPungs, 15, false),
{
    let fires = profile.is_standard() && count_melds(profile, MeldTest::DragonPung) >= 2;
    fan_if(fires, FanType::TwoDragonPungs, 15, false)
}

} // verus!
