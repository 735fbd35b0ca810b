//! The eighty-one fan rules and the registry that runs them.

pub mod helpers;
pub mod high;
pub mod mid_high;
pub mod mid_low;
pub mod low;

use vstd::prelude::*;

pub use crate::solver::types::{FanExclusionSet, FanType};
use crate::solver::view::HandProfile;
use crate::solver::{DecomposeResult, DynamicFanContext, FanInstance, StaticFanContext, WaitType, WinMethod};
use self::helpers::{emit, PairTest};
use crate::solver::view::MeldTest;

verus! {

/// The fans in canonical order, from the most valuable down.
pub open spec fn all_fans() -> Seq<FanType> {
    seq![
        FanType::BigFourWinds,
        FanType::BigThreeDragons,
        FanType::AllGreen,
        FanType::NineGates,
        FanType::FourKongs,
        FanType::SevenShiftedPairs,
        FanType::ThirteenOrphans,
        FanType::AllTerminals,
        FanType::LittleFourWinds,
        FanType::LittleThreeDragons,
        FanType::AllHonors,
        FanType::FourConcealedPungs,
        FanType::PureTerminalChows,
        FanType::QuadrupleChow,
        FanType::FourPureShiftedPungs,
        FanType::FourShiftedChows,
        FanType::ThreeKongs,
        FanType::AllTerminalsAndHonors,
        FanType::SevenPairs,
        FanType::GreaterHonorsAndKnittedTiles,
        FanType::AllEvenPungs,
        FanType::FullFlush,
        FanType::PureTripleChow,
        FanType::PureShiftedPungs,
        FanType::UpperTiles,
        FanType::MiddleTiles,
        FanType::LowerTiles,
        FanType::PureStraight,
        FanType::ThreeSuitedTerminalChows,
        FanType::PureShiftedChows,
        FanType::AllFives,
        FanType::TriplePung,
        FanType::ThreeConcealedPungs,
        FanType::LesserHonorsAndKnittedTiles,
        FanType::KnittedStraight,
        FanType::UpperFour,
        FanType::LowerFour,
        FanType::BigThreeWinds,
        FanType::MixedStraight,
        FanType::ReversibleTiles,
        FanType::MixedTripleChow,
        FanType::MixedShiftedPungs,
        FanType::ChickenHand,
        FanType::LastTileDraw,
        FanType::LastTileClaim,
        FanType::OutWithReplacementTile,
        FanType::RobbingTheKong,
        FanType::TwoConcealedKongs,
        FanType::AllPungs,
        FanType::HalfFlush,
        FanType::MixedShiftedChows,
        FanType::AllTypes,
        FanType::MeldedHand,
        FanType::TwoDragonPungs,
        FanType::OutsideHand,
        FanType::FullyConcealed,
        FanType::TwoMeldedKongs,
        FanType::LastTile,
        FanType::DragonPung,
        FanType::PrevalentWind,
        FanType::SeatWind,
        FanType::ConcealedHand,
        FanType::AllChows,
        FanType::TileHog,
        FanType::DoublePung,
        FanType::TwoConcealedPungs,
        FanType::ConcealedKong,
        FanType::AllSimples,
        FanType::PureDoubleChow,
        FanType::MixedDoubleChow,
        FanType::ShortStraight,
        FanType::TwoTerminalChows,
        FanType::PungOfTerminalsOrHonors,
        FanType::MeldedKong,
        FanType::OneVoidedSuit,
        FanType::NoHonors,
        FanType::EdgeWait,
        FanType::ClosedWait,
        FanType::SingleWait,
        FanType::SelfDrawn,
        FanType::FlowerTiles,
    ]
}

/// Where the rule of `ft` finds its fan.
pub open spec fn rule_fires(
    ft: FanType,
    p: HandProfile,
    s: StaticFanContext,
    d: DynamicFanContext,
    w: WaitType,
) -> bool {
    match ft {
        FanType::BigFourWinds => high::big_four_winds_fires(p),
        FanType::BigThreeDragons => high::big_three_dragons_fires(p),
        FanType::AllGreen => high::all_green_fires(p),
        FanType::NineGates => high::nine_gates_fires(p),
        FanType::FourKongs => high::four_kongs_fires(p),
        FanType::SevenShiftedPairs => high::seven_shifted_pairs_fires(p),
        FanType::ThirteenOrphans => high::thirteen_orphans_fires(p),
        FanType::AllTerminals => high::all_terminals_fires(p),
        FanType::LittleFourWinds => high::little_four_winds_fires(p),
        FanType::LittleThreeDragons => high::little_three_dragons_fires(p),
        FanType::AllHonors => high::all_honors_fires(p),
        FanType::FourConcealedPungs => high::four_concealed_pungs_fires(p),
        FanType::PureTerminalChows => high::pure_terminal_chows_fires(p),
        FanType::QuadrupleChow => high::quadruple_chow_fires(p),
        FanType::FourPureShiftedPungs => high::four_pure_shifted_pungs_fires(p),
        FanType::FourShiftedChows => mid_high::four_shifted_chows_fires(p),
        FanType::ThreeKongs => mid_high::three_kongs_fires(p),
        FanType::AllTerminalsAndHonors => mid_high::all_terminals_and_honors_fires(p),
        FanType::SevenPairs => mid_high::seven_pairs_fires(p),
        FanType::GreaterHonorsAndKnittedTiles => false,
        FanType::AllEvenPungs => mid_high::all_even_pungs_fires(p),
        FanType::FullFlush => mid_high::full_flush_fires(p),
        FanType::PureTripleChow => mid_high::pure_triple_chow_fires(p),
        FanType::PureShiftedPungs => mid_high::pure_shifted_pungs_fires(p),
        FanType::UpperTiles => mid_high::tiles_in_range(p, 7, 9),
        FanType::MiddleTiles => mid_high::tiles_in_range(p, 4, 6),
        FanType::LowerTiles => mid_high::tiles_in_range(p, 1, 3),
        FanType::PureStraight => mid_high::pure_straight_fires(p),
        FanType::ThreeSuitedTerminalChows => mid_high::three_suited_terminal_chows_fires(p),
        FanType::PureShiftedChows => mid_high::pure_shifted_chows_fires(p),
        FanType::AllFives => mid_high::all_fives_fires(p),
        FanType::TriplePung => mid_high::triple_pung_fires(p),
        FanType::ThreeConcealedPungs => mid_high::three_concealed_pungs_fires(p),
        FanType::LesserHonorsAndKnittedTiles => false,
        FanType::KnittedStraight => false,
        FanType::UpperFour => mid_low::upper_four_fires(p),
        FanType::LowerFour => mid_low::lower_four_fires(p),
        FanType::BigThreeWinds => mid_low::big_three_winds_fires(p),
        FanType::MixedStraight => mid_low::mixed_straight_fires(p),
        FanType::ReversibleTiles => mid_low::reversible_tiles_fires(p),
        FanType::MixedTripleChow => mid_low::mixed_triple_chow_fires(p),
        FanType::MixedShiftedPungs => mid_low::mixed_shifted_pungs_fires(p),
        FanType::ChickenHand => false,
        FanType::LastTileDraw => s.is_last_tile_draw,
        FanType::LastTileClaim => s.is_last_tile_claim,
        FanType::OutWithReplacementTile => d.is_kong_replacement,
        FanType::RobbingTheKong => d.is_rob_kong,
        FanType::TwoConcealedKongs => mid_low::two_concealed_kongs_fires(p),
        FanType::AllPungs => mid_low::all_pungs_fires(p),
        FanType::HalfFlush => mid_low::half_flush_fires(p),
        FanType::MixedShiftedChows => mid_low::mixed_shifted_chows_fires(p),
        FanType::AllTypes => mid_low::all_types_fires(p),
        FanType::MeldedHand => mid_low::melded_hand_fires(p, s),
        FanType::TwoDragonPungs => mid_low::two_dragon_pungs_fires(p),
        FanType::OutsideHand => low::outside_hand_fires(p),
        FanType::FullyConcealed => s.is_fully_concealed,
        FanType::TwoMeldedKongs => low::two_melded_kongs_fires(p),
        FanType::LastTile => s.is_last_tile_of_kind,
        FanType::DragonPung => low::dragon_pung_fires(p),
        FanType::PrevalentWind => low::prevalent_wind_fires(p, s),
        FanType::SeatWind => low::seat_wind_fires(p, s),
        FanType::ConcealedHand => low::concealed_hand_fires(s),
        FanType::AllChows => low::all_chows_fires(p),
        FanType::TileHog => low::tile_hog_fires(p),
        FanType::DoublePung => low::double_pung_fires(p),
        FanType::TwoConcealedPungs => low::two_concealed_pungs_fires(p),
        FanType::ConcealedKong => low::concealed_kong_fires(p),
        FanType::AllSimples => low::all_simples_fires(p),
        FanType::PureDoubleChow => low::pure_double_chow_fires(p),
        FanType::MixedDoubleChow => low::mixed_double_chow_fires(p),
        FanType::ShortStraight => low::short_straight_fires(p),
        FanType::TwoTerminalChows => low::two_terminal_chows_fires(p),
        FanType::PungOfTerminalsOrHonors => low::pung_of_terminals_or_honors_fires(p),
        FanType::MeldedKong => low::melded_kong_fires(p),
        FanType::OneVoidedSuit => low::one_voided_suit_fires(p),
        FanType::NoHonors => low::no_honors_fires(p),
        FanType::EdgeWait => w == WaitType::Edge,
        FanType::ClosedWait => w == WaitType::Closed,
        FanType::SingleWait => w == WaitType::Single,
        FanType::SelfDrawn => s.win_method == WinMethod::SelfDraw,
        FanType::FlowerTiles => s.flower_count > 0,
    }
}

/// The sets the fan of `ft` uses where its rule finds it.
pub open spec fn rule_mask(
    ft: FanType,
    p: HandProfile,
    s: StaticFanContext,
    d: DynamicFanContext,
    w: WaitType,
) -> int {
    match ft {
        FanType::BigFourWinds => 15,
        FanType::BigThreeDragons => 15,
        FanType::AllGreen => 0,
        FanType::NineGates => 0,
        FanType::FourKongs => 15,
        FanType::SevenShiftedPairs => 0,
        FanType::ThirteenOrphans => 0,
        FanType::AllTerminals => 0,
        FanType::LittleFourWinds => 15,
        FanType::LittleThreeDragons => 15,
        FanType::AllHonors => 0,
        FanType::FourConcealedPungs => 15,
        FanType::PureTerminalChows => 0,
        FanType::QuadrupleChow => 15,
        FanType::FourPureShiftedPungs => 15,
        FanType::FourShiftedChows => 15,
        FanType::ThreeKongs => 15,
        FanType::AllTerminalsAndHonors => 15,
        FanType::SevenPairs => 0,
        FanType::GreaterHonorsAndKnittedTiles => 0,
        FanType::AllEvenPungs => 15,
        FanType::FullFlush => 15,
        FanType::PureTripleChow => 15,
        FanType::PureShiftedPungs => 15,
        FanType::UpperTiles => mid_high::whole_hand_mask(p),
        FanType::MiddleTiles => mid_high::whole_hand_mask(p),
        FanType::LowerTiles => mid_high::whole_hand_mask(p),
        FanType::PureStraight => mid_high::pure_straight_mask(p),
        FanType::ThreeSuitedTerminalChows => 15,
        FanType::PureShiftedChows => 15,
        FanType::AllFives => 15,
        FanType::TriplePung => 15,
        FanType::ThreeConcealedPungs => 15,
        FanType::LesserHonorsAndKnittedTiles => 0,
        FanType::KnittedStraight => 0,
        FanType::UpperFour => 0,
        FanType::LowerFour => 0,
        FanType::BigThreeWinds => 15,
        FanType::MixedStraight => 0,
        FanType::ReversibleTiles => 0,
        FanType::MixedTripleChow => 15,
        FanType::MixedShiftedPungs => 15,
        FanType::ChickenHand => 0,
        FanType::LastTileDraw => 0,
        FanType::LastTileClaim => 0,
        FanType::OutWithReplacementTile => 0,
        FanType::RobbingTheKong => 0,
        FanType::TwoConcealedKongs => 15,
        FanType::AllPungs => 0,
        FanType::HalfFlush => 0,
        FanType::MixedShiftedChows => 15,
        FanType::AllTypes => 0,
        FanType::MeldedHand => 0,
        FanType::TwoDragonPungs => 15,
        FanType::OutsideHand => 0,
        FanType::FullyConcealed => 0,
        FanType::TwoMeldedKongs => 15,
        FanType::LastTile => 0,
        FanType::DragonPung => p.mask_pass(MeldTest::DragonPung),
        FanType::PrevalentWind => low::wind_pung_mask(p, s.prevalent_wind.spec_tile()),
        FanType::SeatWind => low::wind_pung_mask(p, s.seat_wind.spec_tile()),
        FanType::ConcealedHand => 0,
        FanType::AllChows => 0,
        FanType::TileHog => 0,
        FanType::DoublePung => helpers::partner_mask(p, PairTest::DoublePung),
        FanType::TwoConcealedPungs => 15,
        FanType::ConcealedKong => p.mask_pass(MeldTest::ConcealedKong),
        FanType::AllSimples => 0,
        FanType::PureDoubleChow => helpers::partner_mask(p, PairTest::PureDoubleChow),
        FanType::MixedDoubleChow => helpers::partner_mask(p, PairTest::MixedDoubleChow),
        FanType::ShortStraight => helpers::partner_mask(p, PairTest::ShortStraight),
        FanType::TwoTerminalChows => low::terminal_chow_mask(p),
        FanType::PungOfTerminalsOrHonors => p.mask_pass(MeldTest::TerminalOrWindPung),
        FanType::MeldedKong => p.mask_pass(MeldTest::MeldedKong),
        FanType::OneVoidedSuit => 0,
        FanType::NoHonors => 0,
        FanType::EdgeWait => 0,
        FanType::ClosedWait => 0,
        FanType::SingleWait => 0,
        FanType::SelfDrawn => 0,
        FanType::FlowerTiles => 0,
    }
}

/// Whether the fan of `ft` uses the pair.
pub open spec fn rule_pair(ft: FanType) -> bool {
    match ft {
        FanType::BigFourWinds => false,
        FanType::BigThreeDragons => false,
        FanType::AllGreen => true,
        FanType::NineGates => true,
        FanType::FourKongs => false,
        FanType::SevenShiftedPairs => true,
        FanType::ThirteenOrphans => true,
        FanType::AllTerminals => true,
        FanType::LittleFourWinds => true,
        FanType::LittleThreeDragons => true,
        FanType::AllHonors => true,
        FanType::FourConcealedPungs => false,
        FanType::PureTerminalChows => true,
        FanType::QuadrupleChow => false,
        FanType::FourPureShiftedPungs => false,
        FanType::FourShiftedChows => false,
        FanType::ThreeKongs => false,
        FanType::AllTerminalsAndHonors => true,
        FanType::SevenPairs => true,
        FanType::GreaterHonorsAndKnittedTiles => true,
        FanType::AllEvenPungs => true,
        FanType::FullFlush => true,
        FanType::PureTripleChow => false,
        FanType::PureShiftedPungs => false,
        FanType::UpperTiles => true,
        FanType::MiddleTiles => true,
        FanType::LowerTiles => true,
        FanType::PureStraight => false,
        FanType::ThreeSuitedTerminalChows => true,
        FanType::PureShiftedChows => false,
        FanType::AllFives => true,
        FanType::TriplePung => false,
        FanType::ThreeConcealedPungs => false,
        FanType::LesserHonorsAndKnittedTiles => true,
        FanType::KnittedStraight => true,
        FanType::UpperFour => true,
        FanType::LowerFour => true,
        FanType::BigThreeWinds => false,
        FanType::MixedStraight => false,
        FanType::ReversibleTiles => true,
        FanType::MixedTripleChow => false,
        FanType::MixedShiftedPungs => false,
        FanType::ChickenHand => false,
        FanType::LastTileDraw => false,
        FanType::LastTileClaim => false,
        FanType::OutWithReplacementTile => false,
        FanType::RobbingTheKong => false,
        FanType::TwoConcealedKongs => false,
        FanType::AllPungs => false,
        FanType::HalfFlush => true,
        FanType::MixedShiftedChows => false,
        FanType::AllTypes => true,
        FanType::MeldedHand => true,
        FanType::TwoDragonPungs => false,
        FanType::OutsideHand => true,
        FanType::FullyConcealed => true,
        FanType::TwoMeldedKongs => false,
        FanType::LastTile => false,
        FanType::DragonPung => false,
        FanType::PrevalentWind => false,
        FanType::SeatWind => false,
        FanType::ConcealedHand => false,
        FanType::AllChows => true,
        FanType::TileHog => true,
        FanType::DoublePung => false,
        FanType::TwoConcealedPungs => false,
        FanType::ConcealedKong => false,
        FanType::AllSimples => true,
        FanType::PureDoubleChow => false,
        FanType::MixedDoubleChow => false,
        FanType::ShortStraight => false,
        FanType::TwoTerminalChows => false,
        FanType::PungOfTerminalsOrHonors => false,
        FanType::MeldedKong => false,
        FanType::OneVoidedSuit => true,
        FanType::NoHonors => true,
        FanType::EdgeWait => false,
        FanType::ClosedWait => false,
        FanType::SingleWait => false,
        FanType::SelfDrawn => true,
        FanType::FlowerTiles => false,
    }
}

/// What the rule of `ft` returns on the profile `p` and the context.
pub open spec fn rule_result(
    ft: FanType,
    p: HandProfile,
    s: StaticFanContext,
    d: DynamicFanContext,
    w: WaitType,
) -> Seq<FanInstance> {
    emit(rule_fires(ft, p, s, d, w), ft, rule_mask(ft, p, s, d, w), rule_pair(ft))
}

/// What the rules of the first `k` fans return, in canonical order.
pub open spec fn rules_upto(
    k: int,
    p: HandProfile,
    s: StaticFanContext,
    d: DynamicFanContext,
    w: WaitType,
) -> Seq<FanInstance>
    decreases k,
{
    if k <= 0 {
        Seq::empty()
    } else {
        rules_upto(k - 1, p, s, d, w) + rule_result(all_fans()[k - 1], p, s, d, w)
    }
}

/// What all the rules return, in canonical order.
pub open spec fn all_rules(
    p: HandProfile,
    s: StaticFanContext,
    d: DynamicFanContext,
    w: WaitType,
) -> Seq<FanInstance> {
    rules_upto(81, p, s, d, w)
}

/// The fans in canonical order.
pub fn fan_list() -> (r: Vec<FanType>)
    ensures
        r@ == all_fans(),
{
    let r = vec![
        FanType::BigFourWinds,
        FanType::BigThreeDragons,
        FanType::AllGreen,
        FanType::NineGates,
        FanType::FourKongs,
        FanType::SevenShiftedPairs,
        FanType::ThirteenOrphans,
        FanType::AllTerminals,
        FanType::LittleFourWinds,
        FanType::LittleThreeDragons,
        FanType::AllHonors,
        FanType::FourConcealedPungs,
        FanType::PureTerminalChows,
        FanType::QuadrupleChow,
        FanType::FourPureShiftedPungs,
        FanType::FourShiftedChows,
        FanType::ThreeKongs,
        FanType::AllTerminalsAndHonors,
        FanType::SevenPairs,
        FanType::GreaterHonorsAndKnittedTiles,
        FanType::AllEvenPungs,
        FanType::FullFlush,
        FanType::PureTripleChow,
        FanType::PureShiftedPungs,
        FanType::UpperTiles,
        FanType::MiddleTiles,
        FanType::LowerTiles,
        FanType::PureStraight,
        FanType::ThreeSuitedTerminalChows,
        FanType::PureShiftedChows,
        FanType::AllFives,
        FanType::TriplePung,
        FanType::ThreeConcealedPungs,
        FanType::LesserHonorsAndKnittedTiles,
        FanType::KnittedStraight,
        FanType::UpperFour,
        FanType::LowerFour,
        FanType::BigThreeWinds,
        FanType::MixedStraight,
        FanType::ReversibleTiles,
        FanType::MixedTripleChow,
        FanType::MixedShiftedPungs,
        FanType::ChickenHand,
        FanType::LastTileDraw,
        FanType::LastTileClaim,
        FanType::OutWithReplacementTile,
        FanType::RobbingTheKong,
        FanType::TwoConcealedKongs,
        FanType::AllPungs,
        FanType::HalfFlush,
        FanType::MixedShiftedChows,
        FanType::AllTypes,
        FanType::MeldedHand,
        FanType::TwoDragonPungs,
        FanType::OutsideHand,
        FanType::FullyConcealed,
        FanType::TwoMeldedKongs,
        FanType::LastTile,
        FanType::DragonPung,
        FanType::PrevalentWind,
        FanType::SeatWind,
        FanType::ConcealedHand,
        FanType::AllChows,
        FanType::TileHog,
        FanType::DoublePung,
        FanType::TwoConcealedPungs,
        FanType::ConcealedKong,
        FanType::AllSimples,
        FanType::PureDoubleChow,
        FanType::MixedDoubleChow,
        FanType::ShortStraight,
        FanType::TwoTerminalChows,
        FanType::PungOfTerminalsOrHonors,
        FanType::MeldedKong,
        FanType::OneVoidedSuit,
        FanType::NoHonors,
        FanType::EdgeWait,
        FanType::ClosedWait,
        FanType::SingleWait,
        FanType::SelfDrawn,
        FanType::FlowerTiles,
    ];
    assert(r@ == all_fans());
    r
}

/// Runs the rule of `ft`.
pub fn run_rule(
    ft: FanType,
    profile: &HandProfile,
    static_ctx: &StaticFanContext,
    dynamic_ctx: &DynamicFanContext,
    wait_type: WaitType,
) -> (r: Vec<FanInstance>)
    requires
        profile.wf(),
    ensures
        r@ == rule_result(ft, *profile, *static_ctx, *dynamic_ctx, wait_type),
{
    match ft {
        FanType::BigFourWinds => high::big_four_winds(profile, static_ctx, dynamic_ctx, wait_type),
        FanType::BigThreeDragons => high::big_three_dragons(profile, static_ctx, dynamic_ctx, wait_type),
        FanType::AllGreen => high::all_green(profile, static_ctx, dynamic_ctx, wait_type),
        FanType::NineGates => high::nine_gates(profile, static_ctx, dynamic_ctx, wait_type),
        FanType::FourKongs => high::four_kongs(profile, static_ctx, dynamic_ctx, wait_type),
        FanType::SevenShiftedPairs => high::seven_shifted_pairs(profile, static_ctx, dynamic_ctx, wait_type),
        FanType::ThirteenOrphans => high::thirteen_orphans(profile, static_ctx, dynamic_ctx, wait_type),
        FanType::AllTerminals => high::all_terminals(profile, static_ctx, dynamic_ctx, wait_type),
        FanType::LittleFourWinds => high::little_four_winds(profile, static_ctx, dynamic_ctx, wait_type),
        FanType::LittleThreeDragons => high::little_three_dragons(profile, static_ctx, dynamic_ctx, wait_type),
        FanType::AllHonors => high::all_honors(profile, static_ctx, dynamic_ctx, wait_type),
        FanType::FourConcealedPungs => high::four_concealed_pungs(profile, static_ctx, dynamic_ctx, wait_type),
        FanType::PureTerminalChows => high::pure_terminal_chows(profile, static_ctx, dynamic_ctx, wait_type),
        FanType::QuadrupleChow => high::quadruple_chow(profile, static_ctx, dynamic_ctx, wait_type),
        FanType::FourPureShiftedPungs => high::four_pure_shifted_pungs(profile, static_ctx, dynamic_ctx, wait_type),
        FanType::FourShiftedChows => mid_high::four_shifted_chows(profile, static_ctx, dynamic_ctx, wait_type),
        FanType::ThreeKongs => mid_high::three_kongs(profile, static_ctx, dynamic_ctx, wait_type),
        FanType::AllTerminalsAndHonors => mid_high::all_terminals_and_honors(profile, static_ctx, dynamic_ctx, wait_type),
        FanType::SevenPairs => mid_high::seven_pairs(profile, static_ctx, dynamic_ctx, wait_type),
        FanType::GreaterHonorsAndKnittedTiles => mid_high::greater_honors_and_knitted_tiles(profile, static_ctx, dynamic_ctx, wait_type),
        FanType::AllEvenPungs => mid_high::all_even_pungs(profile, static_ctx, dynamic_ctx, wait_type),
        FanType::FullFlush => mid_high::full_flush(profile, static_ctx, dynamic_ctx, wait_type),
        FanType::PureTripleChow => mid_high::pure_triple_chow(profile, static_ctx, dynamic_ctx, wait_type),
        FanType::PureShiftedPungs => mid_high::pure_shifted_pungs(profile, static_ctx, dynamic_ctx, wait_type),
        FanType::UpperTiles => mid_high::upper_tiles(profile, static_ctx, dynamic_ctx, wait_type),
        FanType::MiddleTiles => mid_high::middle_tiles(profile, static_ctx, dynamic_ctx, wait_type),
        FanType::LowerTiles => mid_high::lower_tiles(profile, static_ctx, dynamic_ctx, wait_type),
        FanType::PureStraight => mid_high::pure_straight(profile, static_ctx, dynamic_ctx, wait_type),
        FanType::ThreeSuitedTerminalChows => mid_high::three_suited_terminal_chows(profile, static_ctx, dynamic_ctx, wait_type),
        FanType::PureShiftedChows => mid_high::pure_shifted_chows(profile, static_ctx, dynamic_ctx, wait_type),
        FanType::AllFives => mid_high::all_fives(profile, static_ctx, dynamic_ctx, wait_type),
        FanType::TriplePung => mid_high::triple_pung(profile, static_ctx, dynamic_ctx, wait_type),
        FanType::ThreeConcealedPungs => mid_high::three_concealed_pungs(profile, static_ctx, dynamic_ctx, wait_type),
        FanType::LesserHonorsAndKnittedTiles => mid_low::lesser_honors_and_knitted_tiles(profile, static_ctx, dynamic_ctx, wait_type),
        FanType::KnittedStraight => mid_low::knitted_straight(profile, static_ctx, dynamic_ctx, wait_type),
        FanType::UpperFour => mid_low::upper_four(profile, static_ctx, dynamic_ctx, wait_type),
        FanType::LowerFour => mid_low::lower_four(profile, static_ctx, dynamic_ctx, wait_type),
        FanType::BigThreeWinds => mid_low::big_three_winds(profile, static_ctx, dynamic_ctx, wait_type),
        FanType::MixedStraight => mid_low::mixed_straight(profile, static_ctx, dynamic_ctx, wait_type),
        FanType::ReversibleTiles => mid_low::reversible_tiles(profile, static_ctx, dynamic_ctx, wait_type),
        FanType::MixedTripleChow => mid_low::mixed_triple_chow(profile, static_ctx, dynamic_ctx, wait_type),
        FanType::MixedShiftedPungs => mid_low::mixed_shifted_pungs(profile, static_ctx, dynamic_ctx, wait_type),
        FanType::ChickenHand => mid_low::chicken_hand(profile, static_ctx, dynamic_ctx, wait_type),
        FanType::LastTileDraw => mid_low::last_tile_draw(profile, static_ctx, dynamic_ctx, wait_type),
        FanType::LastTileClaim => mid_low::last_tile_claim(profile, static_ctx, dynamic_ctx, wait_type),
        FanType::OutWithReplacementTile => mid_low::out_with_replacement_tile(profile, static_ctx, dynamic_ctx, wait_type),
        FanType::RobbingTheKong => mid_low::robbing_the_kong(profile, static_ctx, dynamic_ctx, wait_type),
        FanType::TwoConcealedKongs => mid_low::two_concealed_kongs(profile, static_ctx, dynamic_ctx, wait_type),
        FanType::AllPungs => mid_low::all_pungs(profile, static_ctx, dynamic_ctx, wait_type),
        FanType::HalfFlush => mid_low::half_flush(profile, static_ctx, dynamic_ctx, wait_type),
        FanType::MixedShiftedChows => mid_low::mixed_shifted_chows(profile, static_ctx, dynamic_ctx, wait_type),
        FanType::AllTypes => mid_low::all_types(profile, static_ctx, dynamic_ctx, wait_type),
        FanType::MeldedHand => mid_low::melded_hand(profile, static_ctx, dynamic_ctx, wait_type),
        FanType::TwoDragonPungs => mid_low::two_dragon_pungs(profile, static_ctx, dynamic_ctx, wait_type),
        FanType::OutsideHand => low::outside_hand(profile, static_ctx, dynamic_ctx, wait_type),
        FanType::FullyConcealed => low::fully_concealed(profile, static_ctx, dynamic_ctx, wait_type),
        FanType::TwoMeldedKongs => low::two_melded_kongs(profile, static_ctx, dynamic_ctx, wait_type),
        FanType::LastTile => low::last_tile(profile, static_ctx, dynamic_ctx, wait_type),
        FanType::DragonPung => low::dragon_pung(profile, static_ctx, dynamic_ctx, wait_type),
        FanType::PrevalentWind => low::prevalent_wind(profile, static_ctx, dynamic_ctx, wait_type),
        FanType::SeatWind => low::seat_wind(profile, static_ctx, dynamic_ctx, wait_type),
        FanType::ConcealedHand => low::concealed_hand(profile, static_ctx, dynamic_ctx, wait_type),
        FanType::AllChows => low::all_chows(profile, static_ctx, dynamic_ctx, wait_type),
        FanType::TileHog => low::tile_hog(profile, static_ctx, dynamic_ctx, wait_type),
        FanType::DoublePung => low::double_pung(profile, static_ctx, dynamic_ctx, wait_type),
        FanType::TwoConcealedPungs => low::two_concealed_pungs(profile, static_ctx, dynamic_ctx, wait_type),
        FanType::ConcealedKong => low::concealed_kong(profile, static_ctx, dynamic_ctx, wait_type),
        FanType::AllSimples => low::all_simples(profile, static_ctx, dynamic_ctx, wait_type),
        FanType::PureDoubleChow => low::pure_double_chow(profile, static_ctx, dynamic_ctx, wait_type),
        FanType::MixedDoubleChow => low::mixed_double_chow(profile, static_ctx, dynamic_ctx, wait_type),
        FanType::ShortStraight => low::short_straight(profile, static_ctx, dynamic_ctx, wait_type),
        FanType::TwoTerminalChows => low::two_terminal_chows(profile, static_ctx, dynamic_ctx, wait_type),
        FanType::PungOfTerminalsOrHonors => low::pung_of_terminals_or_honors(profile, static_ctx, dynamic_ctx, wait_type),
        FanType::MeldedKong => low::melded_kong(profile, static_ctx, dynamic_ctx, wait_type),
        FanType::OneVoidedSuit => low::one_voided_suit(profile, static_ctx, dynamic_ctx, wait_type),
        FanType::NoHonors => low::no_honors(profile, static_ctx, dynamic_ctx, wait_type),
        FanType::EdgeWait => low::edge_wait(profile, static_ctx, dynamic_ctx, wait_type),
        FanType::ClosedWait => low::closed_wait(profile, static_ctx, dynamic_ctx, wait_type),
        FanType::SingleWait => low::single_wait(profile, static_ctx, dynamic_ctx, wait_type),
        FanType::SelfDrawn => low::self_drawn(profile, static_ctx, dynamic_ctx, wait_type),
        FanType::FlowerTiles => low::flower_tiles(profile, static_ctx, dynamic_ctx, wait_type),
    }
}

/// Runs every rule on a profile, in canonical order.
pub fn check_profile(
    profile: &HandProfile,
    static_ctx: &StaticFanContext,
    dynamic_ctx: &DynamicFanContext,
    wait_type: WaitType,
) -> (r: Vec<FanInstance>)
    requires
        profile.wf(),
    ensures
        r@ == all_rules(*profile, *static_ctx, *dynamic_ctx, wait_type),
{
    let fans = fan_list();
    let mut out: Vec<FanInstance> = Vec::new();
    let mut i: usize = 0;
    while i < fans.len()
        invariant
            fans@ == all_fans(),
            profile.wf(),
            i <= fans@.len(),
            out@ == rules_upto(i as int, *profile, *static_ctx, *dynamic_ctx, wait_type),
        decreases fans@.len() - i,
    {
        let mut found = run_rule(fans[i], profile, static_ctx, dynamic_ctx, wait_type);
        out.append(&mut found);
        i = i + 1;
    }
    out
}

/// Runs every rule on one decomposition, in canonical order.
pub fn check_all(
    decomp: &DecomposeResult,
    static_ctx: &StaticFanContext,
    dynamic_ctx: &DynamicFanContext,
    wait_type: WaitType,
) -> (r: Vec<FanInstance>)
    requires
        decomp.decompositions.wf(),
    ensures
        exists|p: HandProfile|
            p.views(decomp.decompositions) && p.wf() && r@ == all_rules(
                p,
                *static_ctx,
                *dynamic_ctx,
                wait_type,
            ),
{
    let profile = HandProfile::from_decomposition(&decomp.decompositions);
    check_profile(&profile, static_ctx, dynamic_ctx, wait_type)
}

/// Each rule finds its fan at most once, so the rules together find at most
/// one instance per fan.
pub proof fn lemma_rules_len(
    k: int,
    p: HandProfile,
    s: StaticFanContext,
    d: DynamicFanContext,
    w: WaitType,
)
    requires
        0 <= k <= 81,
    ensures
        rules_upto(k, p, s, d, w).len() <= k,
    decreases k,
{
    if k > 0 {
        lemma_rules_len(k - 1, p, s, d, w);
        assert(rule_result(all_fans()[k - 1], p, s, d, w).len() <= 1);
    }
}

/// A rule that finds nothing.
pub fn empty_rule(
    _profile: &HandProfile,
    _static_ctx: &StaticFanContext,
    _dynamic_ctx: &DynamicFanContext,
    _wait_type: WaitType,
) -> (r: Vec<FanInstance>)
    ensures
        r@.len() == 0,
{
    Vec::new()
}


/// Every hand with All Fives also has All Simples, and All Fives excludes
/// All Simples, so the two are never counted together.
pub proof fn lemma_all_fives_implies_all_simples(p: HandProfile)
    requires
        p.wf(),
    ensures
        mid_high::all_fives_fires(p) ==> low::all_simples_fires(p),
        FanType::AllFives.excludes(FanType::AllSimples),
{
    if mid_high::all_fives_fires(p) {
        assert forall|i: int| 0 <= i < p.n_sets implies crate::solver::view::meld_passes(
            MeldTest::Simple,
            #[trigger] p.meld(i),
        ) by {
            let m = p.meld(i);
            assert(m.wf());
            assert(crate::solver::view::meld_passes(MeldTest::Five, m));
            if m.kind == crate::solver::view::MeldKind::Chow {
                crate::solver::view::lemma_chow_start(m.tile);
            }
        }
    }
}

} // verus!
