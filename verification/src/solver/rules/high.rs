//! The 88, 64 and 48 point fans.

use vstd::prelude::*;

use super::helpers::{
    all_melds, all_pair_tiles, all_pairs_pass, count_melds, emit, fan_if, four_sets,
    four_sets_exec, has_meld_tile, meld_with_tile, pair_rank_count, pair_rank_count_exec,
    tile_count, tile_count_exec, any_meld, QuadTest, TileTest,
};
use crate::solver::types::FanType;
use crate::solver::view::{
    is_green_tile, is_terminal_tile, spec_is_green, spec_is_terminal, spec_suit, suit_of,
    HandProfile, MeldTest, ProfileKind,
};
use crate::solver::{DynamicFanContext, FanInstance, StaticFanContext, WaitType};
use crate::structs::Tile;

verus! {

// ── 88 points ────────────────────────────────────────────────────

/// Four pungs or kongs, one of each wind.
pub open spec fn big_four_winds_fires(p: HandProfile) -> bool {
    &&& p.kind == ProfileKind::Standard
    &&& p.n_sets == 4
    &&& p.all_pass(MeldTest::PungOrKong)
    &&& has_meld_tile(p, MeldTest::PungOrKong, Tile::East)
    &&& has_meld_tile(p, MeldTest::PungOrKong, Tile::South)
    &&& has_meld_tile(p, MeldTest::PungOrKong, Tile::West)
    &&& has_meld_tile(p, MeldTest::PungOrKong, Tile::North)
}

pub fn big_four_winds(
    profile: &HandProfile,
    _static_ctx: &StaticFanContext,
    _dynamic_ctx: &DynamicFanContext,
    _wait_type: WaitType,
) -> (r: Vec<FanInstance>)
    requires
        profile.wf(),
    ensures
        r@ == emit(big_four_winds_fires(*profile), FanType::BigFourWinds, 15, false),
{
    let fires = profile.is_standard() && profile.n_sets == 4 && all_melds(
        profile,
        MeldTest::PungOrKong,
    ) && meld_with_tile(profile, MeldTest::PungOrKong, Tile::East) && meld_with_tile(
        profile,
        MeldTest::PungOrKong,
        Tile::South,
    ) && meld_with_tile(profile, MeldTest::PungOrKong, Tile::West) && meld_with_tile(
        profile,
        MeldTest::PungOrKong,
        Tile::North,
    );
    fan_if(fires, FanType::BigFourWinds, 15, false)
}

/// Three pungs or kongs of dragons.
pub open spec fn big_three_dragons_fires(p: HandProfile) -> bool {
    p.kind == ProfileKind::Standard && p.count_pass(MeldTest::DragonPung) >= 3
}

pub fn big_three_dragons(
    profile: &HandProfile,
    _static_ctx: &StaticFanContext,
    _dynamic_ctx: &DynamicFanContext,
    _wait_type: WaitType,
) -> (r: Vec<FanInstance>)
    requires
        profile.wf(),
    ensures
        r@ == emit(big_three_dragons_fires(*profile), FanType::BigThreeDragons, 15, false),
{
    let fires = profile.is_standard() && count_melds(profile, MeldTest::DragonPung) >= 3;
    fan_if(fires, FanType::BigThreeDragons, 15, false)
}

/// Every tile is green: bamboos 2, 3, 4, 6, 8 and the green dragon.
pub open spec fn all_green_fires(p: HandProfile) -> bool {
    match p.kind {
        ProfileKind::Standard => p.all_pass(MeldTest::Green) && spec_is_green(p.pair.tile),
        ProfileKind::SevenPairs => all_pairs_pass(p, TileTest::Green),
        ProfileKind::ThirteenOrphans => false,
    }
}

pub fn all_green(
    profile: &HandProfile,
    _static_ctx: &StaticFanContext,
    _dynamic_ctx: &DynamicFanContext,
    _wait_type: WaitType,
) -> (r: Vec<FanInstance>)
    requires
        profile.wf(),
    ensures
        r@ == emit(all_green_fires(*profile), FanType::AllGreen, 0, true),
{
    let fires = match profile.kind {
        ProfileKind::Standard => all_melds(profile, MeldTest::Green) && is_green_tile(
            profile.pair.tile,
        ),
        ProfileKind::SevenPairs => all_pair_tiles(profile, TileTest::Green),
        ProfileKind::ThirteenOrphans => false,
    };
    fan_if(fires, FanType::AllGreen, 0, true)
}

/// The least number of tiles of each rank in nine gates: three ones, one
/// of each middle rank, three nines.
pub open spec fn nine_gates_base(r: int) -> int {
    if r == 1 || r == 9 {
        3
    } else {
        1
    }
}

/// The number of ranks among `1..=k` held more often than nine gates needs.
pub open spec fn nine_gates_excess(p: HandProfile, s: int, k: int) -> nat
    decreases k,
{
    if k <= 0 {
        0
    } else {
        nine_gates_excess(p, s, k - 1) + if tile_count(p, s, k) > nine_gates_base(k) {
            1nat
        } else {
            0nat
        }
    }
}

/// One suit only, holding 1-1-1-2-3-4-5-6-7-8-9-9-9 and one more tile of
/// that suit.
pub open spec fn nine_gates_fires(p: HandProfile) -> bool {
    let s = p.meld(0).suit as int;
    &&& p.kind == ProfileKind::Standard
    &&& s < 3
    &&& p.all_pass(MeldTest::InSuit(s as u8))
    &&& !p.any_pass(MeldTest::Honor)
    &&& p.pair.suit == s && !p.pair.is_honor
    &&& forall|r: int| 1 <= r <= 9 ==> #[trigger] tile_count(p, s, r) >= nine_gates_base(r)
    &&& nine_gates_excess(p, s, 9) == 1
}

pub fn nine_gates(
    profile: &HandProfile,
    _static_ctx: &StaticFanContext,
    _dynamic_ctx: &DynamicFanContext,
    _wait_type: WaitType,
) -> (r: Vec<FanInstance>)
    requires
        profile.wf(),
    ensures
        r@ == emit(nine_gates_fires(*profile), FanType::NineGates, 0, true),
{
    let empty = fan_if(false, FanType::NineGates, 0, true);
    if !profile.is_standard() {
        return empty;
    }
    let s = profile.melds[0].suit;
    if s >= 3 {
        return empty;
    }
    if !all_melds(profile, MeldTest::InSuit(s)) || any_meld(profile, MeldTest::Honor) {
        return empty;
    }
    if profile.pair.suit != s || profile.pair.is_honor {
        return empty;
    }
    let mut excess: u8 = 0;
    let mut r: u8 = 1;
    while r <= 9
        invariant
            1 <= r <= 10,
            profile.wf(),
            s == profile.meld(0).suit,
            forall|q: int| 1 <= q < r ==> #[trigger] tile_count(*profile, s as int, q) >= nine_gates_base(q),
            excess == nine_gates_excess(*profile, s as int, r - 1),
            excess < r,
        decreases 10 - r,
    {
        let c = tile_count_exec(profile, s, r);
        let base: u8 = if r == 1 || r == 9 { 3 } else { 1 };
        if c < base {
            assert(tile_count(*profile, s as int, r as int) < nine_gates_base(r as int));
            return fan_if(false, FanType::NineGates, 0, true);
        }
        if c > base {
            excess = excess + 1;
        }
        r = r + 1;
    }
    fan_if(excess == 1, FanType::NineGates, 0, true)
}

/// Four kongs.
pub open spec fn four_kongs_fires(p: HandProfile) -> bool {
    p.kind == ProfileKind::Standard && p.n_kongs == 4
}

pub fn four_kongs(
    profile: &HandProfile,
    _static_ctx: &StaticFanContext,
    _dynamic_ctx: &DynamicFanContext,
    _wait_type: WaitType,
) -> (r: Vec<FanInstance>)
    requires
        profile.wf(),
    ensures
        r@ == emit(four_kongs_fires(*profile), FanType::FourKongs, 15, false),
{
    fan_if(profile.is_standard() && profile.n_kongs == 4, FanType::FourKongs, 15, false)
}

/// Seven pairs of one suit whose ranks follow one another.
pub open spec fn seven_shifted_pairs_fires(p: HandProfile) -> bool {
    &&& p.kind == ProfileKind::SevenPairs
    &&& all_pairs_pass(p, TileTest::InSuit(spec_suit(p.pair_tiles@[0]) as u8))
    &&& ranks_run(p, 1) || ranks_run(p, 2) || ranks_run(p, 3)
}

/// Each of the seven ranks from `x` holds exactly one of the pairs.
pub open spec fn ranks_run(p: HandProfile, x: int) -> bool {
    forall|k: int| 0 <= k < 7 ==> #[trigger] pair_rank_count(p, x + k) == 1
}

/// Each of the seven ranks from `x` holds exactly one pair.
fn ranks_run_from(p: &HandProfile, x: u8) -> (r: bool)
    requires
        1 <= x <= 3,
    ensures
        r == ranks_run(*p, x as int),
{
    let mut k: u8 = 0;
    while k < 7
        invariant
            k <= 7,
            1 <= x <= 3,
            forall|j: int| 0 <= j < k ==> #[trigger] pair_rank_count(*p, x + j) == 1,
        decreases 7 - k,
    {
        if pair_rank_count_exec(p, x + k) != 1 {
            assert(pair_rank_count(*p, x + k as int) != 1);
            return false;
        }
        k = k + 1;
    }
    true
}

pub fn seven_shifted_pairs(
    profile: &HandProfile,
    _static_ctx: &StaticFanContext,
    _dynamic_ctx: &DynamicFanContext,
    _wait_type: WaitType,
) -> (r: Vec<FanInstance>)
    requires
        profile.wf(),
    ensures
        r@ == emit(seven_shifted_pairs_fires(*profile), FanType::SevenShiftedPairs, 0, true),
{
    let fires = profile.kind == ProfileKind::SevenPairs && all_pair_tiles(
        profile,
        TileTest::InSuit(suit_of(profile.pair_tiles[0])),
    ) && (ranks_run_from(profile, 1) || ranks_run_from(profile, 2) || ranks_run_from(
        profile,
        3,
    ));
    fan_if(fires, FanType::SevenShiftedPairs, 0, true)
}

/// The thirteen terminals and honors, one of them doubled.
pub open spec fn thirteen_orphans_fires(p: HandProfile) -> bool {
    p.kind == ProfileKind::ThirteenOrphans
}

pub fn thirteen_orphans(
    profile: &HandProfile,
    _static_ctx: &StaticFanContext,
    _dynamic_ctx: &DynamicFanContext,
    _wait_type: WaitType,
) -> (r: Vec<FanInstance>)
    requires
        profile.wf(),
    ensures
        r@ == emit(thirteen_orphans_fires(*profile), FanType::ThirteenOrphans, 0, true),
{
    fan_if(profile.kind == ProfileKind::ThirteenOrphans, FanType::ThirteenOrphans, 0, true)
}

// ── 64 points ────────────────────────────────────────────────────

/// Ones and nines only, judged by the naming tile of each set.
pub open spec fn all_terminals_fires(p: HandProfile) -> bool {
    match p.kind {
        ProfileKind::Standard => p.all_pass(MeldTest::TerminalTile) && spec_is_terminal(
            p.pair.tile,
        ),
        ProfileKind::SevenPairs => all_pairs_pass(p, TileTest::Terminal),
        ProfileKind::ThirteenOrphans => false,
    }
}

pub fn all_terminals(
    profile: &HandProfile,
    _static_ctx: &StaticFanContext,
    _dynamic_ctx: &DynamicFanContext,
    _wait_type: WaitType,
) -> (r: Vec<FanInstance>)
    requires
        profile.wf(),
    ensures
        r@ == emit(all_terminals_fires(*profile), FanType::AllTerminals, 0, true),
{
    let fires = match profile.kind {
        ProfileKind::Standard => all_melds(profile, MeldTest::TerminalTile) && is_terminal_tile(
            profile.pair.tile,
        ),
        ProfileKind::SevenPairs => all_pair_tiles(profile, TileTest::Terminal),
        ProfileKind::ThirteenOrphans => false,
    };
    fan_if(fires, FanType::AllTerminals, 0, true)
}

/// Three wind pungs or kongs and a pair of the fourth wind.
pub open spec fn little_four_winds_fires(p: HandProfile) -> bool {
    &&& p.kind == ProfileKind::Standard
    &&& p.pair.is_wind
    &&& p.count_pass(MeldTest::WindPung) >= 3
    &&& has_meld_tile(p, MeldTest::WindPung, Tile::East) || p.pair.tile == Tile::East
    &&& has_meld_tile(p, MeldTest::WindPung, Tile::South) || p.pair.tile == Tile::South
    &&& has_meld_tile(p, MeldTest::WindPung, Tile::West) || p.pair.tile == Tile::West
    &&& has_meld_tile(p, MeldTest::WindPung, Tile::North) || p.pair.tile == Tile::North
}

pub fn little_four_winds(
    profile: &HandProfile,
    _static_ctx: &StaticFanContext,
    _dynamic_ctx: &DynamicFanContext,
    _wait_type: WaitType,
) -> (r: Vec<FanInstance>)
    requires
        profile.wf(),
    ensures
        r@ == emit(little_four_winds_fires(*profile), FanType::LittleFourWinds, 15, true),
{
    let p = profile;
    let fires = p.is_standard() && p.pair.is_wind && count_melds(p, MeldTest::WindPung) >= 3
        && (meld_with_tile(p, MeldTest::WindPung, Tile::East) || p.pair.tile == Tile::East)
        && (meld_with_tile(p, MeldTest::WindPung, Tile::South) || p.pair.tile == Tile::South)
        && (meld_with_tile(p, MeldTest::WindPung, Tile::West) || p.pair.tile == Tile::West)
        && (meld_with_tile(p, MeldTest::WindPung, Tile::North) || p.pair.tile == Tile::North);
    fan_if(fires, FanType::LittleFourWinds, 15, true)
}

/// Two dragon pungs or kongs and a pair of the third dragon.
pub open spec fn little_three_dragons_fires(p: HandProfile) -> bool {
    &&& p.kind == ProfileKind::Standard
    &&& p.count_pass(MeldTest::DragonPung) == 2
    &&& p.pair.is_dragon
    &&& has_meld_tile(p, MeldTest::DragonPung, Tile::Red) || p.pair.tile == Tile::Red
    &&& has_meld_tile(p, MeldTest::DragonPung, Tile::Green) || p.pair.tile == Tile::Green
    &&& has_meld_tile(p, MeldTest::DragonPung, Tile::White) || p.pair.tile == Tile::White
}

pub fn little_three_dragons(
    profile: &HandProfile,
    _static_ctx: &StaticFanContext,
    _dynamic_ctx: &DynamicFanContext,
    _wait_type: WaitType,
) -> (r: Vec<FanInstance>)
    requires
        profile.wf(),
    ensures
        r@ == emit(little_three_dragons_fires(*profile), FanType::LittleThreeDragons, 15, true),
{
    let p = profile;
    let fires = p.is_standard() && count_melds(p, MeldTest::DragonPung) == 2 && p.pair.is_dragon
        && (meld_with_tile(p, MeldTest::DragonPung, Tile::Red) || p.pair.tile == Tile::Red)
        && (meld_with_tile(p, MeldTest::DragonPung, Tile::Green) || p.pair.tile == Tile::Green)
        && (meld_with_tile(p, MeldTest::DragonPung, Tile::White) || p.pair.tile == Tile::White);
    fan_if(fires, FanType::LittleThreeDragons, 15, true)
}

/// Honors only.
pub open spec fn all_honors_fires(p: HandProfile) -> bool {
    p.kind == ProfileKind::Standard && p.all_pass(MeldTest::Honor) && p.pair.is_honor
}

pub fn all_honors(
    profile: &HandProfile,
    _static_ctx: &StaticFanContext,
    _dynamic_ctx: &DynamicFanContext,
    _wait_type: WaitType,
) -> (r: Vec<FanInstance>)
    requires
        profile.wf(),
    ensures
        r@ == emit(all_honors_fires(*profile), FanType::AllHonors, 0, true),
{
    let fires = profile.is_standard() && all_melds(profile, MeldTest::Honor)
        && profile.pair.is_honor;
    fan_if(fires, FanType::AllHonors, 0, true)
}

/// Four concealed pungs or kongs.
pub open spec fn four_concealed_pungs_fires(p: HandProfile) -> bool {
    p.kind == ProfileKind::Standard && p.n_sets == 4 && p.all_pass(MeldTest::ConcealedPungOrKong)
}

pub fn four_concealed_pungs(
    profile: &HandProfile,
    _static_ctx: &StaticFanContext,
    _dynamic_ctx: &DynamicFanContext,
    _wait_type: WaitType,
) -> (r: Vec<FanInstance>)
    requires
        profile.wf(),
    ensures
        r@ == emit(four_concealed_pungs_fires(*profile), FanType::FourConcealedPungs, 15, false),
{
    let fires = profile.is_standard() && profile.n_sets == 4 && all_melds(
        profile,
        MeldTest::ConcealedPungOrKong,
    );
    fan_if(fires, FanType::FourConcealedPungs, 15, false)
}

/// Two chows 1-2-3, two chows 7-8-9 and a pair of fives, all in one suit.
pub open spec fn pure_terminal_chows_fires(p: HandProfile) -> bool {
    let s = p.meld(0).suit;
    &&& p.kind == ProfileKind::Standard
    &&& p.n_sets == 4
    &&& !p.pair.is_honor && p.pair.rank == 5
    &&& p.pair.suit == s
    &&& p.all_pass(MeldTest::Chow)
    &&& p.all_pass(MeldTest::InSuit(s))
    &&& p.count_pass(MeldTest::RankIn(1, 1)) == 2
    &&& p.count_pass(MeldTest::RankIn(7, 7)) == 2
}

pub fn pure_terminal_chows(
    profile: &HandProfile,
    _static_ctx: &StaticFanContext,
    _dynamic_ctx: &DynamicFanContext,
    _wait_type: WaitType,
) -> (r: Vec<FanInstance>)
    requires
        profile.wf(),
    ensures
        r@ == emit(pure_terminal_chows_fires(*profile), FanType::PureTerminalChows, 0, true),
{
    let p = profile;
    let s = p.melds[0].suit;
    let fires = p.is_standard() && p.n_sets == 4 && !p.pair.is_honor && p.pair.rank == 5
        && p.pair.suit == s && all_melds(p, MeldTest::Chow) && all_melds(p, MeldTest::InSuit(s))
        && count_melds(p, MeldTest::RankIn(1, 1)) == 2 && count_melds(p, MeldTest::RankIn(7, 7))
        == 2;
    fan_if(fires, FanType::PureTerminalChows, 0, true)
}

// ── 48 points ────────────────────────────────────────────────────

/// Four identical chows.
pub open spec fn quadruple_chow_fires(p: HandProfile) -> bool {
    p.kind == ProfileKind::Standard && four_sets(p, QuadTest::QuadrupleChow)
}

pub fn quadruple_chow(
    profile: &HandProfile,
    _static_ctx: &StaticFanContext,
    _dynamic_ctx: &DynamicFanContext,
    _wait_type: WaitType,
) -> (r: Vec<FanInstance>)
    requires
        profile.wf(),
    ensures
        r@ == emit(quadruple_chow_fires(*profile), FanType::QuadrupleChow, 15, false),
{
    let fires = profile.is_standard() && four_sets_exec(profile, QuadTest::QuadrupleChow);
    fan_if(fires, FanType::QuadrupleChow, 15, false)
}

/// Four pungs or kongs of one suit, each one rank above the last.
pub open spec fn four_pure_shifted_pungs_fires(p: HandProfile) -> bool {
    p.kind == ProfileKind::Standard && four_sets(p, QuadTest::FourPureShiftedPungs)
}

pub fn four_pure_shifted_pungs(
    profile: &HandProfile,
    _static_ctx: &StaticFanContext,
    _dynamic_ctx: &DynamicFanContext,
    _wait_type: WaitType,
) -> (r: Vec<FanInstance>)
    requires
        profile.wf(),
    ensures
        r@ == emit(
            four_pure_shifted_pungs_fires(*profile),
            FanType::FourPureShiftedPungs,
            15,
            false,
        ),
{
    let fires = profile.is_standard() && four_sets_exec(profile, QuadTest::FourPureShiftedPungs);
    fan_if(fires, FanType::FourPureShiftedPungs, 15, false)
}

} // verus!
