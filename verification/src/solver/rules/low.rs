//! The 4, 2 and 1 point fans.

use vstd::prelude::*;

use super::helpers::{
    all_melds, any_meld, bit_exec, count_melds,
    count_suits_used, emit, fan_if, first_meld, first_passing, mask_melds, partner_mask,
    partner_mask_exec, suits_used, tile_count, tile_count_exec, PairTest,
};
use crate::solver::types::FanType;
use crate::solver::view::{
    bit_value, is_honor_tile, is_terminal_tile, spec_is_honor, spec_is_terminal, HandProfile,
    MeldKind, MeldTest, ProfileKind,
};
use crate::solver::{DynamicFanContext, FanInstance, StaticFanContext, WaitType, WinMethod};

verus! {

// ── 4 points ─────────────────────────────────────────────────────

/// A terminal or an honor in every set and in the pair.
pub open spec fn outside_hand_fires(p: HandProfile) -> bool {
    &&& p.kind == ProfileKind::Standard
    &&& p.all_pass(MeldTest::Outside)
    &&& spec_is_terminal(p.pair.tile) || spec_is_honor(p.pair.tile)
}

pub fn outside_hand(
    profile: &HandProfile,
    _static_ctx: &StaticFanContext,
    _dynamic_ctx: &DynamicFanContext,
    _wait_type: WaitType,
) -> (r: Vec<FanInstance>)
    requires
        profile.wf(),
    ensures
        r@ == emit(outside_hand_fires(*profile), FanType::OutsideHand, 0, true),
{
    let fires = profile.is_standard() && all_melds(profile, MeldTest::Outside) && (
    is_terminal_tile(profile.pair.tile) || is_honor_tile(profile.pair.tile));
    fan_if(fires, FanType::OutsideHand, 0, true)
}

/// Self-drawn with no set declared from a discard.
pub fn fully_concealed(
    _profile: &HandProfile,
    static_ctx: &StaticFanContext,
    _dynamic_ctx: &DynamicFanContext,
    _wait_type: WaitType,
) -> (r: Vec<FanInstance>)
    ensures
        r@ == emit(static_ctx.is_fully_concealed, FanType::FullyConcealed, 0, true),
{
    fan_if(static_ctx.is_fully_concealed, FanType::FullyConcealed, 0, true)
}

/// Two kongs declared from discards.
pub open spec fn two_melded_kongs_fires(p: HandProfile) -> bool {
    p.kind == ProfileKind::Standard && p.count_pass(MeldTest::MeldedKong) >= 2
}

pub fn two_melded_kongs(
    profile: &HandProfile,
    _static_ctx: &StaticFanContext,
    _dynamic_ctx: &DynamicFanContext,
    _wait_type: WaitType,
) -> (r: Vec<FanInstance>)
    requires
        profile.wf(),
    ensures
        r@ == emit(two_melded_kongs_fires(*profile), FanType::TwoMeldedKongs, 15, false),
{
    let fires = profile.is_standard() && count_melds(profile, MeldTest::MeldedKong) >= 2;
    fan_if(fires, FanType::TwoMeldedKongs, 15, false)
}

/// Winning on the last tile of its kind.
pub fn last_tile(
    _profile: &HandProfile,
    static_ctx: &StaticFanContext,
    _dynamic_ctx: &DynamicFanContext,
    _wait_type: WaitType,
) -> (r: Vec<FanInstance>)
    ensures
        r@ == emit(static_ctx.is_last_tile_of_kind, FanType::LastTile, 0, false),
{
    fan_if(static_ctx.is_last_tile_of_kind, FanType::LastTile, 0, false)
}

// ── 2 points ─────────────────────────────────────────────────────

/// A pung or kong of dragons, over every such set.
pub open spec fn dragon_pung_fires(p: HandProfile) -> bool {
    p.kind == ProfileKind::Standard && p.mask_pass(MeldTest::DragonPung) != 0
}

pub fn dragon_pung(
    profile: &HandProfile,
    _static_ctx: &StaticFanContext,
    _dynamic_ctx: &DynamicFanContext,
    _wait_type: WaitType,
) -> (r: Vec<FanInstance>)
    requires
        profile.wf(),
    ensures
        r@ == emit(
            dragon_pung_fires(*profile),
            FanType::DragonPung,
            profile.mask_pass(MeldTest::DragonPung),
            false,
        ),
{
    if !profile.is_standard() {
        return fan_if(false, FanType::DragonPung, 0, false);
    }
    let mask = mask_melds(profile, MeldTest::DragonPung);
    fan_if(mask != 0, FanType::DragonPung, mask, false)
}

/// The first pung (not kong) of `target`, as a one-set mask.
pub open spec fn wind_pung_mask(p: HandProfile, target: crate::structs::Tile) -> int {
    if p.any_pass(MeldTest::PungOf(target)) {
        bit_value(choose|i: int| first_passing(p, MeldTest::PungOf(target), i))
    } else {
        0
    }
}

/// A pung of the wind of the round.
pub open spec fn prevalent_wind_fires(p: HandProfile, s: StaticFanContext) -> bool {
    p.kind == ProfileKind::Standard && p.any_pass(MeldTest::PungOf(s.prevalent_wind.spec_tile()))
}

/// The first set found by `first_meld` is the one `choose` names.
proof fn lemma_first_unique(p: HandProfile, t: MeldTest, i: int)
    requires
        first_passing(p, t, i),
    ensures
        (choose|j: int| first_passing(p, t, j)) == i,
{
    let j = choose|j: int| first_passing(p, t, j);
    assert(first_passing(p, t, j));
    if j < i {
        assert(!crate::solver::view::meld_passes(t, p.meld(j)));
    } else if j > i {
        assert(!crate::solver::view::meld_passes(t, p.meld(i)));
    }
}

fn wind_pung(profile: &HandProfile, target: crate::structs::Tile, ft: FanType) -> (r: Vec<FanInstance>)
    requires
        profile.wf(),
    ensures
        r@ == emit(
            profile.kind == ProfileKind::Standard && profile.any_pass(MeldTest::PungOf(target)),
            ft,
            wind_pung_mask(*profile, target),
            false,
        ),
{
    if !profile.is_standard() {
        return fan_if(false, ft, 0, false);
    }
    match first_meld(profile, MeldTest::PungOf(target)) {
        Some(i) => {
            proof {
                lemma_first_unique(*profile, MeldTest::PungOf(target), i as int);
                assert(crate::solver::view::meld_passes(MeldTest::PungOf(target), profile.meld(i as int)));
            }
            fan_if(true, ft, bit_exec(i), false)
        },
        None => fan_if(false, ft, 0, false),
    }
}

pub fn prevalent_wind(
    profile: &HandProfile,
    static_ctx: &StaticFanContext,
    _dynamic_ctx: &DynamicFanContext,
    _wait_type: WaitType,
) -> (r: Vec<FanInstance>)
    requires
        profile.wf(),
    ensures
        r@ == emit(
            prevalent_wind_fires(*profile, *static_ctx),
            FanType::PrevalentWind,
            wind_pung_mask(*profile, static_ctx.prevalent_wind.spec_tile()),
            false,
        ),
{
    let target = static_ctx.prevalent_wind.to_tile();
    wind_pung(profile, target, FanType::PrevalentWind)
}

/// A pung of the seat wind.
pub open spec fn seat_wind_fires(p: HandProfile, s: StaticFanContext) -> bool {
    p.kind == ProfileKind::Standard && p.any_pass(MeldTest::PungOf(s.seat_wind.spec_tile()))
}

pub fn seat_wind(
    profile: &HandProfile,
    static_ctx: &StaticFanContext,
    _dynamic_ctx: &DynamicFanContext,
    _wait_type: WaitType,
) -> (r: Vec<FanInstance>)
    requires
        profile.wf(),
    ensures
        r@ == emit(
            seat_wind_fires(*profile, *static_ctx),
            FanType::SeatWind,
            wind_pung_mask(*profile, static_ctx.seat_wind.spec_tile()),
            false,
        ),
{
    let target = static_ctx.seat_wind.to_tile();
    wind_pung(profile, target, FanType::SeatWind)
}

/// Concealed, winning on a discard.
pub open spec fn concealed_hand_fires(s: StaticFanContext) -> bool {
    s.is_concealed && s.win_method == WinMethod::Discard
}

pub fn concealed_hand(
    _profile: &HandProfile,
    static_ctx: &StaticFanContext,
    _dynamic_ctx: &DynamicFanContext,
    _wait_type: WaitType,
) -> (r: Vec<FanInstance>)
    ensures
        r@ == emit(concealed_hand_fires(*static_ctx), FanType::ConcealedHand, 0, false),
{
    let fires = static_ctx.is_concealed && static_ctx.win_method == WinMethod::Discard;
    fan_if(fires, FanType::ConcealedHand, 0, false)
}

/// Chows only, with a pair of suit tiles.
pub open spec fn all_chows_fires(p: HandProfile) -> bool {
    &&& p.kind == ProfileKind::Standard
    &&& p.n_sets > 0
    &&& p.all_pass(MeldTest::Chow)
    &&& !p.pair.is_honor
}

pub fn all_chows(
    profile: &HandProfile,
    _static_ctx: &StaticFanContext,
    _dynamic_ctx: &DynamicFanContext,
    _wait_type: WaitType,
) -> (r: Vec<FanInstance>)
    requires
        profile.wf(),
    ensures
        r@ == emit(all_chows_fires(*profile), FanType::AllChows, 0, true),
{
    let fires = profile.is_standard() && profile.n_sets > 0 && all_melds(profile, MeldTest::Chow)
        && !profile.pair.is_honor;
    fan_if(fires, FanType::AllChows, 0, true)
}

/// Some rank of suit `s` is held four times, counting every set and the
/// pair (a kong counts four).
pub open spec fn hog_in_suit(p: HandProfile, s: int) -> bool {
    exists|r: int| 1 <= r <= 9 && #[trigger] tile_count(p, s, r) >= 4
}

fn hog_in_suit_exec(p: &HandProfile, s: u8) -> (found: bool)
    requires
        p.n_sets <= 4,
    ensures
        found == hog_in_suit(*p, s as int),
{
    let mut r: u8 = 1;
    while r <= 9
        invariant
            1 <= r <= 10,
            p.n_sets <= 4,
            forall|q: int| 1 <= q < r ==> #[trigger] tile_count(*p, s as int, q) < 4,
        decreases 10 - r,
    {
        if tile_count_exec(p, s, r) >= 4 {
            assert(tile_count(*p, s as int, r as int) >= 4);
            return true;
        }
        r = r + 1;
    }
    false
}

/// Four tiles of one kind among the sets and the pair.
pub open spec fn tile_hog_fires(p: HandProfile) -> bool {
    p.kind == ProfileKind::Standard && (hog_in_suit(p, 0) || hog_in_suit(p, 1) || hog_in_suit(p, 2))
}

pub fn tile_hog(
    profile: &HandProfile,
    _static_ctx: &StaticFanContext,
    _dynamic_ctx: &DynamicFanContext,
    _wait_type: WaitType,
) -> (r: Vec<FanInstance>)
    requires
        profile.wf(),
    ensures
        r@ == emit(tile_hog_fires(*profile), FanType::TileHog, 0, true),
{
    let fires = profile.is_standard() && (hog_in_suit_exec(profile, 0) || hog_in_suit_exec(
        profile,
        1,
    ) || hog_in_suit_exec(profile, 2));
    fan_if(fires, FanType::TileHog, 0, true)
}

/// Pungs or kongs of one rank in two suits, over every such set.
pub open spec fn double_pung_fires(p: HandProfile) -> bool {
    p.kind == ProfileKind::Standard && partner_mask(p, PairTest::DoublePung) != 0
}

fn pair_fan(profile: &HandProfile, t: PairTest, ft: FanType) -> (r: Vec<FanInstance>)
    requires
        profile.wf(),
    ensures
        r@ == emit(
            profile.kind == ProfileKind::Standard && partner_mask(*profile, t) != 0,
            ft,
            partner_mask(*profile, t),
            false,
        ),
{
    if !profile.is_standard() {
        return fan_if(false, ft, 0, false);
    }
    let mask = partner_mask_exec(profile, t);
    fan_if(mask != 0, ft, mask, false)
}

pub fn double_pung(
    profile: &HandProfile,
    _static_ctx: &StaticFanContext,
    _dynamic_ctx: &DynamicFanContext,
    _wait_type: WaitType,
) -> (r: Vec<FanInstance>)
    requires
        profile.wf(),
    ensures
        r@ == emit(
            double_pung_fires(*profile),
            FanType::DoublePung,
            partner_mask(*profile, PairTest::DoublePung),
            false,
        ),
{
    pair_fan(profile, PairTest::DoublePung, FanType::DoublePung)
}

/// Two concealed sets.
pub open spec fn two_concealed_pungs_fires(p: HandProfile) -> bool {
    p.kind == ProfileKind::Standard && p.count_pass(MeldTest::Concealed) >= 2
}

pub fn two_concealed_pungs(
    profile: &HandProfile,
    _static_ctx: &StaticFanContext,
    _dynamic_ctx: &DynamicFanContext,
    _wait_type: WaitType,
) -> (r: Vec<FanInstance>)
    requires
        profile.wf(),
    ensures
        r@ == emit(two_concealed_pungs_fires(*profile), FanType::TwoConcealedPungs, 15, false),
{
    let fires = profile.is_standard() && count_melds(profile, MeldTest::Concealed) >= 2;
    fan_if(fires, FanType::TwoConcealedPungs, 15, false)
}

/// A concealed kong, over every such set.
pub open spec fn concealed_kong_fires(p: HandProfile) -> bool {
    p.kind == ProfileKind::Standard && p.mask_pass(MeldTest::ConcealedKong) != 0
}

pub fn concealed_kong(
    profile: &HandProfile,
    _static_ctx: &StaticFanContext,
    _dynamic_ctx: &DynamicFanContext,
    _wait_type: WaitType,
) -> (r: Vec<FanInstance>)
    requires
        profile.wf(),
    ensures
        r@ == emit(
            concealed_kong_fires(*profile),
            FanType::ConcealedKong,
            profile.mask_pass(MeldTest::ConcealedKong),
            false,
        ),
{
    if !profile.is_standard() {
        return fan_if(false, FanType::ConcealedKong, 0, false);
    }
    let mask = mask_melds(profile, MeldTest::ConcealedKong);
    fan_if(mask != 0, FanType::ConcealedKong, mask, false)
}

/// No terminals and no honors.
pub open spec fn all_simples_fires(p: HandProfile) -> bool {
    &&& p.kind == ProfileKind::Standard
    &&& p.all_pass(MeldTest::Simple)
    &&& p.pair.suit < 3 && !p.pair.is_terminal
}

pub fn all_simples(
    profile: &HandProfile,
    _static_ctx: &StaticFanContext,
    _dynamic_ctx: &DynamicFanContext,
    _wait_type: WaitType,
) -> (r: Vec<FanInstance>)
    requires
        profile.wf(),
    ensures
        r@ == emit(all_simples_fires(*profile), FanType::AllSimples, 0, true),
{
    let fires = profile.is_standard() && all_melds(profile, MeldTest::Simple) && profile.pair.suit
        < 3 && !profile.pair.is_terminal;
    fan_if(fires, FanType::AllSimples, 0, true)
}

// ── 1 point ──────────────────────────────────────────────────────

/// Two identical chows, over every chow that has a twin.
pub open spec fn pure_double_chow_fires(p: HandProfile) -> bool {
    p.kind == ProfileKind::Standard && partner_mask(p, PairTest::PureDoubleChow) != 0
}

pub fn pure_double_chow(
    profile: &HandProfile,
    _static_ctx: &StaticFanContext,
    _dynamic_ctx: &DynamicFanContext,
    _wait_type: WaitType,
) -> (r: Vec<FanInstance>)
    requires
        profile.wf(),
    ensures
        r@ == emit(
            pure_double_chow_fires(*profile),
            FanType::PureDoubleChow,
            partner_mask(*profile, PairTest::PureDoubleChow),
            false,
        ),
{
    pair_fan(profile, PairTest::PureDoubleChow, FanType::PureDoubleChow)
}

/// Two chows of the same ranks in two suits.
pub open spec fn mixed_double_chow_fires(p: HandProfile) -> bool {
    p.kind == ProfileKind::Standard && partner_mask(p, PairTest::MixedDoubleChow) != 0
}

pub fn mixed_double_chow(
    profile: &HandProfile,
    _static_ctx: &StaticFanContext,
    _dynamic_ctx: &DynamicFanContext,
    _wait_type: WaitType,
) -> (r: Vec<FanInstance>)
    requires
        profile.wf(),
    ensures
        r@ == emit(
            mixed_double_chow_fires(*profile),
            FanType::MixedDoubleChow,
            partner_mask(*profile, PairTest::MixedDoubleChow),
            false,
        ),
{
    pair_fan(profile, PairTest::MixedDoubleChow, FanType::MixedDoubleChow)
}

/// Two chows of one suit three ranks apart.
pub open spec fn short_straight_fires(p: HandProfile) -> bool {
    p.kind == ProfileKind::Standard && partner_mask(p, PairTest::ShortStraight) != 0
}

pub fn short_straight(
    profile: &HandProfile,
    _static_ctx: &StaticFanContext,
    _dynamic_ctx: &DynamicFanContext,
    _wait_type: WaitType,
) -> (r: Vec<FanInstance>)
    requires
        profile.wf(),
    ensures
        r@ == emit(
            short_straight_fires(*profile),
            FanType::ShortStraight,
            partner_mask(*profile, PairTest::ShortStraight),
            false,
        ),
{
    pair_fan(profile, PairTest::ShortStraight, FanType::ShortStraight)
}

/// Set `i` is a chow 1-2-3 or 7-8-9 of a suit that holds both.
pub open spec fn terminal_chow_member(p: HandProfile, i: int) -> bool {
    let m = p.meld(i);
    &&& m.kind == MeldKind::Chow
    &&& m.suit < 3
    &&& m.rank == 1 || m.rank == 7
    &&& p.any_pass(MeldTest::ChowOf(m.suit, 1))
    &&& p.any_pass(MeldTest::ChowOf(m.suit, 7))
}

pub open spec fn terminal_chow_mask_upto(p: HandProfile, k: int) -> int
    decreases k,
{
    if k <= 0 {
        0
    } else {
        terminal_chow_mask_upto(p, k - 1) + if terminal_chow_member(p, k - 1) {
            bit_value(k - 1)
        } else {
            0
        }
    }
}

/// The chows 1-2-3 and 7-8-9 of every suit that holds both.
pub open spec fn terminal_chow_mask(p: HandProfile) -> int {
    terminal_chow_mask_upto(p, p.n_sets as int)
}

/// A chow 1-2-3 and a chow 7-8-9 of one suit.
pub open spec fn two_terminal_chows_fires(p: HandProfile) -> bool {
    p.kind == ProfileKind::Standard && terminal_chow_mask(p) != 0
}

pub fn two_terminal_chows(
    profile: &HandProfile,
    _static_ctx: &StaticFanContext,
    _dynamic_ctx: &DynamicFanContext,
    _wait_type: WaitType,
) -> (r: Vec<FanInstance>)
    requires
        profile.wf(),
    ensures
        r@ == emit(
            two_terminal_chows_fires(*profile),
            FanType::TwoTerminalChows,
            terminal_chow_mask(*profile),
            false,
        ),
{
    if !profile.is_standard() {
        return fan_if(false, FanType::TwoTerminalChows, 0, false);
    }
    let n = profile.n_sets as usize;
    let mut mask: u64 = 0;
    let mut i: usize = 0;
    while i < n
        invariant
            profile.wf(),
            n == profile.n_sets,
            i <= n,
            mask == terminal_chow_mask_upto(*profile, i as int),
            mask <= super::helpers::mask_bound(i as int),
        decreases n - i,
    {
        let m = &profile.melds[i];
        let member = m.kind == MeldKind::Chow && m.suit < 3 && (m.rank == 1 || m.rank == 7)
            && any_meld(profile, MeldTest::ChowOf(m.suit, 1)) && any_meld(
            profile,
            MeldTest::ChowOf(m.suit, 7),
        );
        if member {
            mask = mask + bit_exec(i);
        }
        i = i + 1;
    }
    fan_if(mask != 0, FanType::TwoTerminalChows, mask, false)
}

/// A pung or kong of ones, nines or winds, over every such set.
pub open spec fn pung_of_terminals_or_honors_fires(p: HandProfile) -> bool {
    p.kind == ProfileKind::Standard && p.mask_pass(MeldTest::TerminalOrWindPung) != 0
}

pub fn pung_of_terminals_or_honors(
    profile: &HandProfile,
    _static_ctx: &StaticFanContext,
    _dynamic_ctx: &DynamicFanContext,
    _wait_type: WaitType,
) -> (r: Vec<FanInstance>)
    requires
        profile.wf(),
    ensures
        r@ == emit(
            pung_of_terminals_or_honors_fires(*profile),
            FanType::PungOfTerminalsOrHonors,
            profile.mask_pass(MeldTest::TerminalOrWindPung),
            false,
        ),
{
    if !profile.is_standard() {
        return fan_if(false, FanType::PungOfTerminalsOrHonors, 0, false);
    }
    let mask = mask_melds(profile, MeldTest::TerminalOrWindPung);
    fan_if(mask != 0, FanType::PungOfTerminalsOrHonors, mask, false)
}

/// A kong declared from a discard, over every such set.
pub open spec fn melded_kong_fires(p: HandProfile) -> bool {
    p.kind == ProfileKind::Standard && p.mask_pass(MeldTest::MeldedKong) != 0
}

pub fn melded_kong(
    profile: &HandProfile,
    _static_ctx: &StaticFanContext,
    _dynamic_ctx: &DynamicFanContext,
    _wait_type: WaitType,
) -> (r: Vec<FanInstance>)
    requires
        profile.wf(),
    ensures
        r@ == emit(
            melded_kong_fires(*profile),
            FanType::MeldedKong,
            profile.mask_pass(MeldTest::MeldedKong),
            false,
        ),
{
    if !profile.is_standard() {
        return fan_if(false, FanType::MeldedKong, 0, false);
    }
    let mask = mask_melds(profile, MeldTest::MeldedKong);
    fan_if(mask != 0, FanType::MeldedKong, mask, false)
}

/// One or two of the three suits appear.
pub open spec fn one_voided_suit_fires(p: HandProfile) -> bool {
    p.kind == ProfileKind::Standard && 1 <= suits_used(p) <= 2
}

pub fn one_voided_suit(
    profile: &HandProfile,
    _static_ctx: &StaticFanContext,
    _dynamic_ctx: &DynamicFanContext,
    _wait_type: WaitType,
) -> (r: Vec<FanInstance>)
    requires
        profile.wf(),
    ensures
        r@ == emit(one_voided_suit_fires(*profile), FanType::OneVoidedSuit, 0, true),
{
    if !profile.is_standard() {
        return fan_if(false, FanType::OneVoidedSuit, 0, true);
    }
    let c = count_suits_used(profile);
    fan_if(1 <= c && c <= 2, FanType::OneVoidedSuit, 0, true)
}

/// No honor anywhere, in a standard or a seven-pairs hand.
pub open spec fn no_honors_fires(p: HandProfile) -> bool {
    match p.kind {
        ProfileKind::Standard => !p.any_pass(MeldTest::Honor) && !p.pair.is_honor,
        ProfileKind::SevenPairs => !(exists|i: int| 0 <= i < 7 && spec_is_honor(#[trigger] p.pair_tiles@[i])),
        ProfileKind::ThirteenOrphans => false,
    }
}

pub fn no_honors(
    profile: &HandProfile,
    _static_ctx: &StaticFanContext,
    _dynamic_ctx: &DynamicFanContext,
    _wait_type: WaitType,
) -> (r: Vec<FanInstance>)
    requires
        profile.wf(),
    ensures
        r@ == emit(no_honors_fires(*profile), FanType::NoHonors, 0, true),
{
    let fires = match profile.kind {
        ProfileKind::Standard => !any_meld(profile, MeldTest::Honor) && !profile.pair.is_honor,
        ProfileKind::SevenPairs => {
            let mut i: usize = 0;
            let mut found = false;
            while i < 7
                invariant
                    i <= 7,
                    found == exists|j: int| 0 <= j < i && spec_is_honor(#[trigger] profile.pair_tiles@[j]),
                decreases 7 - i,
            {
                if is_honor_tile(profile.pair_tiles[i]) {
                    found = true;
                }
                i = i + 1;
            }
            !found
        },
        ProfileKind::ThirteenOrphans => false,
    };
    fan_if(fires, FanType::NoHonors, 0, true)
}

/// Waiting on 3 to complete 1-2-3, or on 7 to complete 7-8-9.
pub fn edge_wait(
    _profile: &HandProfile,
    _static_ctx: &StaticFanContext,
    _dynamic_ctx: &DynamicFanContext,
    wait_type: WaitType,
) -> (r: Vec<FanInstance>)
    ensures
        r@ == emit(wait_type == WaitType::Edge, FanType::EdgeWait, 0, false),
{
    fan_if(wait_type == WaitType::Edge, FanType::EdgeWait, 0, false)
}

/// Waiting on the middle tile of a chow.
pub fn closed_wait(
    _profile: &HandProfile,
    _static_ctx: &StaticFanContext,
    _dynamic_ctx: &DynamicFanContext,
    wait_type: WaitType,
) -> (r: Vec<FanInstance>)
    ensures
        r@ == emit(wait_type == WaitType::Closed, FanType::ClosedWait, 0, false),
{
    fan_if(wait_type == WaitType::Closed, FanType::ClosedWait, 0, false)
}

/// Waiting on the tile that completes the pair.
pub fn single_wait(
    _profile: &HandProfile,
    _static_ctx: &StaticFanContext,
    _dynamic_ctx: &DynamicFanContext,
    wait_type: WaitType,
) -> (r: Vec<FanInstance>)
    ensures
        r@ == emit(wait_type == WaitType::Single, FanType::SingleWait, 0, false),
{
    fan_if(wait_type == WaitType::Single, FanType::SingleWait, 0, false)
}

/// Winning on a tile drawn from the wall.
pub fn self_drawn(
    _profile: &HandProfile,
    static_ctx: &StaticFanContext,
    _dynamic_ctx: &DynamicFanContext,
    _wait_type: WaitType,
) -> (r: Vec<FanInstance>)
    ensures
        r@ == emit(static_ctx.win_method == WinMethod::SelfDraw, FanType::SelfDrawn, 0, true),
{
    fan_if(static_ctx.win_method == WinMethod::SelfDraw, FanType::SelfDrawn, 0, true)
}

/// At least one flower.
pub fn flower_tiles(
    _profile: &HandProfile,
    static_ctx: &StaticFanContext,
    _dynamic_ctx: &DynamicFanContext,
    _wait_type: WaitType,
) -> (r: Vec<FanInstance>)
    ensures
        r@ == emit(static_ctx.flower_count > 0, FanType::FlowerTiles, 0, false),
{
    fan_if(static_ctx.flower_count > 0, FanType::FlowerTiles, 0, false)
}

} // verus!
