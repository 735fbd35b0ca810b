//! A flat view of one decomposition, read by every fan rule: each set and
//! the pair with their rank, suit and kind already taken apart.

use vstd::prelude::*;

use crate::structs::sets::is_chow_start;
use crate::structs::{Meld, Pair, Tile};
use super::decomposition::Decomposition;

verus! {

// ── Tile attributes ──────────────────────────────────────────────

/// The rank of a suit tile, 1 to 9; 0 for honors and flowers.
pub open spec fn spec_rank(t: Tile) -> int {
    let v = t.spec_id();
    if v <= 32 {
        v / 4 + 1
    } else if 64 <= v <= 96 {
        (v - 64) / 4 + 1
    } else if 128 <= v <= 160 {
        (v - 128) / 4 + 1
    } else {
        0
    }
}

/// The suit of a tile: 0 characters, 1 dots, 2 bamboos, 3 anything else.
pub open spec fn spec_suit(t: Tile) -> int {
    let v = t.spec_id();
    if v <= 32 {
        0
    } else if 64 <= v <= 96 {
        1
    } else if 128 <= v <= 160 {
        2
    } else {
        3
    }
}

pub open spec fn spec_is_terminal(t: Tile) -> bool {
    spec_rank(t) == 1 || spec_rank(t) == 9
}

pub open spec fn spec_is_honor(t: Tile) -> bool {
    spec_suit(t) == 3
}

pub open spec fn spec_is_dragon(t: Tile) -> bool {
    t == Tile::Red || t == Tile::Green || t == Tile::White
}

pub open spec fn spec_is_wind(t: Tile) -> bool {
    t == Tile::East || t == Tile::South || t == Tile::West || t == Tile::North
}

/// Tiles made of green alone: bamboos 2, 3, 4, 6, 8 and the green dragon.
pub open spec fn spec_is_green(t: Tile) -> bool {
    t == Tile::Bamboo2 || t == Tile::Bamboo3 || t == Tile::Bamboo4 || t == Tile::Bamboo6
        || t == Tile::Bamboo8 || t == Tile::Green
}

/// Tiles that look the same upside down.
pub open spec fn spec_is_reversible(t: Tile) -> bool {
    t == Tile::Dot1 || t == Tile::Dot2 || t == Tile::Dot3 || t == Tile::Dot4 || t == Tile::Dot5
        || t == Tile::Dot8 || t == Tile::Dot9 || t == Tile::Bamboo2 || t == Tile::Bamboo4
        || t == Tile::Bamboo5 || t == Tile::Bamboo6 || t == Tile::Bamboo8 || t == Tile::Bamboo9
        || t == Tile::White
}

pub open spec fn spec_is_even_rank(t: Tile) -> bool {
    spec_rank(t) > 0 && spec_rank(t) % 2 == 0
}

/// The rank of a suit tile, 1 to 9; 0 for honors and flowers.
pub fn rank_of(t: Tile) -> (r: u8)
    ensures
        r == spec_rank(t),
        r <= 9,
{
    let v = t.id();
    if v <= 32 {
        v / 4 + 1
    } else if 64 <= v && v <= 96 {
        (v - 64) / 4 + 1
    } else if 128 <= v && v <= 160 {
        (v - 128) / 4 + 1
    } else {
        0
    }
}

/// The suit of a tile: 0 characters, 1 dots, 2 bamboos, 3 anything else.
pub fn suit_of(t: Tile) -> (r: u8)
    ensures
        r == spec_suit(t),
        r <= 3,
{
    let v = t.id();
    if v <= 32 {
        0
    } else if 64 <= v && v <= 96 {
        1
    } else if 128 <= v && v <= 160 {
        2
    } else {
        3
    }
}

pub fn is_terminal_tile(t: Tile) -> (r: bool)
    ensures
        r == spec_is_terminal(t),
{
    let r = rank_of(t);
    r == 1 || r == 9
}

pub fn is_honor_tile(t: Tile) -> (r: bool)
    ensures
        r == spec_is_honor(t),
{
    suit_of(t) == 3
}

pub fn is_dragon_tile(t: Tile) -> (r: bool)
    ensures
        r == spec_is_dragon(t),
{
    t == Tile::Red || t == Tile::Green || t == Tile::White
}

pub fn is_wind_tile(t: Tile) -> (r: bool)
    ensures
        r == spec_is_wind(t),
{
    t == Tile::East || t == Tile::South || t == Tile::West || t == Tile::North
}

pub fn is_green_tile(t: Tile) -> (r: bool)
    ensures
        r == spec_is_green(t),
{
    t == Tile::Bamboo2 || t == Tile::Bamboo3 || t == Tile::Bamboo4 || t == Tile::Bamboo6
        || t == Tile::Bamboo8 || t == Tile::Green
}

pub fn is_reversible_tile(t: Tile) -> (r: bool)
    ensures
        r == spec_is_reversible(t),
{
    t == Tile::Dot1 || t == Tile::Dot2 || t == Tile::Dot3 || t == Tile::Dot4 || t == Tile::Dot5
        || t == Tile::Dot8 || t == Tile::Dot9 || t == Tile::Bamboo2 || t == Tile::Bamboo4
        || t == Tile::Bamboo5 || t == Tile::Bamboo6 || t == Tile::Bamboo8 || t == Tile::Bamboo9
        || t == Tile::White
}

pub fn is_even_rank(t: Tile) -> (r: bool)
    ensures
        r == spec_is_even_rank(t),
{
    let r = rank_of(t);
    r > 0 && r % 2 == 0
}

// ── Sets and pair taken apart ────────────────────────────────────

/// Which form of hand a profile describes.
#[derive(Clone, Copy, Debug, PartialEq, Eq, Structural)]
pub enum ProfileKind {
    Standard,
    SevenPairs,
    ThirteenOrphans,
}

#[derive(Clone, Copy, Debug, PartialEq, Eq, Structural)]
pub enum MeldKind {
    Chow,
    Pung,
    Kong,
}

/// One set with its attributes read off.
#[derive(Clone, Copy, Debug)]
pub struct MeldInfo {
    pub kind: MeldKind,
    /// The lowest tile of a chow, the repeated tile of a pung or kong.
    pub tile: Tile,
    /// The rank of `tile`; 0 for honors.
    pub rank: u8,
    /// 0 characters, 1 dots, 2 bamboos, 3 honors.
    pub suit: u8,
    pub is_concealed: bool,
    /// A chow 1-2-3 or 7-8-9, or a pung or kong of ones or nines.
    pub is_terminal: bool,
    pub is_honor: bool,
    pub is_dragon: bool,
    pub is_wind: bool,
    /// The tiles of the set; a chow repeats its first tile in the last slot.
    pub tiles: [Tile; 4],
}

/// The pair with its attributes read off.
#[derive(Clone, Copy, Debug)]
pub struct PairInfo {
    pub tile: Tile,
    pub rank: u8,
    pub suit: u8,
    pub is_terminal: bool,
    pub is_honor: bool,
    pub is_dragon: bool,
    pub is_wind: bool,
}

impl MeldInfo {
    pub open spec fn is_chow(self) -> bool {
        self.kind == MeldKind::Chow
    }

    pub open spec fn is_pung_or_kong(self) -> bool {
        self.kind == MeldKind::Pung || self.kind == MeldKind::Kong
    }

    /// The attributes describe the set `m`.
    pub open spec fn describes(self, m: Meld) -> bool {
        &&& self.tile == m.spec_tile()
        &&& self.is_concealed == m.spec_concealed()
        &&& self.kind == match m {
            Meld::Chow(_) => MeldKind::Chow,
            Meld::Pung(_) => MeldKind::Pung,
            Meld::Kong(_) => MeldKind::Kong,
        }
        &&& self.wf()
    }

    /// The attributes agree with the tile.
    pub open spec fn wf(self) -> bool {
        &&& self.rank == spec_rank(self.tile)
        &&& self.suit == spec_suit(self.tile)
        &&& !self.tile.spec_is_flower()
        &&& if self.kind == MeldKind::Chow {
            &&& is_chow_start(self.tile)
            &&& self.is_terminal == (self.rank == 1 || self.rank == 7)
            &&& !self.is_honor && !self.is_dragon && !self.is_wind
            &&& self.tiles@ == seq![
                self.tile,
                self.tile.spec_next(),
                self.tile.spec_next().spec_next(),
                self.tile,
            ]
        } else {
            &&& self.is_terminal == (self.rank == 1 || self.rank == 9)
            &&& self.is_honor == (self.suit == 3)
            &&& self.is_dragon == spec_is_dragon(self.tile)
            &&& self.is_wind == spec_is_wind(self.tile)
            &&& self.tiles@ == seq![self.tile, self.tile, self.tile, self.tile]
        }
    }
}

impl PairInfo {
    /// The attributes describe a pair of `t`.
    pub open spec fn describes(self, t: Tile) -> bool {
        &&& self.tile == t
        &&& !t.spec_is_flower()
        &&& self.rank == spec_rank(t)
        &&& self.suit == spec_suit(t)
        &&& self.is_terminal == (self.rank == 1 || self.rank == 9)
        &&& self.is_honor == (self.suit == 3)
        &&& self.is_dragon == spec_is_dragon(t)
        &&& self.is_wind == spec_is_wind(t)
    }
}

/// The reversible tiles, by suit and rank: the dots 1, 2, 3, 4, 5, 8 and 9,
/// the bamboos 2, 4, 5, 6, 8 and 9, and the white dragon; fourteen in all.
pub proof fn lemma_reversible_tiles(t: Tile)
    ensures
        spec_is_reversible(t) <==> {
            ||| spec_suit(t) == 1 && (spec_rank(t) <= 5 || spec_rank(t) == 8 || spec_rank(t) == 9)
            ||| spec_suit(t) == 2 && (spec_rank(t) == 2 || (4 <= spec_rank(t) <= 6) || spec_rank(t) == 8
                || spec_rank(t) == 9)
            ||| t == Tile::White
        },
{
}

/// The green tiles, by suit and rank: the bamboos 2, 3, 4, 6 and 8, and the
/// green dragon.
pub proof fn lemma_green_tiles(t: Tile)
    ensures
        spec_is_green(t) <==> {
            ||| spec_suit(t) == 2 && (2 <= spec_rank(t) <= 4 || spec_rank(t) == 6 || spec_rank(t) == 8)
            ||| t == Tile::Green
        },
{
}

/// The dragons and the winds are the honors: the seven tiles numbered 192
/// to 216, the winds first.
pub proof fn lemma_honor_tiles(t: Tile)
    ensures
        spec_is_wind(t) <==> 192 <= t.spec_id() <= 204,
        spec_is_dragon(t) <==> 208 <= t.spec_id() <= 216,
        (spec_is_wind(t) || spec_is_dragon(t)) <==> (spec_is_honor(t) && !t.spec_is_flower()),
{
}

/// A chow start has rank 1 to 7 in one of the three suits.
pub proof fn lemma_chow_start(t: Tile)
    requires
        is_chow_start(t),
    ensures
        1 <= spec_rank(t) <= 7,
        spec_suit(t) < 3,
        t.has_next(),
        t.spec_next().has_next(),
        spec_suit(t.spec_next()) == spec_suit(t),
        spec_suit(t.spec_next().spec_next()) == spec_suit(t),
        spec_rank(t.spec_next()) == spec_rank(t) + 1,
        spec_rank(t.spec_next().spec_next()) == spec_rank(t) + 2,
        !t.spec_is_flower(),
{
    match t {
        Tile::Character1 | Tile::Character2 | Tile::Character3 | Tile::Character4
        | Tile::Character5 | Tile::Character6 | Tile::Character7 | Tile::Dot1 | Tile::Dot2
        | Tile::Dot3 | Tile::Dot4 | Tile::Dot5 | Tile::Dot6 | Tile::Dot7 | Tile::Bamboo1
        | Tile::Bamboo2 | Tile::Bamboo3 | Tile::Bamboo4 | Tile::Bamboo5 | Tile::Bamboo6
        | Tile::Bamboo7 => {},
        _ => {},
    }
}

/// The three tiles of the chow that starts at `start`, then `start` again.
fn chow_tiles(start: Tile) -> (r: [Tile; 4])
    requires
        is_chow_start(start),
    ensures
        r@ == seq![start, start.spec_next(), start.spec_next().spec_next(), start],
{
    proof {
        lemma_chow_start(start);
    }
    let second = start.next();
    let third = second.next();
    let r = [start, second, third, start];
    assert(r@ =~= seq![start, start.spec_next(), start.spec_next().spec_next(), start]);
    r
}

/// Takes one set apart.
pub fn meld_info(m: &Meld) -> (r: MeldInfo)
    ensures
        r.describes(*m),
{
    match *m {
        Meld::Pung(p) => {
            let tile = p.tile();
            let r = rank_of(tile);
            let s = suit_of(tile);
            let tiles = [tile, tile, tile, tile];
            assert(tiles@ =~= seq![tile, tile, tile, tile]);
            MeldInfo {
                kind: MeldKind::Pung,
                tile,
                rank: r,
                suit: s,
                is_concealed: p.is_concealed(),
                is_terminal: r == 1 || r == 9,
                is_honor: s == 3,
                is_dragon: is_dragon_tile(tile),
                is_wind: is_wind_tile(tile),
                tiles,
            }
        },
        Meld::Chow(c) => {
            let start = c.start();
            proof {
                lemma_chow_start(start);
            }
            let r = rank_of(start);
            let suit = suit_of(start);
            MeldInfo {
                kind: MeldKind::Chow,
                tile: start,
                rank: r,
                suit,
                is_concealed: c.is_concealed(),
                is_terminal: r == 1 || r == 7,
                is_honor: false,
                is_dragon: false,
                is_wind: false,
                tiles: chow_tiles(start),
            }
        },
        Meld::Kong(q) => {
            let tile = q.tile();
            let r = rank_of(tile);
            let s = suit_of(tile);
            let tiles = [tile, tile, tile, tile];
            assert(tiles@ =~= seq![tile, tile, tile, tile]);
            MeldInfo {
                kind: MeldKind::Kong,
                tile,
                rank: r,
                suit: s,
                is_concealed: q.is_concealed(),
                is_terminal: r == 1 || r == 9,
                is_honor: s == 3,
                is_dragon: is_dragon_tile(tile),
                is_wind: is_wind_tile(tile),
                tiles,
            }
        },
    }
}

/// Takes the pair apart.
pub fn pair_info(p: &Pair) -> (r: PairInfo)
    ensures
        r.describes(p.spec_tile()),
{
    let tile = p.tile();
    let r = rank_of(tile);
    let s = suit_of(tile);
    PairInfo {
        tile,
        rank: r,
        suit: s,
        is_terminal: r == 1 || r == 9,
        is_honor: s == 3,
        is_dragon: is_dragon_tile(tile),
        is_wind: is_wind_tile(tile),
    }
}

// ── Tests on one set ─────────────────────────────────────────────

/// A property of one set, as the rules ask it.
#[derive(Clone, Copy, Debug, PartialEq, Eq, Structural)]
pub enum MeldTest {
    Chow,
    PungOrKong,
    Kong,
    ConcealedKong,
    /// A kong that was declared from a discard.
    MeldedKong,
    ConcealedPungOrKong,
    Concealed,
    Exposed,
    Honor,
    Dragon,
    Wind,
    DragonPung,
    WindPung,
    /// The naming tile is a one or a nine.
    TerminalTile,
    /// The naming tile is a one, a nine or an honor.
    TerminalOrHonorTile,
    /// A pung or kong of ones, nines or winds.
    TerminalOrWindPung,
    /// Every tile of the set is green.
    Green,
    /// A pung or kong of an even rank.
    EvenPung,
    /// The set lies in the given suit.
    InSuit(u8),
    /// The rank of the naming tile lies between the two bounds.
    RankIn(u8, u8),
    /// Some tile of the set is a five.
    Five,
    /// Every tile of the set reads the same upside down.
    Reversible,
    /// Some tile of the set is a terminal or an honor.
    Outside,
    /// A suit set with no terminal: not a chow 1-2-3 or 7-8-9, not ones or nines.
    Simple,
    /// A pung (not a kong) of the given tile.
    PungOf(Tile),
    /// A chow in the given suit starting at the given rank.
    ChowOf(u8, u8),
}

/// The set `m` passes the test `t`.
pub open spec fn meld_passes(t: MeldTest, m: MeldInfo) -> bool {
    match t {
        MeldTest::Chow => m.kind == MeldKind::Chow,
        MeldTest::PungOrKong => m.kind == MeldKind::Pung || m.kind == MeldKind::Kong,
        MeldTest::Kong => m.kind == MeldKind::Kong,
        MeldTest::ConcealedKong => m.kind == MeldKind::Kong && m.is_concealed,
        MeldTest::MeldedKong => m.kind == MeldKind::Kong && !m.is_concealed,
        MeldTest::ConcealedPungOrKong => (m.kind == MeldKind::Pung || m.kind == MeldKind::Kong)
            && m.is_concealed,
        MeldTest::Concealed => m.is_concealed,
        MeldTest::Exposed => !m.is_concealed,
        MeldTest::Honor => m.is_honor,
        MeldTest::Dragon => m.is_dragon,
        MeldTest::Wind => m.is_wind,
        MeldTest::DragonPung => m.is_dragon && (m.kind == MeldKind::Pung || m.kind == MeldKind::Kong),
        MeldTest::WindPung => m.is_wind && (m.kind == MeldKind::Pung || m.kind == MeldKind::Kong),
        MeldTest::TerminalTile => spec_is_terminal(m.tile),
        MeldTest::TerminalOrHonorTile => spec_is_terminal(m.tile) || spec_is_honor(m.tile),
        MeldTest::TerminalOrWindPung => (m.kind == MeldKind::Pung || m.kind == MeldKind::Kong)
            && (spec_is_terminal(m.tile) || spec_is_wind(m.tile)),
        MeldTest::Green => if m.kind == MeldKind::Chow {
            spec_is_green(m.tiles@[0]) && spec_is_green(m.tiles@[1]) && spec_is_green(m.tiles@[2])
        } else {
            spec_is_green(m.tile)
        },
        MeldTest::EvenPung => (m.kind == MeldKind::Pung || m.kind == MeldKind::Kong)
            && spec_is_even_rank(m.tile),
        MeldTest::InSuit(s) => m.suit == s,
        MeldTest::RankIn(lo, hi) => lo <= m.rank <= hi,
        MeldTest::Five => if m.kind == MeldKind::Chow {
            spec_rank(m.tiles@[0]) == 5 || spec_rank(m.tiles@[1]) == 5 || spec_rank(m.tiles@[2]) == 5
        } else {
            m.rank == 5
        },
        MeldTest::Reversible => if m.kind == MeldKind::Chow {
            spec_is_reversible(m.tiles@[0]) && spec_is_reversible(m.tiles@[1])
                && spec_is_reversible(m.tiles@[2])
        } else {
            spec_is_reversible(m.tile)
        },
        MeldTest::Outside => if m.kind == MeldKind::Chow {
            spec_is_terminal(m.tiles@[0]) || spec_is_honor(m.tiles@[0])
                || spec_is_terminal(m.tiles@[1]) || spec_is_honor(m.tiles@[1])
                || spec_is_terminal(m.tiles@[2]) || spec_is_honor(m.tiles@[2])
        } else {
            spec_is_terminal(m.tile) || spec_is_honor(m.tile)
        },
        MeldTest::Simple => m.suit < 3 && !m.is_terminal,
        MeldTest::PungOf(target) => m.kind == MeldKind::Pung && m.tile == target,
        MeldTest::ChowOf(s, r) => m.kind == MeldKind::Chow && m.suit == s && m.rank == r,
    }
}

/// Runs the test `t` on the set `m`.
pub fn passes(t: MeldTest, m: &MeldInfo) -> (r: bool)
    ensures
        r == meld_passes(t, *m),
{
    let pung_or_kong = m.kind == MeldKind::Pung || m.kind == MeldKind::Kong;
    match t {
        MeldTest::Chow => m.kind == MeldKind::Chow,
        MeldTest::PungOrKong => pung_or_kong,
        MeldTest::Kong => m.kind == MeldKind::Kong,
        MeldTest::ConcealedKong => m.kind == MeldKind::Kong && m.is_concealed,
        MeldTest::MeldedKong => m.kind == MeldKind::Kong && !m.is_concealed,
        MeldTest::ConcealedPungOrKong => pung_or_kong && m.is_concealed,
        MeldTest::Concealed => m.is_concealed,
        MeldTest::Exposed => !m.is_concealed,
        MeldTest::Honor => m.is_honor,
        MeldTest::Dragon => m.is_dragon,
        MeldTest::Wind => m.is_wind,
        MeldTest::DragonPung => m.is_dragon && pung_or_kong,
        MeldTest::WindPung => m.is_wind && pung_or_kong,
        MeldTest::TerminalTile => is_terminal_tile(m.tile),
        MeldTest::TerminalOrHonorTile => is_terminal_tile(m.tile) || is_honor_tile(m.tile),
        MeldTest::TerminalOrWindPung => pung_or_kong && (is_terminal_tile(m.tile) || is_wind_tile(m.tile)),
        MeldTest::Green => if m.kind == MeldKind::Chow {
            is_green_tile(m.tiles[0]) && is_green_tile(m.tiles[1]) && is_green_tile(m.tiles[2])
        } else {
            is_green_tile(m.tile)
        },
        MeldTest::EvenPung => pung_or_kong && is_even_rank(m.tile),
        MeldTest::InSuit(s) => m.suit == s,
        MeldTest::RankIn(lo, hi) => lo <= m.rank && m.rank <= hi,
        MeldTest::Five => if m.kind == MeldKind::Chow {
            rank_of(m.tiles[0]) == 5 || rank_of(m.tiles[1]) == 5 || rank_of(m.tiles[2]) == 5
        } else {
            m.rank == 5
        },
        MeldTest::Reversible => if m.kind == MeldKind::Chow {
            is_reversible_tile(m.tiles[0]) && is_reversible_tile(m.tiles[1])
                && is_reversible_tile(m.tiles[2])
        } else {
            is_reversible_tile(m.tile)
        },
        MeldTest::Outside => if m.kind == MeldKind::Chow {
            is_terminal_tile(m.tiles[0]) || is_honor_tile(m.tiles[0])
                || is_terminal_tile(m.tiles[1]) || is_honor_tile(m.tiles[1])
                || is_terminal_tile(m.tiles[2]) || is_honor_tile(m.tiles[2])
        } else {
            is_terminal_tile(m.tile) || is_honor_tile(m.tile)
        },
        MeldTest::Simple => m.suit < 3 && !m.is_terminal,
        MeldTest::PungOf(target) => m.kind == MeldKind::Pung && m.tile == target,
        MeldTest::ChowOf(s, r) => m.kind == MeldKind::Chow && m.suit == s && m.rank == r,
    }
}

// ── The profile ──────────────────────────────────────────────────

/// A decomposition with every set and the pair taken apart once, so that the
/// rules read fields instead of matching on the decomposition again.
#[derive(Clone, Copy, Debug)]
pub struct HandProfile {
    pub kind: ProfileKind,
    /// The sets; the first `n_sets` are meaningful.
    pub melds: [MeldInfo; 4],
    pub n_sets: u8,
    /// The pair of a standard hand, or the doubled tile of thirteen orphans.
    pub pair: PairInfo,
    /// The seven pairs of a seven-pairs hand.
    pub pair_tiles: [Tile; 7],
    pub all_pungs: bool,
    pub all_chows: bool,
    pub n_kongs: u8,
    pub has_honors: bool,
}

/// Placeholder for an unused set slot.
pub open spec fn empty_meld_spec() -> MeldInfo {
    MeldInfo {
        kind: MeldKind::Pung,
        tile: Tile::Character1,
        rank: 0,
        suit: 0,
        is_concealed: false,
        is_terminal: false,
        is_honor: false,
        is_dragon: false,
        is_wind: false,
        tiles: [Tile::Character1, Tile::Character1, Tile::Character1, Tile::Character1],
    }
}

/// Placeholder for an absent pair.
pub open spec fn empty_pair_spec() -> PairInfo {
    PairInfo {
        tile: Tile::Character1,
        rank: 0,
        suit: 0,
        is_terminal: false,
        is_honor: false,
        is_dragon: false,
        is_wind: false,
    }
}

fn empty_meld() -> (r: MeldInfo)
    ensures
        r == empty_meld_spec(),
{
    MeldInfo {
        kind: MeldKind::Pung,
        tile: Tile::Character1,
        rank: 0,
        suit: 0,
        is_concealed: false,
        is_terminal: false,
        is_honor: false,
        is_dragon: false,
        is_wind: false,
        tiles: [Tile::Character1, Tile::Character1, Tile::Character1, Tile::Character1],
    }
}

fn empty_pair() -> (r: PairInfo)
    ensures
        r == empty_pair_spec(),
{
    PairInfo {
        tile: Tile::Character1,
        rank: 0,
        suit: 0,
        is_terminal: false,
        is_honor: false,
        is_dragon: false,
        is_wind: false,
    }
}

/// The number of the first `k` sets in `s` that pass `t`.
pub open spec fn count_in(s: Seq<MeldInfo>, t: MeldTest, k: int) -> nat
    decreases k,
{
    if k <= 0 {
        0
    } else {
        count_in(s, t, k - 1) + if meld_passes(t, s[k - 1]) { 1nat } else { 0nat }
    }
}

/// The first `k` sets in `s` that pass `t`, as a mask with bit `i` for
/// set `i`.
pub open spec fn mask_in(s: Seq<MeldInfo>, t: MeldTest, k: int) -> int
    decreases k,
{
    if k <= 0 {
        0
    } else {
        mask_in(s, t, k - 1) + if meld_passes(t, s[k - 1]) { bit_value(k - 1) } else { 0 }
    }
}

/// The value of bit `i` of a set mask.
pub open spec fn bit_value(i: int) -> int {
    if i == 0 {
        1
    } else if i == 1 {
        2
    } else if i == 2 {
        4
    } else {
        8
    }
}

/// The profile of a standard decomposition.
fn profile_standard(sets: &Vec<Meld>, pair: &Pair) -> (r: HandProfile)
    requires
        sets@.len() <= 4,
    ensures
        r.views(Decomposition::Standard { pair: *pair, sets: *sets }),
        r.wf(),
{
    let n = sets.len();
    let mut melds = [empty_meld(), empty_meld(), empty_meld(), empty_meld()];
    let mut n_kongs: u8 = 0;
    let mut has_honors = false;
    let mut all_p = true;
    let mut all_c = true;
    let mut i: usize = 0;
    while i < n
        invariant
            n == sets@.len(),
            n <= 4,
            i <= n,
            forall|j: int| 0 <= j < i ==> (#[trigger] melds@[j]).describes(sets@[j]),
            forall|j: int| i <= j < 4 ==> #[trigger] melds@[j] == empty_meld_spec(),
            n_kongs == count_in(melds@, MeldTest::Kong, i as int),
            n_kongs <= i,
            has_honors == exists|j: int| 0 <= j < i && meld_passes(MeldTest::Honor, #[trigger] melds@[j]),
            all_p == forall|j: int| 0 <= j < i ==> meld_passes(MeldTest::PungOrKong, #[trigger] melds@[j]),
            all_c == forall|j: int| 0 <= j < i ==> meld_passes(MeldTest::Chow, #[trigger] melds@[j]),
        decreases n - i,
    {
        let info = meld_info(&sets[i]);
        let ghost before = melds@;
        melds[i] = info;
        proof {
            lemma_count_in_prefix(before, melds@, MeldTest::Kong, i as int);
        }
        proof {
            assert(melds@[i as int] == info);
            assert forall|j: int| 0 <= j < i implies #[trigger] melds@[j] == before[j] by {}
            if has_honors {
                let w = choose|j: int| 0 <= j < i && meld_passes(MeldTest::Honor, #[trigger] before[j]);
                assert(melds@[w] == before[w]);
            }
            if !all_p {
                let w = choose|j: int| 0 <= j < i && !meld_passes(MeldTest::PungOrKong, #[trigger] before[j]);
                assert(melds@[w] == before[w]);
            }
            if !all_c {
                let w = choose|j: int| 0 <= j < i && !meld_passes(MeldTest::Chow, #[trigger] before[j]);
                assert(melds@[w] == before[w]);
            }
        }
        if info.is_honor {
            has_honors = true;
        }
        if info.kind == MeldKind::Kong {
            n_kongs = n_kongs + 1;
        }
        all_p = all_p && (info.kind == MeldKind::Pung || info.kind == MeldKind::Kong);
        all_c = all_c && info.kind == MeldKind::Chow;
        i = i + 1;
    }
    let pi = pair_info(pair);
    let ghost melds_honor = has_honors;
    proof {
        if has_honors {
            let w = choose|j: int| 0 <= j < n && meld_passes(MeldTest::Honor, #[trigger] melds@[j]);
            assert(melds@[w].is_honor);
        }
    }
    if pi.is_honor {
        has_honors = true;
    }
    let pair_tiles = [Tile::Character1, Tile::Character1, Tile::Character1, Tile::Character1,
        Tile::Character1, Tile::Character1, Tile::Character1];
    assert(pair_tiles@ =~= Seq::new(7, |i: int| Tile::Character1));
    let n8 = n as u8;
    assert(n8 == n);
    let r = HandProfile {
        kind: ProfileKind::Standard,
        melds,
        n_sets: n8,
        pair: pi,
        pair_tiles,
        all_pungs: n > 0 && all_p,
        all_chows: n > 0 && all_c,
        n_kongs,
        has_honors,
    };
    assert(r.melds@ == melds@);
    assert(all_p == r.all_pass(MeldTest::PungOrKong)) by {
        if all_p {
            assert forall|j: int| 0 <= j < r.n_sets implies meld_passes(MeldTest::PungOrKong, #[trigger] r.meld(j)) by {
                assert(r.meld(j) == melds@[j]);
            }
        } else {
            let w = choose|j: int| 0 <= j < n && !meld_passes(MeldTest::PungOrKong, #[trigger] melds@[j]);
            assert(r.meld(w) == melds@[w]);
        }
    }
    assert(all_c == r.all_pass(MeldTest::Chow)) by {
        if all_c {
            assert forall|j: int| 0 <= j < r.n_sets implies meld_passes(MeldTest::Chow, #[trigger] r.meld(j)) by {
                assert(r.meld(j) == melds@[j]);
            }
        } else {
            let w = choose|j: int| 0 <= j < n && !meld_passes(MeldTest::Chow, #[trigger] melds@[j]);
            assert(r.meld(w) == melds@[w]);
        }
    }
    assert(melds_honor == r.any_pass(MeldTest::Honor)) by {
        if melds_honor {
            let w = choose|j: int| 0 <= j < n && meld_passes(MeldTest::Honor, #[trigger] melds@[j]);
            assert(r.meld(w) == melds@[w]);
        } else {
            assert forall|j: int| 0 <= j < r.n_sets implies !meld_passes(MeldTest::Honor, #[trigger] r.meld(j)) by {
                assert(r.meld(j) == melds@[j]);
            }
        }
    }
    assert(r.views(Decomposition::Standard { pair: *pair, sets: *sets }));
    r
}

/// Counting over a prefix ignores what lies after it.
pub proof fn lemma_count_in_prefix(a: Seq<MeldInfo>, b: Seq<MeldInfo>, t: MeldTest, k: int)
    requires
        0 <= k <= a.len(),
        k <= b.len(),
        forall|j: int| 0 <= j < k ==> a[j] == b[j],
    ensures
        count_in(a, t, k) == count_in(b, t, k),
        mask_in(a, t, k) == mask_in(b, t, k),
    decreases k,
{
    if k > 0 {
        lemma_count_in_prefix(a, b, t, k - 1);
    }
}

/// The profile of a seven-pairs decomposition.
fn profile_seven_pairs(pairs: &[Pair; 7]) -> (r: HandProfile)
    ensures
        r.views(Decomposition::SevenPairs { pairs: *pairs }),
        r.wf(),
{
    let mut pair_tiles = [Tile::Character1, Tile::Character1, Tile::Character1, Tile::Character1,
        Tile::Character1, Tile::Character1, Tile::Character1];
    let mut has_honors = false;
    let mut i: usize = 0;
    while i < 7
        invariant
            i <= 7,
            forall|j: int| 0 <= j < i ==> #[trigger] pair_tiles@[j] == pairs@[j].spec_tile(),
            forall|j: int| 0 <= j < i ==> !(#[trigger] pair_tiles@[j]).spec_is_flower(),
            has_honors == exists|j: int| 0 <= j < i && spec_is_honor(#[trigger] pair_tiles@[j]),
        decreases 7 - i,
    {
        let t = pairs[i].tile();
        let ghost before = pair_tiles@;
        pair_tiles[i] = t;
        proof {
            assert(pair_tiles@[i as int] == t);
            assert forall|j: int| 0 <= j < i implies #[trigger] pair_tiles@[j] == before[j] by {}
            if has_honors {
                let w = choose|j: int| 0 <= j < i && spec_is_honor(#[trigger] before[j]);
                assert(pair_tiles@[w] == before[w]);
            }
        }
        if is_honor_tile(t) {
            has_honors = true;
        }
        i = i + 1;
    }
    let r = HandProfile {
        kind: ProfileKind::SevenPairs,
        melds: [empty_meld(), empty_meld(), empty_meld(), empty_meld()],
        n_sets: 0,
        pair: empty_pair(),
        pair_tiles,
        all_pungs: false,
        all_chows: false,
        n_kongs: 0,
        has_honors,
    };
    r
}

/// The profile of a thirteen-orphans decomposition.
fn profile_thirteen_orphans(pair: &Pair) -> (r: HandProfile)
    ensures
        r.views(Decomposition::ThirteenOrphans { pair: *pair }),
        r.wf(),
{
    let pair_tiles = [Tile::Character1, Tile::Character1, Tile::Character1, Tile::Character1,
        Tile::Character1, Tile::Character1, Tile::Character1];
    assert(pair_tiles@ =~= Seq::new(7, |i: int| Tile::Character1));
    HandProfile {
        kind: ProfileKind::ThirteenOrphans,
        melds: [empty_meld(), empty_meld(), empty_meld(), empty_meld()],
        n_sets: 0,
        pair: pair_info(pair),
        pair_tiles,
        all_pungs: false,
        all_chows: false,
        n_kongs: 0,
        has_honors: false,
    }
}

impl HandProfile {
    pub open spec fn meld(self, i: int) -> MeldInfo {
        self.melds@[i]
    }

    /// Every set of the profile passes `t`.
    pub open spec fn all_pass(self, t: MeldTest) -> bool {
        forall|i: int| 0 <= i < self.n_sets ==> meld_passes(t, #[trigger] self.meld(i))
    }

    /// Some set of the profile passes `t`.
    pub open spec fn any_pass(self, t: MeldTest) -> bool {
        exists|i: int| 0 <= i < self.n_sets && meld_passes(t, #[trigger] self.meld(i))
    }

    /// The number of sets that pass `t`.
    pub open spec fn count_pass(self, t: MeldTest) -> nat {
        count_in(self.melds@, t, self.n_sets as int)
    }

    /// The sets that pass `t`, as a mask with bit `i` for set `i`.
    pub open spec fn mask_pass(self, t: MeldTest) -> int {
        mask_in(self.melds@, t, self.n_sets as int)
    }

    /// The profile views the decomposition `d`: every field is read off it.
    pub open spec fn views(self, d: Decomposition) -> bool {
        match d {
            Decomposition::Standard { pair, sets } => {
                &&& self.kind == ProfileKind::Standard
                &&& self.n_sets == sets@.len()
                &&& forall|i: int| 0 <= i < self.n_sets ==> (#[trigger] self.meld(i)).describes(sets@[i])
                &&& forall|i: int| self.n_sets <= i < 4 ==> #[trigger] self.meld(i) == empty_meld_spec()
                &&& self.pair.describes(pair.spec_tile())
                &&& self.pair_tiles@ == Seq::new(7, |i: int| Tile::Character1)
                &&& self.all_pungs == (self.n_sets > 0 && self.all_pass(MeldTest::PungOrKong))
                &&& self.all_chows == (self.n_sets > 0 && self.all_pass(MeldTest::Chow))
                &&& self.n_kongs == self.count_pass(MeldTest::Kong)
                &&& self.has_honors == (self.any_pass(MeldTest::Honor) || self.pair.is_honor)
            },
            Decomposition::SevenPairs { pairs } => {
                &&& self.kind == ProfileKind::SevenPairs
                &&& self.n_sets == 0
                &&& forall|i: int| 0 <= i < 4 ==> #[trigger] self.meld(i) == empty_meld_spec()
                &&& self.pair == empty_pair_spec()
                &&& forall|i: int| 0 <= i < 7 ==> #[trigger] self.pair_tiles@[i] == pairs@[i].spec_tile()
                &&& !self.all_pungs && !self.all_chows && self.n_kongs == 0
                &&& self.has_honors == exists|i: int| 0 <= i < 7 && spec_is_honor(#[trigger] self.pair_tiles@[i])
            },
            Decomposition::ThirteenOrphans { pair } => {
                &&& self.kind == ProfileKind::ThirteenOrphans
                &&& self.n_sets == 0
                &&& forall|i: int| 0 <= i < 4 ==> #[trigger] self.meld(i) == empty_meld_spec()
                &&& self.pair.describes(pair.spec_tile())
                &&& self.pair_tiles@ == Seq::new(7, |i: int| Tile::Character1)
                &&& !self.all_pungs && !self.all_chows && self.n_kongs == 0 && !self.has_honors
            },
        }
    }

    /// The profile is a faithful view of some decomposition.
    pub open spec fn wf(self) -> bool {
        &&& self.n_sets <= 4
        &&& forall|i: int| 0 <= i < self.n_sets ==> (#[trigger] self.meld(i)).wf()
        &&& self.kind == ProfileKind::Standard ==> !self.pair.tile.spec_is_flower()
            && self.pair.describes(self.pair.tile)
        &&& self.kind == ProfileKind::ThirteenOrphans ==> self.pair.describes(self.pair.tile)
            && self.n_sets == 0
        &&& self.kind == ProfileKind::SevenPairs ==> self.n_sets == 0
            && forall|i: int| 0 <= i < 7 ==> !(#[trigger] self.pair_tiles@[i]).spec_is_flower()
        &&& self.n_kongs == self.count_pass(MeldTest::Kong)
    }

    /// Builds the profile of a decomposition.
    pub fn from_decomposition(d: &Decomposition) -> (r: Self)
        requires
            d.wf(),
        ensures
            r.views(*d),
            r.wf(),
    {
        match d {
            Decomposition::Standard { pair, sets } => profile_standard(sets, pair),
            Decomposition::SevenPairs { pairs } => profile_seven_pairs(pairs),
            Decomposition::ThirteenOrphans { pair } => profile_thirteen_orphans(pair),
        }
    }

    pub fn is_standard(&self) -> (r: bool)
        ensures
            r == (self.kind == ProfileKind::Standard),
    {
        self.kind == ProfileKind::Standard
    }

    /// No tile of the hand is an honor.
    pub fn all_suit_tiles(&self) -> (r: bool)
        ensures
            r == !self.has_honors,
    {
        !self.has_honors
    }
}

} // verus!
