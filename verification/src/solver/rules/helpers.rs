//! Shared pieces of the fan rules: tests over all the sets, over pairs,
//! triples and quadruples of sets, and the output of a rule.

use vstd::prelude::*;

use crate::solver::types::FanType;
use crate::solver::view::{
    bit_value, count_in, is_green_tile, is_honor_tile, is_terminal_tile, mask_in, meld_passes,
    passes, rank_of, spec_is_green, spec_is_honor, spec_is_terminal, spec_rank, spec_suit, suit_of,
    HandProfile, MeldInfo, MeldKind, MeldTest,
};
use crate::solver::FanInstance;
use crate::structs::Tile;

verus! {

// ── Output of a rule ─────────────────────────────────────────────

/// The fan `ft` over the sets of `mask`, using the pair or not.
pub open spec fn fan_of(ft: FanType, mask: int, uses_pair: bool) -> FanInstance {
    FanInstance { fan_type: ft, used_set_mask: mask as u64, uses_pair }
}

/// What a rule returns: the fan once where it applies, nothing otherwise.
pub open spec fn emit(fires: bool, ft: FanType, mask: int, uses_pair: bool) -> Seq<FanInstance> {
    if fires {
        seq![fan_of(ft, mask, uses_pair)]
    } else {
        Seq::empty()
    }
}

/// A fan instance for `ft`.
pub fn cand(ft: FanType, mask: u64, uses_pair: bool) -> (r: FanInstance)
    ensures
        r == fan_of(ft, mask as int, uses_pair),
{
    FanInstance { fan_type: ft, used_set_mask: mask, uses_pair }
}

/// The rule output: `ft` once if `fires`, nothing otherwise.
pub fn fan_if(fires: bool, ft: FanType, mask: u64, uses_pair: bool) -> (r: Vec<FanInstance>)
    ensures
        r@ == emit(fires, ft, mask as int, uses_pair),
{
    let mut r: Vec<FanInstance> = Vec::new();
    if fires {
        r.push(cand(ft, mask, uses_pair));
    }
    r
}

// ── Tests over all the sets ──────────────────────────────────────

/// Every set passes `t`.
pub fn all_melds(p: &HandProfile, t: MeldTest) -> (r: bool)
    requires
        p.n_sets <= 4,
    ensures
        r == p.all_pass(t),
{
    let n = p.n_sets as usize;
    let mut i: usize = 0;
    while i < n
        invariant
            n == p.n_sets,
            n <= 4,
            i <= n,
            forall|j: int| 0 <= j < i ==> meld_passes(t, #[trigger] p.meld(j)),
        decreases n - i,
    {
        if !passes(t, &p.melds[i]) {
            assert(!meld_passes(t, p.meld(i as int)));
            return false;
        }
        i = i + 1;
    }
    true
}

/// Some set passes `t`.
pub fn any_meld(p: &HandProfile, t: MeldTest) -> (r: bool)
    requires
        p.n_sets <= 4,
    ensures
        r == p.any_pass(t),
{
    let n = p.n_sets as usize;
    let mut i: usize = 0;
    while i < n
        invariant
            n == p.n_sets,
            n <= 4,
            i <= n,
            forall|j: int| 0 <= j < i ==> !meld_passes(t, #[trigger] p.meld(j)),
        decreases n - i,
    {
        if passes(t, &p.melds[i]) {
            assert(meld_passes(t, p.meld(i as int)));
            return true;
        }
        i = i + 1;
    }
    false
}

/// The number of sets that pass `t`.
pub fn count_melds(p: &HandProfile, t: MeldTest) -> (r: u8)
    requires
        p.n_sets <= 4,
    ensures
        r == p.count_pass(t),
        r <= 4,
{
    let n = p.n_sets as usize;
    let mut c: u8 = 0;
    let mut i: usize = 0;
    while i < n
        invariant
            n == p.n_sets,
            n <= 4,
            i <= n,
            c == count_in(p.melds@, t, i as int),
            c <= i,
        decreases n - i,
    {
        if passes(t, &p.melds[i]) {
            c = c + 1;
        }
        i = i + 1;
    }
    c
}

/// The sets that pass `t`, as a mask with bit `i` for set `i`.
pub fn mask_melds(p: &HandProfile, t: MeldTest) -> (r: u64)
    requires
        p.n_sets <= 4,
    ensures
        r == p.mask_pass(t),
        r < 16,
{
    let n = p.n_sets as usize;
    let mut m: u64 = 0;
    let mut i: usize = 0;
    while i < n
        invariant
            n == p.n_sets,
            n <= 4,
            i <= n,
            m == mask_in(p.melds@, t, i as int),
            m <= mask_bound(i as int),
        decreases n - i,
    {
        if passes(t, &p.melds[i]) {
            m = m + bit_exec(i);
        }
        i = i + 1;
    }
    m
}

/// The largest mask over the first `i` sets.
pub open spec fn mask_bound(i: int) -> int {
    if i <= 0 {
        0
    } else if i == 1 {
        1
    } else if i == 2 {
        3
    } else if i == 3 {
        7
    } else {
        15
    }
}

/// The value of bit `i` of a set mask.
pub fn bit_exec(i: usize) -> (r: u64)
    requires
        i < 4,
    ensures
        r == bit_value(i as int),
{
    if i == 0 {
        1
    } else if i == 1 {
        2
    } else if i == 2 {
        4
    } else {
        8
    }
}

/// The first set that passes `t`: every set before it fails.
pub open spec fn first_passing(p: HandProfile, t: MeldTest, i: int) -> bool {
    &&& 0 <= i < p.n_sets
    &&& meld_passes(t, p.meld(i))
    &&& forall|j: int| 0 <= j < i ==> !meld_passes(t, #[trigger] p.meld(j))
}

/// The index of the first set that passes `t`.
pub fn first_meld(p: &HandProfile, t: MeldTest) -> (r: Option<usize>)
    requires
        p.n_sets <= 4,
    ensures
        match r {
            Some(i) => first_passing(*p, t, i as int),
            None => !p.any_pass(t),
        },
{
    let n = p.n_sets as usize;
    let mut i: usize = 0;
    while i < n
        invariant
            n == p.n_sets,
            n <= 4,
            i <= n,
            forall|j: int| 0 <= j < i ==> !meld_passes(t, #[trigger] p.meld(j)),
        decreases n - i,
    {
        if passes(t, &p.melds[i]) {
            return Some(i);
        }
        i = i + 1;
    }
    None
}

/// Some set is named by the tile `tile`.
pub open spec fn has_meld_tile(p: HandProfile, t: MeldTest, tile: Tile) -> bool {
    exists|i: int| 0 <= i < p.n_sets && meld_passes(t, #[trigger] p.meld(i)) && p.meld(i).tile == tile
}

/// Some set that passes `t` is named by the tile `tile`.
pub fn meld_with_tile(p: &HandProfile, t: MeldTest, tile: Tile) -> (r: bool)
    requires
        p.n_sets <= 4,
    ensures
        r == has_meld_tile(*p, t, tile),
{
    let n = p.n_sets as usize;
    let mut i: usize = 0;
    while i < n
        invariant
            n == p.n_sets,
            n <= 4,
            i <= n,
            forall|j: int| 0 <= j < i ==> !(meld_passes(t, #[trigger] p.meld(j)) && p.meld(j).tile == tile),
        decreases n - i,
    {
        if passes(t, &p.melds[i]) && p.melds[i].tile == tile {
            assert(meld_passes(t, p.meld(i as int)) && p.meld(i as int).tile == tile);
            return true;
        }
        i = i + 1;
    }
    false
}

/// Every set lies within the ranks `lo` to `hi`, judged by its naming tile,
/// and so does the pair, which must be a suit tile.
pub open spec fn in_range(p: HandProfile, lo: u8, hi: u8) -> bool {
    &&& p.all_pass(MeldTest::RankIn(lo, hi))
    &&& p.pair.rank > 0
    &&& lo <= p.pair.rank <= hi
}

pub fn all_in_range(p: &HandProfile, lo: u8, hi: u8) -> (r: bool)
    requires
        p.n_sets <= 4,
    ensures
        r == in_range(*p, lo, hi),
{
    all_melds(p, MeldTest::RankIn(lo, hi)) && p.pair.rank > 0 && lo <= p.pair.rank
        && p.pair.rank <= hi
}

/// Some tile of suit `s` appears among the suit sets or the pair.
pub open spec fn suit_used(p: HandProfile, s: u8) -> bool {
    p.any_pass(MeldTest::InSuit(s)) || (!p.pair.is_honor && p.pair.suit == s)
}

/// The number of suits that appear.
pub open spec fn suits_used(p: HandProfile) -> int {
    (if suit_used(p, 0) { 1int } else { 0 }) + (if suit_used(p, 1) { 1int } else { 0 }) + (
    if suit_used(p, 2) { 1int } else { 0 })
}

pub fn suit_in_use(p: &HandProfile, s: u8) -> (r: bool)
    requires
        p.n_sets <= 4,
    ensures
        r == suit_used(*p, s),
{
    any_meld(p, MeldTest::InSuit(s)) || (!p.pair.is_honor && p.pair.suit == s)
}

pub fn count_suits_used(p: &HandProfile) -> (r: u8)
    requires
        p.n_sets <= 4,
    ensures
        r == suits_used(*p),
{
    let mut c: u8 = 0;
    if suit_in_use(p, 0) {
        c = c + 1;
    }
    if suit_in_use(p, 1) {
        c = c + 1;
    }
    if suit_in_use(p, 2) {
        c = c + 1;
    }
    c
}

// ── Sorting small lists of ranks ─────────────────────────────────

/// Three numbers in ascending order.
pub open spec fn sort3(a: int, b: int, c: int) -> (int, int, int) {
    if a <= b {
        if b <= c {
            (a, b, c)
        } else if a <= c {
            (a, c, b)
        } else {
            (c, a, b)
        }
    } else {
        if a <= c {
            (b, a, c)
        } else if b <= c {
            (b, c, a)
        } else {
            (c, b, a)
        }
    }
}

/// Four numbers in ascending order.
pub open spec fn sort4(a: int, b: int, c: int, d: int) -> (int, int, int, int) {
    let (x, y, z) = sort3(a, b, c);
    if d <= x {
        (d, x, y, z)
    } else if d <= y {
        (x, d, y, z)
    } else if d <= z {
        (x, y, d, z)
    } else {
        (x, y, z, d)
    }
}

pub fn sort3_exec(a: u8, b: u8, c: u8) -> (r: (u8, u8, u8))
    ensures
        (r.0 as int, r.1 as int, r.2 as int) == sort3(a as int, b as int, c as int),
{
    if a <= b {
        if b <= c {
            (a, b, c)
        } else if a <= c {
            (a, c, b)
        } else {
            (c, a, b)
        }
    } else {
        if a <= c {
            (b, a, c)
        } else if b <= c {
            (b, c, a)
        } else {
            (c, b, a)
        }
    }
}

pub fn sort4_exec(a: u8, b: u8, c: u8, d: u8) -> (r: (u8, u8, u8, u8))
    ensures
        (r.0 as int, r.1 as int, r.2 as int, r.3 as int) == sort4(a as int, b as int, c as int, d as int),
{
    let (x, y, z) = sort3_exec(a, b, c);
    if d <= x {
        (d, x, y, z)
    } else if d <= y {
        (x, d, y, z)
    } else if d <= z {
        (x, y, d, z)
    } else {
        (x, y, z, d)
    }
}

/// Three ranks that, sorted, step up by one.
pub open spec fn consecutive3(a: int, b: int, c: int) -> bool {
    let (x, y, z) = sort3(a, b, c);
    y == x + 1 && z == y + 1
}

/// Three ranks that, sorted, step up by one or by two, the same step twice.
pub open spec fn shifted3(a: int, b: int, c: int) -> bool {
    let (x, y, z) = sort3(a, b, c);
    (y - x == 1 || y - x == 2) && y - x == z - y
}

/// Three ranks that, sorted, are 1, 4 and 7.
pub open spec fn straight3(a: int, b: int, c: int) -> bool {
    sort3(a, b, c) == (1int, 4int, 7int)
}

pub open spec fn distinct3(a: int, b: int, c: int) -> bool {
    a != b && b != c && a != c
}

// ── Tests over two sets ──────────────────────────────────────────

/// A relation between two sets that some fans count.
#[derive(Clone, Copy, Debug, PartialEq, Eq, Structural)]
pub enum PairTest {
    /// Two pungs or kongs of the same suit rank in different suits.
    DoublePung,
    /// Two identical chows.
    PureDoubleChow,
    /// Two chows of the same ranks in different suits.
    MixedDoubleChow,
    /// Two chows of one suit, three ranks apart.
    ShortStraight,
}

/// The sets `a` and `b` are related by `t`; each relation is symmetric.
pub open spec fn pair_passes(t: PairTest, a: MeldInfo, b: MeldInfo) -> bool {
    match t {
        PairTest::DoublePung => a.is_pung_or_kong() && b.is_pung_or_kong() && a.rank > 0
            && a.rank == b.rank && a.suit != b.suit,
        PairTest::PureDoubleChow => a.is_chow() && b.is_chow() && a.rank == b.rank && a.suit
            == b.suit,
        PairTest::MixedDoubleChow => a.is_chow() && b.is_chow() && a.rank == b.rank && a.suit
            != b.suit,
        PairTest::ShortStraight => a.is_chow() && b.is_chow() && a.suit == b.suit && (a.rank + 3
            == b.rank || b.rank + 3 == a.rank),
    }
}

pub fn pair_ok(t: PairTest, a: &MeldInfo, b: &MeldInfo) -> (r: bool)
    ensures
        r == pair_passes(t, *a, *b),
{
    let a_chow = a.kind == MeldKind::Chow;
    let b_chow = b.kind == MeldKind::Chow;
    match t {
        PairTest::DoublePung => !a_chow && !b_chow && a.rank > 0 && a.rank == b.rank && a.suit
            != b.suit,
        PairTest::PureDoubleChow => a_chow && b_chow && a.rank == b.rank && a.suit == b.suit,
        PairTest::MixedDoubleChow => a_chow && b_chow && a.rank == b.rank && a.suit != b.suit,
        PairTest::ShortStraight => a_chow && b_chow && a.suit == b.suit && (a.rank as u16 + 3
            == b.rank as u16 || b.rank as u16 + 3 == a.rank as u16),
    }
}

/// Set `i` is related by `t` to another set.
pub open spec fn has_partner(p: HandProfile, t: PairTest, i: int) -> bool {
    exists|j: int| 0 <= j < p.n_sets && j != i && pair_passes(t, p.meld(i), #[trigger] p.meld(j))
}

/// The sets among the first `k` that are related by `t` to another set, as
/// a mask.
pub open spec fn partner_mask_upto(p: HandProfile, t: PairTest, k: int) -> int
    decreases k,
{
    if k <= 0 {
        0
    } else {
        partner_mask_upto(p, t, k - 1) + if has_partner(p, t, k - 1) {
            bit_value(k - 1)
        } else {
            0
        }
    }
}

/// The sets that are related by `t` to another set, as a mask.
pub open spec fn partner_mask(p: HandProfile, t: PairTest) -> int {
    partner_mask_upto(p, t, p.n_sets as int)
}

fn partner_of(p: &HandProfile, t: PairTest, i: usize) -> (r: bool)
    requires
        p.n_sets <= 4,
        i < p.n_sets,
    ensures
        r == has_partner(*p, t, i as int),
{
    let n = p.n_sets as usize;
    let mut j: usize = 0;
    while j < n
        invariant
            n == p.n_sets,
            n <= 4,
            j <= n,
            i < n,
            forall|k: int| 0 <= k < j && k != i ==> !pair_passes(t, p.meld(i as int), #[trigger] p.meld(k)),
        decreases n - j,
    {
        if j != i && pair_ok(t, &p.melds[i], &p.melds[j]) {
            assert(pair_passes(t, p.meld(i as int), p.meld(j as int)));
            return true;
        }
        j = j + 1;
    }
    false
}

/// The mask of the sets related by `t` to another set.
pub fn partner_mask_exec(p: &HandProfile, t: PairTest) -> (r: u64)
    requires
        p.n_sets <= 4,
    ensures
        r == partner_mask(*p, t),
        r < 16,
{
    let n = p.n_sets as usize;
    let mut m: u64 = 0;
    let mut i: usize = 0;
    while i < n
        invariant
            n == p.n_sets,
            n <= 4,
            i <= n,
            m == partner_mask_upto(*p, t, i as int),
            m <= mask_bound(i as int),
        decreases n - i,
    {
        if partner_of(p, t, i) {
            m = m + bit_exec(i);
        }
        i = i + 1;
    }
    m
}

// ── Tests over three sets ────────────────────────────────────────

/// A relation between three sets that some fans count.
#[derive(Clone, Copy, Debug, PartialEq, Eq, Structural)]
pub enum TripleTest {
    PureTripleChow,
    PureShiftedPungs,
    PureStraight,
    PureShiftedChows,
    TriplePung,
    MixedStraight,
    MixedTripleChow,
    MixedShiftedPungs,
    MixedShiftedChows,
}

/// The sets `a`, `b`, `c` are related by `t`.
pub open spec fn triple_passes(t: TripleTest, a: MeldInfo, b: MeldInfo, c: MeldInfo) -> bool {
    let chows = a.is_chow() && b.is_chow() && c.is_chow();
    let pungs = a.is_pung_or_kong() && b.is_pung_or_kong() && c.is_pung_or_kong();
    let same_suit = a.suit == b.suit && a.suit == c.suit;
    let same_rank = a.rank == b.rank && a.rank == c.rank;
    let three_suits = distinct3(a.suit as int, b.suit as int, c.suit as int);
    let (ra, rb, rc) = (a.rank as int, b.rank as int, c.rank as int);
    match t {
        TripleTest::PureTripleChow => chows && same_rank && same_suit,
        TripleTest::PureShiftedPungs => pungs && same_suit && consecutive3(ra, rb, rc),
        TripleTest::PureStraight => chows && same_suit && straight3(ra, rb, rc),
        TripleTest::PureShiftedChows => chows && same_suit && shifted3(ra, rb, rc),
        TripleTest::TriplePung => pungs && same_rank && three_suits,
        TripleTest::MixedStraight => chows && straight3(ra, rb, rc) && three_suits,
        TripleTest::MixedTripleChow => chows && same_rank && three_suits,
        TripleTest::MixedShiftedPungs => pungs && three_suits && consecutive3(ra, rb, rc),
        TripleTest::MixedShiftedChows => chows && three_suits && consecutive3(ra, rb, rc),
    }
}

pub fn triple_ok(t: TripleTest, a: &MeldInfo, b: &MeldInfo, c: &MeldInfo) -> (r: bool)
    ensures
        r == triple_passes(t, *a, *b, *c),
{
    let chows = a.kind == MeldKind::Chow && b.kind == MeldKind::Chow && c.kind == MeldKind::Chow;
    let pungs = a.kind != MeldKind::Chow && b.kind != MeldKind::Chow && c.kind != MeldKind::Chow;
    let same_suit = a.suit == b.suit && a.suit == c.suit;
    let same_rank = a.rank == b.rank && a.rank == c.rank;
    let three_suits = a.suit != b.suit && b.suit != c.suit && a.suit != c.suit;
    let (x8, y8, z8) = sort3_exec(a.rank, b.rank, c.rank);
    let (x, y, z) = (x8 as u16, y8 as u16, z8 as u16);
    let consecutive = y == x + 1 && z == y + 1;
    let shifted = (y == x + 1 || y == x + 2) && z >= y && y - x == z - y;
    let straight = x == 1 && y == 4 && z == 7;
    match t {
        TripleTest::PureTripleChow => chows && same_rank && same_suit,
        TripleTest::PureShiftedPungs => pungs && same_suit && consecutive,
        TripleTest::PureStraight => chows && same_suit && straight,
        TripleTest::PureShiftedChows => chows && same_suit && shifted,
        TripleTest::TriplePung => pungs && same_rank && three_suits,
        TripleTest::MixedStraight => chows && straight && three_suits,
        TripleTest::MixedTripleChow => chows && same_rank && three_suits,
        TripleTest::MixedShiftedPungs => pungs && three_suits && consecutive,
        TripleTest::MixedShiftedChows => chows && three_suits && consecutive,
    }
}

pub open spec fn triple_at(p: HandProfile, t: TripleTest, a: int, b: int, c: int) -> bool {
    c < p.n_sets && triple_passes(t, p.meld(a), p.meld(b), p.meld(c))
}

/// The first triple of sets, in lexicographic order of their indices, that
/// is related by `t`.
pub open spec fn triple_found(p: HandProfile, t: TripleTest) -> Option<(int, int, int)> {
    if triple_at(p, t, 0, 1, 2) {
        Some((0int, 1int, 2int))
    } else if triple_at(p, t, 0, 1, 3) {
        Some((0int, 1int, 3int))
    } else if triple_at(p, t, 0, 2, 3) {
        Some((0int, 2int, 3int))
    } else if triple_at(p, t, 1, 2, 3) {
        Some((1int, 2int, 3int))
    } else {
        None
    }
}

/// Some three sets are related by `t`.
pub open spec fn any_triple(p: HandProfile, t: TripleTest) -> bool {
    triple_found(p, t) is Some
}

pub fn find_triple(p: &HandProfile, t: TripleTest) -> (r: Option<(usize, usize, usize)>)
    requires
        p.n_sets <= 4,
    ensures
        match r {
            Some((a, b, c)) => triple_found(*p, t) == Some((a as int, b as int, c as int)),
            None => triple_found(*p, t) is None,
        },
        match r {
            Some((a, b, c)) => a < b < c < 4,
            None => true,
        },
{
    let n = p.n_sets;
    if n >= 3 && triple_ok(t, &p.melds[0], &p.melds[1], &p.melds[2]) {
        Some((0, 1, 2))
    } else if n >= 4 && triple_ok(t, &p.melds[0], &p.melds[1], &p.melds[3]) {
        Some((0, 1, 3))
    } else if n >= 4 && triple_ok(t, &p.melds[0], &p.melds[2], &p.melds[3]) {
        Some((0, 2, 3))
    } else if n >= 4 && triple_ok(t, &p.melds[1], &p.melds[2], &p.melds[3]) {
        Some((1, 2, 3))
    } else {
        None
    }
}

// ── Tests over four sets ─────────────────────────────────────────

/// A relation between four sets that some fans count.
#[derive(Clone, Copy, Debug, PartialEq, Eq, Structural)]
pub enum QuadTest {
    QuadrupleChow,
    FourPureShiftedPungs,
    FourShiftedChows,
}

pub open spec fn quad_passes(t: QuadTest, a: MeldInfo, b: MeldInfo, c: MeldInfo, d: MeldInfo) -> bool {
    let chows = a.is_chow() && b.is_chow() && c.is_chow() && d.is_chow();
    let pungs = a.is_pung_or_kong() && b.is_pung_or_kong() && c.is_pung_or_kong()
        && d.is_pung_or_kong();
    let same_suit = a.suit == b.suit && a.suit == c.suit && a.suit == d.suit;
    let (w, x, y, z) = sort4(a.rank as int, b.rank as int, c.rank as int, d.rank as int);
    match t {
        QuadTest::QuadrupleChow => chows && same_suit && a.rank == b.rank && a.rank == c.rank
            && a.rank == d.rank,
        QuadTest::FourPureShiftedPungs => pungs && same_suit && x == w + 1 && y == x + 1 && z
            == y + 1,
        QuadTest::FourShiftedChows => chows && same_suit && (x - w == 1 || x - w == 2) && x - w
            == y - x && y - x == z - y,
    }
}

/// All four sets are related by `t`.
pub open spec fn four_sets(p: HandProfile, t: QuadTest) -> bool {
    p.n_sets == 4 && quad_passes(t, p.meld(0), p.meld(1), p.meld(2), p.meld(3))
}

pub fn four_sets_exec(p: &HandProfile, t: QuadTest) -> (r: bool)
    ensures
        r == four_sets(*p, t),
{
    if p.n_sets != 4 {
        return false;
    }
    let (a, b, c, d) = (&p.melds[0], &p.melds[1], &p.melds[2], &p.melds[3]);
    let chows = a.kind == MeldKind::Chow && b.kind == MeldKind::Chow && c.kind == MeldKind::Chow
        && d.kind == MeldKind::Chow;
    let pungs = a.kind != MeldKind::Chow && b.kind != MeldKind::Chow && c.kind != MeldKind::Chow
        && d.kind != MeldKind::Chow;
    let same_suit = a.suit == b.suit && a.suit == c.suit && a.suit == d.suit;
    let (w8, x8, y8, z8) = sort4_exec(a.rank, b.rank, c.rank, d.rank);
    let (w, x, y, z) = (w8 as u16, x8 as u16, y8 as u16, z8 as u16);
    match t {
        QuadTest::QuadrupleChow => chows && same_suit && a.rank == b.rank && a.rank == c.rank
            && a.rank == d.rank,
        QuadTest::FourPureShiftedPungs => pungs && same_suit && x == w + 1 && y == x + 1 && z
            == y + 1,
        QuadTest::FourShiftedChows => chows && same_suit && (x == w + 1 || x == w + 2) && y >= x
            && z >= y && x - w == y - x && y - x == z - y,
    }
}

// ── Tests over the seven pairs ───────────────────────────────────

/// A property of one tile, asked of the tiles of a seven-pairs hand.
#[derive(Clone, Copy, Debug, PartialEq, Eq, Structural)]
pub enum TileTest {
    Green,
    Terminal,
    Honor,
    InSuit(u8),
    RankIn(u8, u8),
}

pub open spec fn tile_passes(t: TileTest, tile: Tile) -> bool {
    match t {
        TileTest::Green => spec_is_green(tile),
        TileTest::Terminal => spec_is_terminal(tile),
        TileTest::Honor => spec_is_honor(tile),
        TileTest::InSuit(s) => spec_suit(tile) == s,
        TileTest::RankIn(lo, hi) => lo <= spec_rank(tile) <= hi,
    }
}

pub fn tile_ok(t: TileTest, tile: Tile) -> (r: bool)
    ensures
        r == tile_passes(t, tile),
{
    match t {
        TileTest::Green => is_green_tile(tile),
        TileTest::Terminal => is_terminal_tile(tile),
        TileTest::Honor => is_honor_tile(tile),
        TileTest::InSuit(s) => suit_of(tile) == s,
        TileTest::RankIn(lo, hi) => {
            let r = rank_of(tile);
            lo <= r && r <= hi
        },
    }
}

/// Every tile of the seven pairs passes `t`.
pub open spec fn all_pairs_pass(p: HandProfile, t: TileTest) -> bool {
    forall|i: int| 0 <= i < 7 ==> tile_passes(t, #[trigger] p.pair_tiles@[i])
}

pub fn all_pair_tiles(p: &HandProfile, t: TileTest) -> (r: bool)
    ensures
        r == all_pairs_pass(*p, t),
{
    let mut i: usize = 0;
    while i < 7
        invariant
            i <= 7,
            forall|j: int| 0 <= j < i ==> tile_passes(t, #[trigger] p.pair_tiles@[j]),
        decreases 7 - i,
    {
        if !tile_ok(t, p.pair_tiles[i]) {
            assert(!tile_passes(t, p.pair_tiles@[i as int]));
            return false;
        }
        i = i + 1;
    }
    true
}

/// The number of the first `k` pair tiles of rank `r`.
pub open spec fn pair_rank_count_upto(p: HandProfile, r: int, k: int) -> nat
    decreases k,
{
    if k <= 0 {
        0
    } else {
        pair_rank_count_upto(p, r, k - 1) + if spec_rank(p.pair_tiles@[k - 1]) == r {
            1nat
        } else {
            0nat
        }
    }
}

/// The number of the seven pairs of rank `r`.
pub open spec fn pair_rank_count(p: HandProfile, r: int) -> nat {
    pair_rank_count_upto(p, r, 7)
}

pub fn pair_rank_count_exec(p: &HandProfile, r: u8) -> (c: u8)
    ensures
        c == pair_rank_count(*p, r as int),
{
    let mut c: u8 = 0;
    let mut i: usize = 0;
    while i < 7
        invariant
            i <= 7,
            c == pair_rank_count_upto(*p, r as int, i as int),
            c <= i,
        decreases 7 - i,
    {
        if rank_of(p.pair_tiles[i]) == r {
            c = c + 1;
        }
        i = i + 1;
    }
    c
}

// ── Counting tiles of one kind ───────────────────────────────────

/// How many tiles of suit `s` and rank `r` the set `m` holds.
pub open spec fn meld_tile_count(m: MeldInfo, s: int, r: int) -> int {
    if m.is_honor || m.suit != s {
        0
    } else if m.kind == MeldKind::Chow {
        if m.rank <= r <= m.rank + 2 {
            1
        } else {
            0
        }
    } else if m.rank != r {
        0
    } else if m.kind == MeldKind::Kong {
        4
    } else {
        3
    }
}

/// How many tiles of suit `s` and rank `r` the first `k` sets hold.
pub open spec fn tile_count_upto(p: HandProfile, s: int, r: int, k: int) -> int
    decreases k,
{
    if k <= 0 {
        0
    } else {
        tile_count_upto(p, s, r, k - 1) + meld_tile_count(p.meld(k - 1), s, r)
    }
}

/// How many tiles of suit `s` and rank `r` the sets and the pair hold.
pub open spec fn tile_count(p: HandProfile, s: int, r: int) -> int {
    tile_count_upto(p, s, r, p.n_sets as int) + if !p.pair.is_honor && p.pair.suit == s
        && p.pair.rank == r {
        2int
    } else {
        0
    }
}

fn meld_tile_count_exec(m: &MeldInfo, s: u8, r: u8) -> (c: u8)
    ensures
        c == meld_tile_count(*m, s as int, r as int),
        c <= 4,
{
    if m.is_honor || m.suit != s {
        0
    } else if m.kind == MeldKind::Chow {
        if m.rank <= r && r as u16 <= m.rank as u16 + 2 {
            1
        } else {
            0
        }
    } else if m.rank != r {
        0
    } else if m.kind == MeldKind::Kong {
        4
    } else {
        3
    }
}

pub fn tile_count_exec(p: &HandProfile, s: u8, r: u8) -> (c: u8)
    requires
        p.n_sets <= 4,
    ensures
        c == tile_count(*p, s as int, r as int),
{
    let n = p.n_sets as usize;
    let mut c: u8 = 0;
    let mut i: usize = 0;
    while i < n
        invariant
            n == p.n_sets,
            n <= 4,
            i <= n,
            c == tile_count_upto(*p, s as int, r as int, i as int),
            c <= 4 * i,
        decreases n - i,
    {
        c = c + meld_tile_count_exec(&p.melds[i], s, r);
        i = i + 1;
    }
    if !p.pair.is_honor && p.pair.suit == s && p.pair.rank == r {
        c = c + 2;
    }
    c
}

} // verus!
