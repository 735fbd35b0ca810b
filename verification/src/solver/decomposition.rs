//! A complete decomposition of a winning hand.

use vstd::prelude::*;

use crate::structs::sets::is_chow_start;
use crate::structs::{Meld, Pair, Tile};

verus! {

/// A set is of a tile that is no flower, and a chow starts at rank 1 to 7
/// of a suit, so its three tiles are of that suit.
pub open spec fn set_ok(m: Meld) -> bool {
    &&& !m.spec_tile().spec_is_flower()
    &&& m is Chow ==> is_chow_start(m.spec_tile())
}

/// How many copies of `t` the list holds.
pub open spec fn tiles_count(s: Seq<Tile>, t: Tile) -> nat
    decreases s.len(),
{
    if s.len() == 0 {
        0
    } else {
        tiles_count(s.drop_last(), t) + if s.last() == t {
            1nat
        } else {
            0nat
        }
    }
}

/// How many copies of `t` the sets hold together.
pub open spec fn sets_count(ms: Seq<Meld>, t: Tile) -> nat
    decreases ms.len(),
{
    if ms.len() == 0 {
        0
    } else {
        sets_count(ms.drop_last(), t) + tiles_count(ms.last().spec_tiles(), t)
    }
}

/// Counting over a concatenation adds up.
pub proof fn lemma_sets_count_concat(a: Seq<Meld>, b: Seq<Meld>, t: Tile)
    ensures
        sets_count(a + b, t) == sets_count(a, t) + sets_count(b, t),
    decreases b.len(),
{
    if b.len() == 0 {
        assert(a + b == a);
    } else {
        lemma_sets_count_concat(a, b.drop_last(), t);
        assert((a + b).drop_last() == a + b.drop_last());
        assert((a + b).last() == b.last());
    }
}

/// A single set holds its own tiles.
pub proof fn lemma_sets_count_one(m: Meld, t: Tile)
    ensures
        sets_count(seq![m], t) == tiles_count(m.spec_tiles(), t),
{
    assert(seq![m].drop_last() == Seq::<Meld>::empty());
    assert(seq![m].last() == m);
    assert(sets_count(Seq::<Meld>::empty(), t) == 0);
}

/// The tiles of a pung, a chow or a kong, counted.
pub proof fn lemma_meld_tiles_count(m: Meld, t: Tile)
    ensures
        tiles_count(m.spec_tiles(), t) == match m {
            Meld::Chow(c) => (if t == c.spec_start() { 1nat } else { 0nat }) + (if t
                == c.spec_start().spec_next() {
                1nat
            } else {
                0nat
            }) + (if t == c.spec_start().spec_next().spec_next() {
                1nat
            } else {
                0nat
            }),
            Meld::Pung(p) => if t == p.spec_tile() {
                3nat
            } else {
                0nat
            },
            Meld::Kong(q) => if t == q.spec_tile() {
                4nat
            } else {
                0nat
            },
        },
{
    let s = m.spec_tiles();
    reveal_with_fuel(tiles_count, 5);
    match m {
        Meld::Chow(c) => {
            assert(s.drop_last().drop_last().drop_last() == Seq::<Tile>::empty());
        },
        Meld::Pung(p) => {
            assert(s.drop_last().drop_last().drop_last() == Seq::<Tile>::empty());
        },
        Meld::Kong(q) => {
            assert(s.drop_last().drop_last().drop_last().drop_last() == Seq::<Tile>::empty());
        },
    }
}

/// A complete decomposition of a winning hand.
///
/// The fan rules read it through a `HandProfile`; the variants hold the
/// sets and pairs themselves.
pub enum Decomposition {
    /// Up to four sets (declared ones first) and one pair.
    Standard { pair: Pair, sets: Vec<Meld> },
    SevenPairs { pairs: [Pair; 7] },
    /// The thirteen terminals and honors, one of them doubled.
    ThirteenOrphans { pair: Pair },
}

/// The concealed part of a standard decomposition: its pair and its sets.
pub struct ConcealedDecomp {
    pub pair_tile: Tile,
    pub sets: Vec<Meld>,
}

impl Decomposition {
    /// A standard decomposition has at most four sets.
    pub open spec fn wf(self) -> bool {
        match self {
            Decomposition::Standard { sets, .. } => sets@.len() <= 4,
            _ => true,
        }
    }
}

} // verus!
