pub mod tiles;
pub mod sets;
pub mod hand;

pub use tiles::{Tile, TileType, TileError};
pub use sets::{Meld, Pair, Quad, Sequence, Triplet};
pub use hand::{BitTileCounts, Hand};

use vstd::prelude::*;
use tiles::{all_tiles, tile_of_dense};
use rand::seq::SliceRandom;

verus! {

/// The four winds, in playing order.
#[derive(Debug, Clone, Copy, PartialEq, Eq, Hash, Structural)]
pub enum Wind {
    East,
    South,
    West,
    North,
}

impl Wind {
    pub open spec fn spec_next(self) -> Wind {
        match self {
            Wind::East => Wind::South,
            Wind::South => Wind::West,
            Wind::West => Wind::North,
            Wind::North => Wind::East,
        }
    }

    pub open spec fn spec_tile(self) -> Tile {
        match self {
            Wind::East => Tile::East,
            Wind::South => Tile::South,
            Wind::West => Tile::West,
            Wind::North => Tile::North,
        }
    }

    /// The wind that follows this one; North is followed by East.
    pub fn next(self) -> (r: Self)
        ensures
            r == self.spec_next(),
    {
        match self {
            Wind::East => Wind::South,
            Wind::South => Wind::West,
            Wind::West => Wind::North,
            Wind::North => Wind::East,
        }
    }

    /// The four winds, East first.
    pub fn iter() -> (r: Vec<Wind>)
        ensures
            r@ == seq![Wind::East, Wind::South, Wind::West, Wind::North],
    {
        let r = vec![Wind::East, Wind::South, Wind::West, Wind::North];
        assert(r@ =~= seq![Wind::East, Wind::South, Wind::West, Wind::North]);
        r
    }

    /// The wind tile of this wind.
    pub fn to_tile(self) -> (r: Tile)
        ensures
            r == self.spec_tile(),
    {
        match self {
            Wind::East => Tile::East,
            Wind::South => Tile::South,
            Wind::West => Tile::West,
            Wind::North => Tile::North,
        }
    }
}

/// Four steps round the table come back to the same wind, and every step
/// moves to another wind.
pub proof fn lemma_winds_cycle(w: Wind)
    ensures
        w.spec_next().spec_next().spec_next().spec_next() == w,
        w.spec_next() != w,
{
}

/// The winds in the order of play.
pub open spec fn winds_in_order() -> Seq<Wind> {
    seq![Wind::East, Wind::South, Wind::West, Wind::North]
}

/// The `k`-th wind in the order of play has the `k`-th wind tile, numbered
/// 192 + 4k, and is followed by the next wind in that order.
pub proof fn lemma_wind_order(k: int)
    requires
        0 <= k < 4,
    ensures
        winds_in_order()[k].spec_tile().spec_id() == 192 + 4 * k,
        winds_in_order()[k].spec_next() == winds_in_order()[(k + 1) % 4],
{
}

/// East's tile is the East tile, and each wind's tile is the wind tile that
/// follows the tile of the wind before it, North's coming back to East's:
/// the wind tiles are numbered 192, 196, 200 and 204, in the order of play.
pub proof fn lemma_wind_tiles(w: Wind)
    ensures
        Wind::East.spec_tile() == Tile::East,
        192 <= w.spec_tile().spec_id() <= 204,
        w.spec_next().spec_tile().spec_id() == 192 + (w.spec_tile().spec_id() - 192 + 4) % 16,
{
}

/// The number of tiles of a full set: four of each of the 34 non-flower
/// tiles and one of each of the 8 flowers.
pub const WALL_SIZE: usize = 144;

/// The wall of a fresh set, in identifier order: four copies of each
/// non-flower tile, then one of each flower.
pub open spec fn mcr_wall() -> Seq<Tile> {
    Seq::new(
        144,
        |i: int| if i < 136 { tile_of_dense(i / 4) } else { tile_of_dense(34 + (i - 136)) },
    )
}

#[verifier::external_type_specification]
#[verifier::external_body]
pub struct ExStdRng(rand::rngs::StdRng);

/// Shuffles the tiles in place with `rand`'s `SliceRandom::shuffle`.
/// It claims only that the result is a permutation of the input; which
/// permutation comes out depends on the generator. The shuffle swaps
/// elements at indices drawn below the slice length and does not panic.
#[verifier::external_body]
fn shuffle_tiles(tiles: &mut Vec<Tile>, rng: &mut rand::rngs::StdRng)
    ensures
        final(tiles)@.len() == old(tiles)@.len(),
        final(tiles)@.to_multiset() == old(tiles)@.to_multiset(),
    no_unwind
{
    tiles.as_mut_slice().shuffle(rng);
}

/// The wall from which tiles are drawn, front to back.
#[derive(Debug)]
pub struct Wall {
    tiles: Vec<Tile>,
    pointer: usize,
}

impl Wall {
    #[verifier::type_invariant]
    spec fn inv(self) -> bool {
        self.tiles@.len() == WALL_SIZE
    }

    /// The tiles of the wall, front to back.
    pub closed spec fn spec_tiles(self) -> Seq<Tile> {
        self.tiles@
    }

    /// How many tiles have been drawn.
    pub closed spec fn spec_pointer(self) -> nat {
        self.pointer as nat
    }

    /// A fresh, unshuffled wall.
    pub fn new_mcr() -> (r: Self)
        ensures
            r.spec_tiles() == mcr_wall(),
            r.spec_pointer() == 0,
    {
        let all = Tile::iter();
        let mut tiles: Vec<Tile> = Vec::new();
        let mut i: usize = 0;
        while i < 42
            invariant
                i <= 42,
                all@ == all_tiles(),
                tiles@.len() == if i <= 34 { 4 * i } else { 136 + (i - 34) },
                forall|j: int| 0 <= j < tiles@.len() ==> #[trigger] tiles@[j] == mcr_wall()[j],
            decreases 42 - i,
        {
            let tile = all[i];
            proof {
                tiles::lemma_tile_id_roundtrip(tile);
                assert(tile == tile_of_dense(i as int));
            }
            let count: usize = if tile.is_flower() { 1 } else { 4 };
            proof {
                assert(tile.spec_is_flower() <==> i >= 34);
            }
            let mut c: usize = 0;
            while c < count
                invariant
                    c <= count,
                    count == (if i < 34 { 4usize } else { 1usize }),
                    i < 42,
                    tile == tile_of_dense(i as int),
                    tiles@.len() == (if i <= 34 { 4 * i } else { 136 + (i - 34) }) + c,
                    forall|j: int| 0 <= j < tiles@.len() ==> #[trigger] tiles@[j] == mcr_wall()[j],
                decreases count - c,
            {
                let ghost j = tiles@.len() as int;
                tiles.push(tile);
                proof {
                    if i < 34 {
                        assert(j / 4 == i as int);
                    }
                    assert(tiles@[j] == mcr_wall()[j]);
                }
                c = c + 1;
            }
            i = i + 1;
        }
        assert(tiles@ =~= mcr_wall());
        Wall { tiles, pointer: 0 }
    }

    /// Shuffles the wall.
    pub fn shuffle(&mut self, rng: &mut rand::rngs::StdRng)
        ensures
            final(self).spec_tiles().to_multiset() == old(self).spec_tiles().to_multiset(),
            final(self).spec_pointer() == old(self).spec_pointer(),
    {
        proof {
            use_type_invariant(&*self);
        }
        shuffle_tiles(&mut self.tiles, rng);
    }

    /// Draws the next tile, if any is left.
    pub fn yield_tile(&mut self) -> (r: Option<Tile>)
        ensures
            old(self).spec_pointer() >= WALL_SIZE ==> r is None && *final(self) == *old(self),
            old(self).spec_pointer() < WALL_SIZE ==> r == Some(old(self).spec_tiles()[old(self).spec_pointer() as int])
                && final(self).spec_pointer() == old(self).spec_pointer() + 1
                && final(self).spec_tiles() == old(self).spec_tiles(),
    {
        proof {
            use_type_invariant(&*self);
        }
        if self.is_empty() {
            return None;
        }
        let tile = self.tiles[self.pointer];
        self.pointer = self.pointer + 1;
        Some(tile)
    }

    /// All tiles have been drawn.
    pub fn is_empty(&self) -> (r: bool)
        ensures
            r == (self.spec_pointer() >= WALL_SIZE),
    {
        self.pointer >= WALL_SIZE
    }
}

} // verus!
