//! What the fan rules need to know of a win beyond the tiles.

use vstd::prelude::*;

use crate::structs::{Tile, Wind};
pub use super::{WaitType, WinMethod};

verus! {

/// Game-state context needed for fan rule evaluation.
///
/// Many fans depend on how the hand was won, the player's position and
/// other facts that the tiles alone do not show.
#[derive(Clone, Copy, Debug)]
pub struct FanContext {
    pub seat_wind: Wind,
    pub prevalent_wind: Wind,
    pub win_method: WinMethod,
    pub winning_tile: Tile,
    pub wait_type: WaitType,
    pub flower_count: u8,
    pub is_concealed: bool,
    pub is_fully_concealed: bool,
    pub is_last_tile_draw: bool,
    pub is_last_tile_claim: bool,
    pub is_last_tile_of_kind: bool,
    pub wall_remaining: usize,
}

impl FanContext {
    /// The tile of the wind of the round.
    pub fn prevalent_wind_to_tile(&self) -> (r: Tile)
        ensures
            r == self.prevalent_wind.spec_tile(),
    {
        wind_to_tile(self.prevalent_wind)
    }

    /// The tile of the player's seat wind.
    pub fn seat_wind_to_tile(&self) -> (r: Tile)
        ensures
            r == self.seat_wind.spec_tile(),
    {
        wind_to_tile(self.seat_wind)
    }
}

/// The tile of a wind.
pub fn wind_to_tile(w: Wind) -> (r: Tile)
    ensures
        r == w.spec_tile(),
{
    match w {
        Wind::East => Tile::East,
        Wind::South => Tile::South,
        Wind::West => Tile::West,
        Wind::North => Tile::North,
    }
}

} // verus!
