//! Tile structures, hand decomposition and fan scoring for Mahjong
//! Competition Rules (MCR).

pub mod structs;
pub mod solver;
