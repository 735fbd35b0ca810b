use mahjong_core::structs::{Tile, TileType};


// Tile groups by type — source of truth is the enum variant name.
const CHARACTERS: [Tile; 9] = [
    Tile::Character1, Tile::Character2, Tile::Character3,
    Tile::Character4, Tile::Character5, Tile::Character6,
    Tile::Character7, Tile::Character8, Tile::Character9,
];
const DOTS: [Tile; 9] = [
    Tile::Dot1, Tile::Dot2, Tile::Dot3,
    Tile::Dot4, Tile::Dot5, Tile::Dot6,
    Tile::Dot7, Tile::Dot8, Tile::Dot9,
];
const BAMBOOS: [Tile; 9] = [
    Tile::Bamboo1, Tile::Bamboo2, Tile::Bamboo3,
    Tile::Bamboo4, Tile::Bamboo5, Tile::Bamboo6,
    Tile::Bamboo7, Tile::Bamboo8, Tile::Bamboo9,
];
const WINDS: [Tile; 4] = [
    Tile::East, Tile::South, Tile::West, Tile::North,
];
const DRAGONS: [Tile; 3] = [
    Tile::Red, Tile::Green, Tile::White,
];
const FLOWERS: [Tile; 8] = [
    Tile::Plum, Tile::Orchid, Tile::BambooF,
    Tile::Chrysanthemum, Tile::Spring, Tile::Summer,
    Tile::Autumn, Tile::Winter,
];

// --- TileType method tests ---

#[test]
fn tile_type_is_suit() {
    for &t in &CHARACTERS {
        assert!(t.get_type().is_suit(), "{:?}", t);
    }
    for &t in &DOTS {
        assert!(t.get_type().is_suit(), "{:?}", t);
    }
    for &t in &BAMBOOS {
        assert!(t.get_type().is_suit(), "{:?}", t);
    }
    for &t in &WINDS {
        assert!(!t.get_type().is_suit(), "{:?}", t);
    }
    for &t in &DRAGONS {
        assert!(!t.get_type().is_suit(), "{:?}", t);
    }
    for &t in &FLOWERS {
        assert!(!t.get_type().is_suit(), "{:?}", t);
    }
}

#[test]
fn tile_type_is_honor() {
    for &t in &CHARACTERS {
        assert!(!t.get_type().is_honor(), "{:?}", t);
    }
    for &t in &DOTS {
        assert!(!t.get_type().is_honor(), "{:?}", t);
    }
    for &t in &BAMBOOS {
        assert!(!t.get_type().is_honor(), "{:?}", t);
    }
    for &t in &WINDS {
        assert!(t.get_type().is_honor(), "{:?}", t);
    }
    for &t in &DRAGONS {
        assert!(t.get_type().is_honor(), "{:?}", t);
    }
    for &t in &FLOWERS {
        assert!(!t.get_type().is_honor(), "{:?}", t);
    }
}

#[test]
fn tile_type_is_flower() {
    for &t in &CHARACTERS {
        assert!(!t.get_type().is_flower(), "{:?}", t);
    }
    for &t in &DOTS {
        assert!(!t.get_type().is_flower(), "{:?}", t);
    }
    for &t in &BAMBOOS {
        assert!(!t.get_type().is_flower(), "{:?}", t);
    }
    for &t in &WINDS {
        assert!(!t.get_type().is_flower(), "{:?}", t);
    }
    for &t in &DRAGONS {
        assert!(!t.get_type().is_flower(), "{:?}", t);
    }
    for &t in &FLOWERS {
        assert!(t.get_type().is_flower(), "{:?}", t);
    }
}

// --- Tile::from_repr — round-trip every variant ---

#[test]
fn from_repr_round_trips_all_variants() {
    for tile in Tile::iter() {
        let raw = tile.id();
        assert_eq!(tile, Tile::from_repr(raw), "from_repr({}) should produce {:?}", raw, tile);
    }
}

// --- Tile::get_type — every tile maps to the correct TileType ---

#[test]
fn get_type_for_characters() {
    for &t in &CHARACTERS {
        assert_eq!(t.get_type(), TileType::Character, "{:?}", t);
    }
}

#[test]
fn get_type_for_dots() {
    for &t in &DOTS {
        assert_eq!(t.get_type(), TileType::Dot, "{:?}", t);
    }
}

#[test]
fn get_type_for_bamboos() {
    for &t in &BAMBOOS {
        assert_eq!(t.get_type(), TileType::Bamboo, "{:?}", t);
    }
}

#[test]
fn get_type_for_winds() {
    for &t in &WINDS {
        assert_eq!(t.get_type(), TileType::Wind, "{:?}", t);
    }
}

#[test]
fn get_type_for_dragons() {
    for &t in &DRAGONS {
        assert_eq!(t.get_type(), TileType::Dragon, "{:?}", t);
    }
}

#[test]
fn get_type_for_flowers() {
    for &t in &FLOWERS {
        assert_eq!(t.get_type(), TileType::Flower, "{:?}", t);
    }
}

// --- Tile::next — advance by one within each group ---

#[test]
fn next_character_tiles() {
    // Character1 through Character8 each have a next; Character9 is the last.
    for i in 0..8 {
        assert_eq!(CHARACTERS[i].next(), CHARACTERS[i + 1], "{:?}.next()", CHARACTERS[i]);
    }
}

#[test]
fn next_dot_tiles() {
    for i in 0..8 {
        assert_eq!(DOTS[i].next(), DOTS[i + 1], "{:?}.next()", DOTS[i]);
    }
}

#[test]
fn next_bamboo_tiles() {
    for i in 0..8 {
        assert_eq!(BAMBOOS[i].next(), BAMBOOS[i + 1], "{:?}.next()", BAMBOOS[i]);
    }
}

#[test]
fn next_wind_tiles() {
    // East, South, West advance; North is the last.
    for i in 0..3 {
        assert_eq!(WINDS[i].next(), WINDS[i + 1], "{:?}.next()", WINDS[i]);
    }
}

#[test]
fn next_dragon_tiles() {
    // Red, Green advance; White is the last.
    for i in 0..2 {
        assert_eq!(DRAGONS[i].next(), DRAGONS[i + 1], "{:?}.next()", DRAGONS[i]);
    }
}

#[test]
fn next_flower_tiles() {
    // Plum through Autumn advance; Winter is the last.
    for i in 0..7 {
        assert_eq!(FLOWERS[i].next(), FLOWERS[i + 1], "{:?}.next()", FLOWERS[i]);
    }
}

// --- Tile::is_suit / is_honor / is_flower delegation tests ---

#[test]
fn tile_is_suit_delegates_to_type() {
    for tile in Tile::iter() {
        assert_eq!(tile.is_suit(), tile.get_type().is_suit(), "{:?}", tile);
    }
}

#[test]
fn tile_is_honor_delegates_to_type() {
    for tile in Tile::iter() {
        assert_eq!(tile.is_honor(), tile.get_type().is_honor(), "{:?}", tile);
    }
}

#[test]
fn tile_is_flower_delegates_to_type() {
    for tile in Tile::iter() {
        assert_eq!(tile.is_flower(), tile.get_type().is_flower(), "{:?}", tile);
    }
}

// --- Constant sanity checks ---

#[test]
fn constants_are_correct() {
    assert_eq!(Tile::NON_FLOWER_TILE_COUNT, 34);
    assert_eq!(Tile::FLOWER_TILE_COUNT, 8);
    assert_eq!(Tile::COUNT, 42);
    assert_eq!(Tile::iter().len(), 42);
}

#[test]
fn all_array_matches_tile_groups() {
    // Verify Tile::ALL is exactly the concatenation of the group arrays.
    let mut expected = Vec::new();
    expected.extend_from_slice(&CHARACTERS);
    expected.extend_from_slice(&DOTS);
    expected.extend_from_slice(&BAMBOOS);
    expected.extend_from_slice(&WINDS);
    expected.extend_from_slice(&DRAGONS);
    expected.extend_from_slice(&FLOWERS);
    assert_eq!(Tile::iter(), expected);
}

#[test]
fn iter_produces_all_tiles() {
    let collected: Vec<Tile> = Tile::iter();
    let mut expected: Vec<Tile> = Vec::new();
    for group in [&CHARACTERS[..], &DOTS[..], &BAMBOOS[..], &WINDS[..], &DRAGONS[..], &FLOWERS[..]] {
        expected.extend_from_slice(group);
    }
    assert_eq!(collected, expected);
}
