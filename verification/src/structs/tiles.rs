use vstd::prelude::*;

verus! {

/// The six kinds of tiles in a Mahjong Competition Rules set.
#[derive(Debug, Clone, Copy, PartialEq, Eq, Hash, Structural)]
pub enum TileType {
    Character,
    Dot,
    Bamboo,
    Wind,
    Dragon,
    Flower,
}

impl TileType {
    pub open spec fn spec_is_suit(self) -> bool {
        self is Character || self is Dot || self is Bamboo
    }

    pub open spec fn spec_is_honor(self) -> bool {
        self is Wind || self is Dragon
    }

    /// Characters, dots and bamboos are suits.
    pub fn is_suit(self) -> (r: bool)
        ensures
            r == self.spec_is_suit(),
    {
        match self {
            TileType::Character | TileType::Dot | TileType::Bamboo => true,
            _ => false,
        }
    }

    /// Winds and dragons are honors.
    pub fn is_honor(self) -> (r: bool)
        ensures
            r == self.spec_is_honor(),
    {
        match self {
            TileType::Wind | TileType::Dragon => true,
            _ => false,
        }
    }

    pub fn is_flower(self) -> (r: bool)
        ensures
            r == (self is Flower),
    {
        match self {
            TileType::Flower => true,
            _ => false,
        }
    }
}

/// Why a number could not be turned into a tile.
#[derive(Debug)]
pub enum TileError {
    ConversionError(&'static str),
}

/// A Mahjong tile.
///
/// Every tile has an identifier laid out for bitwise counting: the
/// identifier is `row * 64 + shift`, where the row is the suit (characters,
/// dots, bamboos, then honors and flowers) and the shift is four times the
/// position of the tile inside its row, so that each tile owns one nibble.
#[derive(Debug, Clone, Copy, PartialEq, Eq, PartialOrd, Ord, Hash, Structural)]
pub enum Tile {
    Character1,
    Character2,
    Character3,
    Character4,
    Character5,
    Character6,
    Character7,
    Character8,
    Character9,
    Dot1,
    Dot2,
    Dot3,
    Dot4,
    Dot5,
    Dot6,
    Dot7,
    Dot8,
    Dot9,
    Bamboo1,
    Bamboo2,
    Bamboo3,
    Bamboo4,
    Bamboo5,
    Bamboo6,
    Bamboo7,
    Bamboo8,
    Bamboo9,
    East,
    South,
    West,
    North,
    Red,
    Green,
    White,
    Plum,
    Orchid,
    BambooF,
    Chrysanthemum,
    Spring,
    Summer,
    Autumn,
    Winter,
}

/// Every tile, in identifier order.
pub open spec fn all_tiles() -> Seq<Tile> {
    seq![Tile::Character1, Tile::Character2, Tile::Character3, Tile::Character4, Tile::Character5, Tile::Character6, Tile::Character7, Tile::Character8, Tile::Character9, Tile::Dot1, Tile::Dot2, Tile::Dot3, Tile::Dot4, Tile::Dot5, Tile::Dot6, Tile::Dot7, Tile::Dot8, Tile::Dot9, Tile::Bamboo1, Tile::Bamboo2, Tile::Bamboo3, Tile::Bamboo4, Tile::Bamboo5, Tile::Bamboo6, Tile::Bamboo7, Tile::Bamboo8, Tile::Bamboo9, Tile::East, Tile::South, Tile::West, Tile::North, Tile::Red, Tile::Green, Tile::White, Tile::Plum, Tile::Orchid, Tile::BambooF, Tile::Chrysanthemum, Tile::Spring, Tile::Summer, Tile::Autumn, Tile::Winter]
}

/// `v` is the identifier of some tile.
pub open spec fn is_tile_id(v: int) -> bool {
    v == 0 || v == 4 || v == 8 || v == 12 || v == 16 || v == 20 || v == 24 || v == 28 || v == 32 || v == 64 || v == 68 || v == 72 || v == 76 || v == 80 || v == 84 || v == 88 || v == 92 || v == 96 || v == 128 || v == 132 || v == 136 || v == 140 || v == 144 || v == 148 || v == 152 || v == 156 || v == 160 || v == 192 || v == 196 || v == 200 || v == 204 || v == 208 || v == 212 || v == 216 || v == 220 || v == 224 || v == 228 || v == 232 || v == 236 || v == 240 || v == 244 || v == 248
}

/// The tile whose identifier is `v` (meaningful only where `is_tile_id(v)`).
pub open spec fn tile_of_id(v: int) -> Tile {
    match v as u8 {
                0 => Tile::Character1,
                4 => Tile::Character2,
                8 => Tile::Character3,
                12 => Tile::Character4,
                16 => Tile::Character5,
                20 => Tile::Character6,
                24 => Tile::Character7,
                28 => Tile::Character8,
                32 => Tile::Character9,
                64 => Tile::Dot1,
                68 => Tile::Dot2,
                72 => Tile::Dot3,
                76 => Tile::Dot4,
                80 => Tile::Dot5,
                84 => Tile::Dot6,
                88 => Tile::Dot7,
                92 => Tile::Dot8,
                96 => Tile::Dot9,
                128 => Tile::Bamboo1,
                132 => Tile::Bamboo2,
                136 => Tile::Bamboo3,
                140 => Tile::Bamboo4,
                144 => Tile::Bamboo5,
                148 => Tile::Bamboo6,
                152 => Tile::Bamboo7,
                156 => Tile::Bamboo8,
                160 => Tile::Bamboo9,
                192 => Tile::East,
                196 => Tile::South,
                200 => Tile::West,
                204 => Tile::North,
                208 => Tile::Red,
                212 => Tile::Green,
                216 => Tile::White,
                220 => Tile::Plum,
                224 => Tile::Orchid,
                228 => Tile::BambooF,
                232 => Tile::Chrysanthemum,
                236 => Tile::Spring,
                240 => Tile::Summer,
                244 => Tile::Autumn,
                248 => Tile::Winter,
        _ => Tile::Character1,
    }
}

/// The tile at position `i` of `all_tiles()` (meaningful only for `i < 42`).
pub open spec fn tile_of_dense(i: int) -> Tile {
    match i as u8 {
                0 => Tile::Character1,
                1 => Tile::Character2,
                2 => Tile::Character3,
                3 => Tile::Character4,
                4 => Tile::Character5,
                5 => Tile::Character6,
                6 => Tile::Character7,
                7 => Tile::Character8,
                8 => Tile::Character9,
                9 => Tile::Dot1,
                10 => Tile::Dot2,
                11 => Tile::Dot3,
                12 => Tile::Dot4,
                13 => Tile::Dot5,
                14 => Tile::Dot6,
                15 => Tile::Dot7,
                16 => Tile::Dot8,
                17 => Tile::Dot9,
                18 => Tile::Bamboo1,
                19 => Tile::Bamboo2,
                20 => Tile::Bamboo3,
                21 => Tile::Bamboo4,
                22 => Tile::Bamboo5,
                23 => Tile::Bamboo6,
                24 => Tile::Bamboo7,
                25 => Tile::Bamboo8,
                26 => Tile::Bamboo9,
                27 => Tile::East,
                28 => Tile::South,
                29 => Tile::West,
                30 => Tile::North,
                31 => Tile::Red,
                32 => Tile::Green,
                33 => Tile::White,
                34 => Tile::Plum,
                35 => Tile::Orchid,
                36 => Tile::BambooF,
                37 => Tile::Chrysanthemum,
                38 => Tile::Spring,
                39 => Tile::Summer,
                40 => Tile::Autumn,
                41 => Tile::Winter,
        _ => Tile::Character1,
    }
}

impl Tile {
    pub const NON_FLOWER_TILE_COUNT: usize = 34;
    pub const FLOWER_TILE_COUNT: usize = 8;
    pub const COUNT: usize = 42;
    pub const MCR_SET_COUNT: usize = 144;

    /// The identifier of the tile: `row * 64 + 4 * position`.
    pub open spec fn spec_id(self) -> int {
        match self {
            Tile::Character1 => 0,
            Tile::Character2 => 4,
            Tile::Character3 => 8,
            Tile::Character4 => 12,
            Tile::Character5 => 16,
            Tile::Character6 => 20,
            Tile::Character7 => 24,
            Tile::Character8 => 28,
            Tile::Character9 => 32,
            Tile::Dot1 => 64,
            Tile::Dot2 => 68,
            Tile::Dot3 => 72,
            Tile::Dot4 => 76,
            Tile::Dot5 => 80,
            Tile::Dot6 => 84,
            Tile::Dot7 => 88,
            Tile::Dot8 => 92,
            Tile::Dot9 => 96,
            Tile::Bamboo1 => 128,
            Tile::Bamboo2 => 132,
            Tile::Bamboo3 => 136,
            Tile::Bamboo4 => 140,
            Tile::Bamboo5 => 144,
            Tile::Bamboo6 => 148,
            Tile::Bamboo7 => 152,
            Tile::Bamboo8 => 156,
            Tile::Bamboo9 => 160,
            Tile::East => 192,
            Tile::South => 196,
            Tile::West => 200,
            Tile::North => 204,
            Tile::Red => 208,
            Tile::Green => 212,
            Tile::White => 216,
            Tile::Plum => 220,
            Tile::Orchid => 224,
            Tile::BambooF => 228,
            Tile::Chrysanthemum => 232,
            Tile::Spring => 236,
            Tile::Summer => 240,
            Tile::Autumn => 244,
            Tile::Winter => 248,
        }
    }

    /// The position of the tile in `all_tiles()`.
    pub open spec fn spec_dense(self) -> int {
        match self {
            Tile::Character1 => 0,
            Tile::Character2 => 1,
            Tile::Character3 => 2,
            Tile::Character4 => 3,
            Tile::Character5 => 4,
            Tile::Character6 => 5,
            Tile::Character7 => 6,
            Tile::Character8 => 7,
            Tile::Character9 => 8,
            Tile::Dot1 => 9,
            Tile::Dot2 => 10,
            Tile::Dot3 => 11,
            Tile::Dot4 => 12,
            Tile::Dot5 => 13,
            Tile::Dot6 => 14,
            Tile::Dot7 => 15,
            Tile::Dot8 => 16,
            Tile::Dot9 => 17,
            Tile::Bamboo1 => 18,
            Tile::Bamboo2 => 19,
            Tile::Bamboo3 => 20,
            Tile::Bamboo4 => 21,
            Tile::Bamboo5 => 22,
            Tile::Bamboo6 => 23,
            Tile::Bamboo7 => 24,
            Tile::Bamboo8 => 25,
            Tile::Bamboo9 => 26,
            Tile::East => 27,
            Tile::South => 28,
            Tile::West => 29,
            Tile::North => 30,
            Tile::Red => 31,
            Tile::Green => 32,
            Tile::White => 33,
            Tile::Plum => 34,
            Tile::Orchid => 35,
            Tile::BambooF => 36,
            Tile::Chrysanthemum => 37,
            Tile::Spring => 38,
            Tile::Summer => 39,
            Tile::Autumn => 40,
            Tile::Winter => 41,
        }
    }

    pub open spec fn spec_type(self) -> TileType {
        let v = self.spec_id();
        if v <= 32 {
            TileType::Character
        } else if v <= 96 {
            TileType::Dot
        } else if v <= 160 {
            TileType::Bamboo
        } else if v <= 204 {
            TileType::Wind
        } else if v <= 216 {
            TileType::Dragon
        } else {
            TileType::Flower
        }
    }

    pub open spec fn spec_is_suit(self) -> bool {
        self.spec_id() <= 160
    }

    pub open spec fn spec_is_honor(self) -> bool {
        192 <= self.spec_id() <= 216
    }

    pub open spec fn spec_is_flower(self) -> bool {
        self.spec_id() >= 220
    }

    /// The tile has a successor inside the identifier layout: all but the
    /// nines of each suit and the last flower.
    pub open spec fn has_next(self) -> bool {
        is_tile_id(self.spec_id() + 4)
    }

    /// The tile that follows this one in the identifier layout.
    pub open spec fn spec_next(self) -> Tile {
        tile_of_id(self.spec_id() + 4)
    }

    pub open spec fn spec_name(self) -> &'static str {
        match self {
            Tile::Character1 => "1 Character",
            Tile::Character2 => "2 Character",
            Tile::Character3 => "3 Character",
            Tile::Character4 => "4 Character",
            Tile::Character5 => "5 Character",
            Tile::Character6 => "6 Character",
            Tile::Character7 => "7 Character",
            Tile::Character8 => "8 Character",
            Tile::Character9 => "9 Character",
            Tile::Dot1 => "1 Dot",
            Tile::Dot2 => "2 Dot",
            Tile::Dot3 => "3 Dot",
            Tile::Dot4 => "4 Dot",
            Tile::Dot5 => "5 Dot",
            Tile::Dot6 => "6 Dot",
            Tile::Dot7 => "7 Dot",
            Tile::Dot8 => "8 Dot",
            Tile::Dot9 => "9 Dot",
            Tile::Bamboo1 => "1 Bamboo",
            Tile::Bamboo2 => "2 Bamboo",
            Tile::Bamboo3 => "3 Bamboo",
            Tile::Bamboo4 => "4 Bamboo",
            Tile::Bamboo5 => "5 Bamboo",
            Tile::Bamboo6 => "6 Bamboo",
            Tile::Bamboo7 => "7 Bamboo",
            Tile::Bamboo8 => "8 Bamboo",
            Tile::Bamboo9 => "9 Bamboo",
            Tile::East => "East",
            Tile::South => "South",
            Tile::West => "West",
            Tile::North => "North",
            Tile::Red => "Red Dragon",
            Tile::Green => "Green Dragon",
            Tile::White => "White Dragon",
            Tile::Plum => "Plum",
            Tile::Orchid => "Orchid",
            Tile::BambooF => "Bamboo",
            Tile::Chrysanthemum => "Chrysanthemum",
            Tile::Spring => "Spring",
            Tile::Summer => "Summer",
            Tile::Autumn => "Autumn",
            Tile::Winter => "Winter",
        }
    }

    /// All tiles, in identifier order.
    pub fn iter() -> (r: Vec<Tile>)
        ensures
            r@ == all_tiles(),
    {
        let r = vec![Tile::Character1, Tile::Character2, Tile::Character3, Tile::Character4, Tile::Character5, Tile::Character6, Tile::Character7, Tile::Character8, Tile::Character9, Tile::Dot1, Tile::Dot2, Tile::Dot3, Tile::Dot4, Tile::Dot5, Tile::Dot6, Tile::Dot7, Tile::Dot8, Tile::Dot9, Tile::Bamboo1, Tile::Bamboo2, Tile::Bamboo3, Tile::Bamboo4, Tile::Bamboo5, Tile::Bamboo6, Tile::Bamboo7, Tile::Bamboo8, Tile::Bamboo9, Tile::East, Tile::South, Tile::West, Tile::North, Tile::Red, Tile::Green, Tile::White, Tile::Plum, Tile::Orchid, Tile::BambooF, Tile::Chrysanthemum, Tile::Spring, Tile::Summer, Tile::Autumn, Tile::Winter];
        assert(r@ =~= all_tiles());
        r
    }

    /// Every tile, flowers included, in identifier order: the list `iter` gives.
    pub fn iter_all() -> (r: Vec<Tile>)
        ensures
            r@ == all_tiles(),
    {
        Self::iter()
    }

    /// The tile's identifier.
    pub fn id(self) -> (r: u8)
        ensures
            r as int == self.spec_id(),
    {
        match self {
            Tile::Character1 => 0,
            Tile::Character2 => 4,
            Tile::Character3 => 8,
            Tile::Character4 => 12,
            Tile::Character5 => 16,
            Tile::Character6 => 20,
            Tile::Character7 => 24,
            Tile::Character8 => 28,
            Tile::Character9 => 32,
            Tile::Dot1 => 64,
            Tile::Dot2 => 68,
            Tile::Dot3 => 72,
            Tile::Dot4 => 76,
            Tile::Dot5 => 80,
            Tile::Dot6 => 84,
            Tile::Dot7 => 88,
            Tile::Dot8 => 92,
            Tile::Dot9 => 96,
            Tile::Bamboo1 => 128,
            Tile::Bamboo2 => 132,
            Tile::Bamboo3 => 136,
            Tile::Bamboo4 => 140,
            Tile::Bamboo5 => 144,
            Tile::Bamboo6 => 148,
            Tile::Bamboo7 => 152,
            Tile::Bamboo8 => 156,
            Tile::Bamboo9 => 160,
            Tile::East => 192,
            Tile::South => 196,
            Tile::West => 200,
            Tile::North => 204,
            Tile::Red => 208,
            Tile::Green => 212,
            Tile::White => 216,
            Tile::Plum => 220,
            Tile::Orchid => 224,
            Tile::BambooF => 228,
            Tile::Chrysanthemum => 232,
            Tile::Spring => 236,
            Tile::Summer => 240,
            Tile::Autumn => 244,
            Tile::Winter => 248,
        }
    }

    /// Turns an identifier back into its tile.
    pub fn from_repr(value: u8) -> (r: Tile)
        requires
            is_tile_id(value as int),
        ensures
            r.spec_id() == value as int,
            r == tile_of_id(value as int),
    {
        match value {
                0 => Tile::Character1,
                4 => Tile::Character2,
                8 => Tile::Character3,
                12 => Tile::Character4,
                16 => Tile::Character5,
                20 => Tile::Character6,
                24 => Tile::Character7,
                28 => Tile::Character8,
                32 => Tile::Character9,
                64 => Tile::Dot1,
                68 => Tile::Dot2,
                72 => Tile::Dot3,
                76 => Tile::Dot4,
                80 => Tile::Dot5,
                84 => Tile::Dot6,
                88 => Tile::Dot7,
                92 => Tile::Dot8,
                96 => Tile::Dot9,
                128 => Tile::Bamboo1,
                132 => Tile::Bamboo2,
                136 => Tile::Bamboo3,
                140 => Tile::Bamboo4,
                144 => Tile::Bamboo5,
                148 => Tile::Bamboo6,
                152 => Tile::Bamboo7,
                156 => Tile::Bamboo8,
                160 => Tile::Bamboo9,
                192 => Tile::East,
                196 => Tile::South,
                200 => Tile::West,
                204 => Tile::North,
                208 => Tile::Red,
                212 => Tile::Green,
                216 => Tile::White,
                220 => Tile::Plum,
                224 => Tile::Orchid,
                228 => Tile::BambooF,
                232 => Tile::Chrysanthemum,
                236 => Tile::Spring,
                240 => Tile::Summer,
                244 => Tile::Autumn,
                248 => Tile::Winter,
            _ => Tile::Character1,
        }
    }

    /// Decodes an identifier made of a row (upper two bits) and a shift
    /// (lower six bits).
    pub fn from_id(value: u8) -> (r: Result<Tile, TileError>)
        ensures
            r is Ok <==> is_tile_id(value as int),
            r matches Ok(t) ==> t == tile_of_id(value as int),
            r matches Ok(t) ==> t.spec_id() == value as int,
    {
        let row = (value >> 6u8) as usize;
        let shift = (value & 0x3Fu8) as usize;
        proof {
            assert(value >> 6u8 == value / 64) by (bit_vector);
            assert(value & 0x3Fu8 == value % 64) by (bit_vector);
        }
        Self::from_indices(row, shift)
    }

    /// Builds the tile at `shift` (a multiple of four) inside `row`.
    pub fn from_indices(row: usize, shift: usize) -> (r: Result<Tile, TileError>)
        ensures
            r is Ok <==> (row <= 3 && shift % 4 == 0 && (if row < 3 { shift < 36 } else { shift < 60 })),
            r is Ok ==> is_tile_id(row * 64 + shift),
            r matches Ok(t) ==> t.spec_id() == row * 64 + shift,
            r matches Err(TileError::ConversionError(msg)) ==> (
                if row > 3 {
                    msg@ == "Row index out of range"@
                } else if shift % 4 != 0 {
                    msg@ == "Shift not multiple of 4"@
                } else {
                    msg@ == "Shift out of range for row"@
                }
            ),
    {
        if row > 3 {
            return Err(TileError::ConversionError("Row index out of range"));
        }
        if shift % 4 != 0 {
            return Err(TileError::ConversionError("Shift not multiple of 4"));
        }
        if (row < 3 && shift >= 36) || (row == 3 && shift >= 60) {
            return Err(TileError::ConversionError("Shift out of range for row"));
        }
        let id = (row * 64 + shift) as u8;
        Ok(Self::from_repr(id))
    }

    /// The tile at position `value` of `iter()`, if any.
    pub fn from_dense_index(value: usize) -> (r: Option<Tile>)
        ensures
            r is Some <==> value < 42,
            r matches Some(t) ==> t.spec_dense() == value && t == tile_of_dense(value as int),
    {
        match value {
            0 => Some(Tile::Character1),
            1 => Some(Tile::Character2),
            2 => Some(Tile::Character3),
            3 => Some(Tile::Character4),
            4 => Some(Tile::Character5),
            5 => Some(Tile::Character6),
            6 => Some(Tile::Character7),
            7 => Some(Tile::Character8),
            8 => Some(Tile::Character9),
            9 => Some(Tile::Dot1),
            10 => Some(Tile::Dot2),
            11 => Some(Tile::Dot3),
            12 => Some(Tile::Dot4),
            13 => Some(Tile::Dot5),
            14 => Some(Tile::Dot6),
            15 => Some(Tile::Dot7),
            16 => Some(Tile::Dot8),
            17 => Some(Tile::Dot9),
            18 => Some(Tile::Bamboo1),
            19 => Some(Tile::Bamboo2),
            20 => Some(Tile::Bamboo3),
            21 => Some(Tile::Bamboo4),
            22 => Some(Tile::Bamboo5),
            23 => Some(Tile::Bamboo6),
            24 => Some(Tile::Bamboo7),
            25 => Some(Tile::Bamboo8),
            26 => Some(Tile::Bamboo9),
            27 => Some(Tile::East),
            28 => Some(Tile::South),
            29 => Some(Tile::West),
            30 => Some(Tile::North),
            31 => Some(Tile::Red),
            32 => Some(Tile::Green),
            33 => Some(Tile::White),
            34 => Some(Tile::Plum),
            35 => Some(Tile::Orchid),
            36 => Some(Tile::BambooF),
            37 => Some(Tile::Chrysanthemum),
            38 => Some(Tile::Spring),
            39 => Some(Tile::Summer),
            40 => Some(Tile::Autumn),
            41 => Some(Tile::Winter),
            _ => None,
        }
    }

    /// The position of the tile in `iter()`.
    pub fn dense_index(self) -> (r: usize)
        ensures
            r as int == self.spec_dense(),
            all_tiles()[r as int] == self,
    {
        match self {
            Tile::Character1 => 0,
            Tile::Character2 => 1,
            Tile::Character3 => 2,
            Tile::Character4 => 3,
            Tile::Character5 => 4,
            Tile::Character6 => 5,
            Tile::Character7 => 6,
            Tile::Character8 => 7,
            Tile::Character9 => 8,
            Tile::Dot1 => 9,
            Tile::Dot2 => 10,
            Tile::Dot3 => 11,
            Tile::Dot4 => 12,
            Tile::Dot5 => 13,
            Tile::Dot6 => 14,
            Tile::Dot7 => 15,
            Tile::Dot8 => 16,
            Tile::Dot9 => 17,
            Tile::Bamboo1 => 18,
            Tile::Bamboo2 => 19,
            Tile::Bamboo3 => 20,
            Tile::Bamboo4 => 21,
            Tile::Bamboo5 => 22,
            Tile::Bamboo6 => 23,
            Tile::Bamboo7 => 24,
            Tile::Bamboo8 => 25,
            Tile::Bamboo9 => 26,
            Tile::East => 27,
            Tile::South => 28,
            Tile::West => 29,
            Tile::North => 30,
            Tile::Red => 31,
            Tile::Green => 32,
            Tile::White => 33,
            Tile::Plum => 34,
            Tile::Orchid => 35,
            Tile::BambooF => 36,
            Tile::Chrysanthemum => 37,
            Tile::Spring => 38,
            Tile::Summer => 39,
            Tile::Autumn => 40,
            Tile::Winter => 41,
        }
    }

    /// The tile that follows this one inside its group.
    pub fn next(self) -> (r: Tile)
        requires
            self.has_next(),
        ensures
            r.spec_id() == self.spec_id() + 4,
            r == self.spec_next(),
    {
        let v = self.id();
        Tile::from_repr(v + 4)
    }

    pub fn get_type(self) -> (r: TileType)
        ensures
            r == self.spec_type(),
    {
        let offset = self.id();
        if offset <= 32 {
            TileType::Character
        } else if offset <= 96 {
            TileType::Dot
        } else if offset <= 160 {
            TileType::Bamboo
        } else if offset <= 204 {
            TileType::Wind
        } else if offset <= 216 {
            TileType::Dragon
        } else {
            TileType::Flower
        }
    }

    pub fn is_suit(self) -> (r: bool)
        ensures
            r == self.spec_is_suit(),
            r == self.spec_type().spec_is_suit(),
    {
        self.get_type().is_suit()
    }

    pub fn is_honor(self) -> (r: bool)
        ensures
            r == self.spec_is_honor(),
            r == self.spec_type().spec_is_honor(),
    {
        self.get_type().is_honor()
    }

    pub fn is_flower(self) -> (r: bool)
        ensures
            r == self.spec_is_flower(),
            r == (self.spec_type() is Flower),
    {
        self.get_type().is_flower()
    }

    /// The English name of the tile.
    pub fn name(self) -> (r: &'static str)
        ensures
            r == self.spec_name(),
    {
        match self {
            Tile::Character1 => "1 Character",
            Tile::Character2 => "2 Character",
            Tile::Character3 => "3 Character",
            Tile::Character4 => "4 Character",
            Tile::Character5 => "5 Character",
            Tile::Character6 => "6 Character",
            Tile::Character7 => "7 Character",
            Tile::Character8 => "8 Character",
            Tile::Character9 => "9 Character",
            Tile::Dot1 => "1 Dot",
            Tile::Dot2 => "2 Dot",
            Tile::Dot3 => "3 Dot",
            Tile::Dot4 => "4 Dot",
            Tile::Dot5 => "5 Dot",
            Tile::Dot6 => "6 Dot",
            Tile::Dot7 => "7 Dot",
            Tile::Dot8 => "8 Dot",
            Tile::Dot9 => "9 Dot",
            Tile::Bamboo1 => "1 Bamboo",
            Tile::Bamboo2 => "2 Bamboo",
            Tile::Bamboo3 => "3 Bamboo",
            Tile::Bamboo4 => "4 Bamboo",
            Tile::Bamboo5 => "5 Bamboo",
            Tile::Bamboo6 => "6 Bamboo",
            Tile::Bamboo7 => "7 Bamboo",
            Tile::Bamboo8 => "8 Bamboo",
            Tile::Bamboo9 => "9 Bamboo",
            Tile::East => "East",
            Tile::South => "South",
            Tile::West => "West",
            Tile::North => "North",
            Tile::Red => "Red Dragon",
            Tile::Green => "Green Dragon",
            Tile::White => "White Dragon",
            Tile::Plum => "Plum",
            Tile::Orchid => "Orchid",
            Tile::BambooF => "Bamboo",
            Tile::Chrysanthemum => "Chrysanthemum",
            Tile::Spring => "Spring",
            Tile::Summer => "Summer",
            Tile::Autumn => "Autumn",
            Tile::Winter => "Winter",
        }
    }
}

/// Every tile has its own identifier, and identifiers decode back.
pub proof fn lemma_tile_id_roundtrip(t: Tile)
    ensures
        is_tile_id(t.spec_id()),
        tile_of_id(t.spec_id()) == t,
        0 <= t.spec_dense() < 42,
        tile_of_dense(t.spec_dense()) == t,
        all_tiles()[t.spec_dense()] == t,
        all_tiles().len() == 42,
{
}

/// Identifiers decode to the tile that carries them.
pub proof fn lemma_id_tile_roundtrip(v: int)
    requires
        is_tile_id(v),
    ensures
        tile_of_id(v).spec_id() == v,
        !tile_of_id(v).spec_is_flower() <==> v < 220,
{
}


/// The `k`-th tile in the order of the enumeration (characters, dots and
/// bamboos 1 to 9, East, South, West, North, Red, Green, White, then the
/// eight flowers) has dense index `k` and identifier 64 times its suit plus
/// 4 times its rank less one; the honors follow from 192 and the flowers
/// from 220, 4 apart.
pub proof fn lemma_tile_layout(k: int)
    requires
        0 <= k < 42,
    ensures
        all_tiles()[k].spec_dense() == k,
        all_tiles()[k].spec_id() == if k < 27 {
            64 * (k / 9) + 4 * (k % 9)
        } else if k < 34 {
            192 + 4 * (k - 27)
        } else {
            220 + 4 * (k - 34)
        },
{
}

} // verus!
