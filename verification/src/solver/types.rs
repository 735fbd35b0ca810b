//! The fans of the Mahjong Competition Rules, their values and the
//! exclusions between them.

use vstd::prelude::*;

verus! {

/// The eighty-one fans of the Mahjong Competition Rules, from the most
/// valuable down. The position of a fan in this list is its bit index in a
/// `FanExclusionSet`.
#[derive(Clone, Copy, Debug, PartialEq, Eq, Structural, Hash)]
pub enum FanType {
    BigFourWinds,
    BigThreeDragons,
    AllGreen,
    NineGates,
    FourKongs,
    SevenShiftedPairs,
    ThirteenOrphans,
    AllTerminals,
    LittleFourWinds,
    LittleThreeDragons,
    AllHonors,
    FourConcealedPungs,
    PureTerminalChows,
    QuadrupleChow,
    FourPureShiftedPungs,
    FourShiftedChows,
    ThreeKongs,
    AllTerminalsAndHonors,
    SevenPairs,
    GreaterHonorsAndKnittedTiles,
    AllEvenPungs,
    FullFlush,
    PureTripleChow,
    PureShiftedPungs,
    UpperTiles,
    MiddleTiles,
    LowerTiles,
    PureStraight,
    ThreeSuitedTerminalChows,
    PureShiftedChows,
    AllFives,
    TriplePung,
    ThreeConcealedPungs,
    LesserHonorsAndKnittedTiles,
    KnittedStraight,
    UpperFour,
    LowerFour,
    BigThreeWinds,
    MixedStraight,
    ReversibleTiles,
    MixedTripleChow,
    MixedShiftedPungs,
    ChickenHand,
    LastTileDraw,
    LastTileClaim,
    OutWithReplacementTile,
    RobbingTheKong,
    TwoConcealedKongs,
    AllPungs,
    HalfFlush,
    MixedShiftedChows,
    AllTypes,
    MeldedHand,
    TwoDragonPungs,
    OutsideHand,
    FullyConcealed,
    TwoMeldedKongs,
    LastTile,
    DragonPung,
    PrevalentWind,
    SeatWind,
    ConcealedHand,
    AllChows,
    TileHog,
    DoublePung,
    TwoConcealedPungs,
    ConcealedKong,
    AllSimples,
    PureDoubleChow,
    MixedDoubleChow,
    ShortStraight,
    TwoTerminalChows,
    PungOfTerminalsOrHonors,
    MeldedKong,
    OneVoidedSuit,
    NoHonors,
    EdgeWait,
    ClosedWait,
    SingleWait,
    SelfDrawn,
    FlowerTiles,
}

/// The bit of `x` at position `i` is set.
pub open spec fn has_bit(x: u128, i: int) -> bool {
    (x >> (i as u128)) & 1 == 1
}

impl FanType {
    /// The base value of the fan, in points.
    pub open spec fn spec_points(self) -> u8 {
        match self {
            FanType::BigFourWinds => 88,
            FanType::BigThreeDragons => 88,
            FanType::AllGreen => 88,
            FanType::NineGates => 88,
            FanType::FourKongs => 88,
            FanType::SevenShiftedPairs => 88,
            FanType::ThirteenOrphans => 88,
            FanType::AllTerminals => 64,
            FanType::LittleFourWinds => 64,
            FanType::LittleThreeDragons => 64,
            FanType::AllHonors => 64,
            FanType::FourConcealedPungs => 64,
            FanType::PureTerminalChows => 64,
            FanType::QuadrupleChow => 48,
            FanType::FourPureShiftedPungs => 48,
            FanType::FourShiftedChows => 32,
            FanType::ThreeKongs => 32,
            FanType::AllTerminalsAndHonors => 32,
            FanType::SevenPairs => 24,
            FanType::GreaterHonorsAndKnittedTiles => 24,
            FanType::AllEvenPungs => 24,
            FanType::FullFlush => 24,
            FanType::PureTripleChow => 24,
            FanType::PureShiftedPungs => 24,
            FanType::UpperTiles => 24,
            FanType::MiddleTiles => 24,
            FanType::LowerTiles => 24,
            FanType::PureStraight => 16,
            FanType::ThreeSuitedTerminalChows => 16,
            FanType::PureShiftedChows => 16,
            FanType::AllFives => 16,
            FanType::TriplePung => 16,
            FanType::ThreeConcealedPungs => 16,
            FanType::LesserHonorsAndKnittedTiles => 12,
            FanType::KnittedStraight => 12,
            FanType::UpperFour => 12,
            FanType::LowerFour => 12,
            FanType::BigThreeWinds => 12,
            FanType::MixedStraight => 8,
            FanType::ReversibleTiles => 8,
            FanType::MixedTripleChow => 8,
            FanType::MixedShiftedPungs => 8,
            FanType::ChickenHand => 8,
            FanType::LastTileDraw => 8,
            FanType::LastTileClaim => 8,
            FanType::OutWithReplacementTile => 8,
            FanType::RobbingTheKong => 8,
            FanType::TwoConcealedKongs => 8,
            FanType::AllPungs => 6,
            FanType::HalfFlush => 6,
            FanType::MixedShiftedChows => 6,
            FanType::AllTypes => 6,
            FanType::MeldedHand => 6,
            FanType::TwoDragonPungs => 6,
            FanType::OutsideHand => 4,
            FanType::FullyConcealed => 4,
            FanType::TwoMeldedKongs => 4,
            FanType::LastTile => 4,
            FanType::DragonPung => 2,
            FanType::PrevalentWind => 2,
            FanType::SeatWind => 2,
            FanType::ConcealedHand => 2,
            FanType::AllChows => 2,
            FanType::TileHog => 2,
            FanType::DoublePung => 2,
            FanType::TwoConcealedPungs => 2,
            FanType::ConcealedKong => 2,
            FanType::AllSimples => 2,
            FanType::PureDoubleChow => 1,
            FanType::MixedDoubleChow => 1,
            FanType::ShortStraight => 1,
            FanType::TwoTerminalChows => 1,
            FanType::PungOfTerminalsOrHonors => 1,
            FanType::MeldedKong => 1,
            FanType::OneVoidedSuit => 1,
            FanType::NoHonors => 1,
            FanType::EdgeWait => 1,
            FanType::ClosedWait => 1,
            FanType::SingleWait => 1,
            FanType::SelfDrawn => 1,
            FanType::FlowerTiles => 1,
        }
    }

    /// The position of the fan in the canonical list, from 1 to 81.
    pub open spec fn spec_bit(self) -> int {
        match self {
            FanType::BigFourWinds => 1,
            FanType::BigThreeDragons => 2,
            FanType::AllGreen => 3,
            FanType::NineGates => 4,
            FanType::FourKongs => 5,
            FanType::SevenShiftedPairs => 6,
            FanType::ThirteenOrphans => 7,
            FanType::AllTerminals => 8,
            FanType::LittleFourWinds => 9,
            FanType::LittleThreeDragons => 10,
            FanType::AllHonors => 11,
            FanType::FourConcealedPungs => 12,
            FanType::PureTerminalChows => 13,
            FanType::QuadrupleChow => 14,
            FanType::FourPureShiftedPungs => 15,
            FanType::FourShiftedChows => 16,
            FanType::ThreeKongs => 17,
            FanType::AllTerminalsAndHonors => 18,
            FanType::SevenPairs => 19,
            FanType::GreaterHonorsAndKnittedTiles => 20,
            FanType::AllEvenPungs => 21,
            FanType::FullFlush => 22,
            FanType::PureTripleChow => 23,
            FanType::PureShiftedPungs => 24,
            FanType::UpperTiles => 25,
            FanType::MiddleTiles => 26,
            FanType::LowerTiles => 27,
            FanType::PureStraight => 28,
            FanType::ThreeSuitedTerminalChows => 29,
            FanType::PureShiftedChows => 30,
            FanType::AllFives => 31,
            FanType::TriplePung => 32,
            FanType::ThreeConcealedPungs => 33,
            FanType::LesserHonorsAndKnittedTiles => 34,
            FanType::KnittedStraight => 35,
            FanType::UpperFour => 36,
            FanType::LowerFour => 37,
            FanType::BigThreeWinds => 38,
            FanType::MixedStraight => 39,
            FanType::ReversibleTiles => 40,
            FanType::MixedTripleChow => 41,
            FanType::MixedShiftedPungs => 42,
            FanType::ChickenHand => 43,
            FanType::LastTileDraw => 44,
            FanType::LastTileClaim => 45,
            FanType::OutWithReplacementTile => 46,
            FanType::RobbingTheKong => 47,
            FanType::TwoConcealedKongs => 48,
            FanType::AllPungs => 49,
            FanType::HalfFlush => 50,
            FanType::MixedShiftedChows => 51,
            FanType::AllTypes => 52,
            FanType::MeldedHand => 53,
            FanType::TwoDragonPungs => 54,
            FanType::OutsideHand => 55,
            FanType::FullyConcealed => 56,
            FanType::TwoMeldedKongs => 57,
            FanType::LastTile => 58,
            FanType::DragonPung => 59,
            FanType::PrevalentWind => 60,
            FanType::SeatWind => 61,
            FanType::ConcealedHand => 62,
            FanType::AllChows => 63,
            FanType::TileHog => 64,
            FanType::DoublePung => 65,
            FanType::TwoConcealedPungs => 66,
            FanType::ConcealedKong => 67,
            FanType::AllSimples => 68,
            FanType::PureDoubleChow => 69,
            FanType::MixedDoubleChow => 70,
            FanType::ShortStraight => 71,
            FanType::TwoTerminalChows => 72,
            FanType::PungOfTerminalsOrHonors => 73,
            FanType::MeldedKong => 74,
            FanType::OneVoidedSuit => 75,
            FanType::NoHonors => 76,
            FanType::EdgeWait => 77,
            FanType::ClosedWait => 78,
            FanType::SingleWait => 79,
            FanType::SelfDrawn => 80,
            FanType::FlowerTiles => 81,
        }
    }

    pub open spec fn spec_name(self) -> &'static str {
        match self {
            FanType::BigFourWinds => "Big Four Winds",
            FanType::BigThreeDragons => "Big Three Dragons",
            FanType::AllGreen => "All Green",
            FanType::NineGates => "Nine Gates",
            FanType::FourKongs => "Four Kongs",
            FanType::SevenShiftedPairs => "Seven Shifted Pairs",
            FanType::ThirteenOrphans => "Thirteen Orphans",
            FanType::AllTerminals => "All Terminals",
            FanType::LittleFourWinds => "Little Four Winds",
            FanType::LittleThreeDragons => "Little Three Dragons",
            FanType::AllHonors => "All Honors",
            FanType::FourConcealedPungs => "Four Concealed Pungs",
            FanType::PureTerminalChows => "Pure Terminal Chows",
            FanType::QuadrupleChow => "Quadruple Chow",
            FanType::FourPureShiftedPungs => "Four Pure Shifted Pungs",
            FanType::FourShiftedChows => "Four Shifted Chows",
            FanType::ThreeKongs => "Three Kongs",
            FanType::AllTerminalsAndHonors => "All Terminals and Honors",
            FanType::SevenPairs => "Seven Pairs",
            FanType::GreaterHonorsAndKnittedTiles => "Greater Honors and Knitted Tiles",
            FanType::AllEvenPungs => "All Even Pungs",
            FanType::FullFlush => "Full Flush",
            FanType::PureTripleChow => "Pure Triple Chow",
            FanType::PureShiftedPungs => "Pure Shifted Pungs",
            FanType::UpperTiles => "Upper Tiles",
            FanType::MiddleTiles => "Middle Tiles",
            FanType::LowerTiles => "Lower Tiles",
            FanType::PureStraight => "Pure Straight",
            FanType::ThreeSuitedTerminalChows => "Three-Suited Terminal Chows",
            FanType::PureShiftedChows => "Pure Shifted Chows",
            FanType::AllFives => "All Fives",
            FanType::TriplePung => "Triple Pung",
            FanType::ThreeConcealedPungs => "Three Concealed Pungs",
            FanType::LesserHonorsAndKnittedTiles => "Lesser Honors and Knitted Tiles",
            FanType::KnittedStraight => "Knitted Straight",
            FanType::UpperFour => "Upper Four",
            FanType::LowerFour => "Lower Four",
            FanType::BigThreeWinds => "Big Three Winds",
            FanType::MixedStraight => "Mixed Straight",
            FanType::ReversibleTiles => "Reversible Tiles",
            FanType::MixedTripleChow => "Mixed Triple Chow",
            FanType::MixedShiftedPungs => "Mixed Shifted Pungs",
            FanType::ChickenHand => "Chicken Hand",
            FanType::LastTileDraw => "Last Tile Draw",
            FanType::LastTileClaim => "Last Tile Claim",
            FanType::OutWithReplacementTile => "Out With Replacement Tile",
            FanType::RobbingTheKong => "Robbing The Kong",
            FanType::TwoConcealedKongs => "Two Concealed Kongs",
            FanType::AllPungs => "All Pungs",
            FanType::HalfFlush => "Half Flush",
            FanType::MixedShiftedChows => "Mixed Shifted Chows",
            FanType::AllTypes => "All Types",
            FanType::MeldedHand => "Melded Hand",
            FanType::TwoDragonPungs => "Two Dragon Pungs",
            FanType::OutsideHand => "Outside Hand",
            FanType::FullyConcealed => "Fully Concealed",
            FanType::TwoMeldedKongs => "Two Melded Kongs",
            FanType::LastTile => "Last Tile",
            FanType::DragonPung => "Dragon Pung",
            FanType::PrevalentWind => "Prevalent Wind",
            FanType::SeatWind => "Seat Wind",
            FanType::ConcealedHand => "Concealed Hand",
            FanType::AllChows => "All Chows",
            FanType::TileHog => "Tile Hog",
            FanType::DoublePung => "Double Pung",
            FanType::TwoConcealedPungs => "Two Concealed Pungs",
            FanType::ConcealedKong => "Concealed Kong",
            FanType::AllSimples => "All Simples",
            FanType::PureDoubleChow => "Pure Double Chow",
            FanType::MixedDoubleChow => "Mixed Double Chow",
            FanType::ShortStraight => "Short Straight",
            FanType::TwoTerminalChows => "Two Terminal Chows",
            FanType::PungOfTerminalsOrHonors => "Pung of Terminals or Honors",
            FanType::MeldedKong => "Melded Kong",
            FanType::OneVoidedSuit => "One Voided Suit",
            FanType::NoHonors => "No Honors",
            FanType::EdgeWait => "Edge Wait",
            FanType::ClosedWait => "Closed Wait",
            FanType::SingleWait => "Single Wait",
            FanType::SelfDrawn => "Self-Drawn",
            FanType::FlowerTiles => "Flower Tiles",
        }
    }

    /// The fans that are not counted beside this one, by bit index.
    pub open spec fn excludes_bit(self, i: int) -> bool {
        match self {
            FanType::BigFourWinds => i == FanType::BigThreeWinds.spec_bit() || i == FanType::AllPungs.spec_bit() || i == FanType::PrevalentWind.spec_bit() || i == FanType::SeatWind.spec_bit() || i == FanType::PungOfTerminalsOrHonors.spec_bit() || i == FanType::LittleFourWinds.spec_bit(),
            FanType::BigThreeDragons => i == FanType::TwoDragonPungs.spec_bit() || i == FanType::DragonPung.spec_bit(),
            FanType::AllGreen => false,
            FanType::NineGates => i == FanType::FullFlush.spec_bit() || i == FanType::ConcealedHand.spec_bit() || i == FanType::PungOfTerminalsOrHonors.spec_bit(),
            FanType::FourKongs => i == FanType::SingleWait.spec_bit(),
            FanType::SevenShiftedPairs => i == FanType::FullFlush.spec_bit() || i == FanType::ConcealedHand.spec_bit() || i == FanType::SingleWait.spec_bit(),
            FanType::ThirteenOrphans => i == FanType::AllTypes.spec_bit() || i == FanType::ConcealedHand.spec_bit() || i == FanType::SingleWait.spec_bit(),
            FanType::AllTerminals => i == FanType::AllPungs.spec_bit() || i == FanType::OutsideHand.spec_bit() || i == FanType::PungOfTerminalsOrHonors.spec_bit() || i == FanType::NoHonors.spec_bit(),
            FanType::LittleFourWinds => i == FanType::BigThreeWinds.spec_bit() || i == FanType::PungOfTerminalsOrHonors.spec_bit() || i == FanType::BigFourWinds.spec_bit(),
            FanType::LittleThreeDragons => i == FanType::DragonPung.spec_bit() || i == FanType::TwoDragonPungs.spec_bit(),
            FanType::AllHonors => i == FanType::AllPungs.spec_bit() || i == FanType::OutsideHand.spec_bit() || i == FanType::PungOfTerminalsOrHonors.spec_bit() || i == FanType::AllTerminalsAndHonors.spec_bit(),
            FanType::FourConcealedPungs => i == FanType::AllPungs.spec_bit() || i == FanType::ConcealedHand.spec_bit(),
            FanType::PureTerminalChows => i == FanType::SevenPairs.spec_bit() || i == FanType::FullFlush.spec_bit() || i == FanType::AllChows.spec_bit() || i == FanType::PureDoubleChow.spec_bit() || i == FanType::TwoTerminalChows.spec_bit(),
            FanType::QuadrupleChow => i == FanType::PureShiftedPungs.spec_bit() || i == FanType::TileHog.spec_bit() || i == FanType::PureDoubleChow.spec_bit(),
            FanType::FourPureShiftedPungs => i == FanType::PureTripleChow.spec_bit() || i == FanType::AllPungs.spec_bit(),
            FanType::FourShiftedChows => i == FanType::ShortStraight.spec_bit(),
            FanType::ThreeKongs => false,
            FanType::AllTerminalsAndHonors => i == FanType::AllPungs.spec_bit() || i == FanType::PungOfTerminalsOrHonors.spec_bit() || i == FanType::AllHonors.spec_bit(),
            FanType::SevenPairs => i == FanType::ConcealedHand.spec_bit() || i == FanType::SingleWait.spec_bit(),
            FanType::GreaterHonorsAndKnittedTiles => false,
            FanType::AllEvenPungs => i == FanType::AllPungs.spec_bit() || i == FanType::AllSimples.spec_bit(),
            FanType::FullFlush => i == FanType::NoHonors.spec_bit(),
            FanType::PureTripleChow => i == FanType::PureShiftedPungs.spec_bit() || i == FanType::PureDoubleChow.spec_bit(),
            FanType::PureShiftedPungs => i == FanType::PureTripleChow.spec_bit(),
            FanType::UpperTiles => i == FanType::NoHonors.spec_bit(),
            FanType::MiddleTiles => i == FanType::NoHonors.spec_bit() || i == FanType::AllSimples.spec_bit(),
            FanType::LowerTiles => i == FanType::NoHonors.spec_bit(),
            FanType::PureStraight => false,
            FanType::ThreeSuitedTerminalChows => i == FanType::PureDoubleChow.spec_bit() || i == FanType::TwoTerminalChows.spec_bit() || i == FanType::NoHonors.spec_bit() || i == FanType::AllChows.spec_bit(),
            FanType::PureShiftedChows => false,
            FanType::AllFives => i == FanType::AllSimples.spec_bit(),
            FanType::TriplePung => false,
            FanType::ThreeConcealedPungs => false,
            FanType::LesserHonorsAndKnittedTiles => i == FanType::AllTypes.spec_bit() || i == FanType::ConcealedHand.spec_bit(),
            FanType::KnittedStraight => false,
            FanType::UpperFour => i == FanType::NoHonors.spec_bit(),
            FanType::LowerFour => i == FanType::NoHonors.spec_bit(),
            FanType::BigThreeWinds => false,
            FanType::MixedStraight => false,
            FanType::ReversibleTiles => i == FanType::OneVoidedSuit.spec_bit(),
            FanType::MixedTripleChow => false,
            FanType::MixedShiftedPungs => false,
            FanType::ChickenHand => false,
            FanType::LastTileDraw => false,
            FanType::LastTileClaim => false,
            FanType::OutWithReplacementTile => false,
            FanType::RobbingTheKong => false,
            FanType::TwoConcealedKongs => false,
            FanType::AllPungs => false,
            FanType::HalfFlush => false,
            FanType::MixedShiftedChows => false,
            FanType::AllTypes => false,
            FanType::MeldedHand => i == FanType::SingleWait.spec_bit(),
            FanType::TwoDragonPungs => false,
            FanType::OutsideHand => false,
            FanType::FullyConcealed => false,
            FanType::TwoMeldedKongs => false,
            FanType::LastTile => false,
            FanType::DragonPung => false,
            FanType::PrevalentWind => false,
            FanType::SeatWind => false,
            FanType::ConcealedHand => false,
            FanType::AllChows => false,
            FanType::TileHog => false,
            FanType::DoublePung => false,
            FanType::TwoConcealedPungs => false,
            FanType::ConcealedKong => false,
            FanType::AllSimples => false,
            FanType::PureDoubleChow => false,
            FanType::MixedDoubleChow => false,
            FanType::ShortStraight => false,
            FanType::TwoTerminalChows => false,
            FanType::PungOfTerminalsOrHonors => false,
            FanType::MeldedKong => false,
            FanType::OneVoidedSuit => false,
            FanType::NoHonors => false,
            FanType::EdgeWait => false,
            FanType::ClosedWait => false,
            FanType::SingleWait => false,
            FanType::SelfDrawn => false,
            FanType::FlowerTiles => false,
        }
    }

    /// `other` is not counted beside this fan.
    pub open spec fn excludes(self, other: FanType) -> bool {
        self.excludes_bit(other.spec_bit())
    }

    /// The exclusion mask of the fan, as a number.
    pub open spec fn exclusion_mask(self) -> u128 {
        match self {
            FanType::BigFourWinds => ((((((0u128 | (1u128 << 38u128)) | (1u128 << 49u128)) | (1u128 << 60u128)) | (1u128 << 61u128)) | (1u128 << 73u128)) | (1u128 << 9u128)),
            FanType::BigThreeDragons => ((0u128 | (1u128 << 54u128)) | (1u128 << 59u128)),
            FanType::AllGreen => 0u128,
            FanType::NineGates => (((0u128 | (1u128 << 22u128)) | (1u128 << 62u128)) | (1u128 << 73u128)),
            FanType::FourKongs => (0u128 | (1u128 << 79u128)),
            FanType::SevenShiftedPairs => (((0u128 | (1u128 << 22u128)) | (1u128 << 62u128)) | (1u128 << 79u128)),
            FanType::ThirteenOrphans => (((0u128 | (1u128 << 52u128)) | (1u128 << 62u128)) | (1u128 << 79u128)),
            FanType::AllTerminals => ((((0u128 | (1u128 << 49u128)) | (1u128 << 55u128)) | (1u128 << 73u128)) | (1u128 << 76u128)),
            FanType::LittleFourWinds => (((0u128 | (1u128 << 38u128)) | (1u128 << 73u128)) | (1u128 << 1u128)),
            FanType::LittleThreeDragons => ((0u128 | (1u128 << 59u128)) | (1u128 << 54u128)),
            FanType::AllHonors => ((((0u128 | (1u128 << 49u128)) | (1u128 << 55u128)) | (1u128 << 73u128)) | (1u128 << 18u128)),
            FanType::FourConcealedPungs => ((0u128 | (1u128 << 49u128)) | (1u128 << 62u128)),
            FanType::PureTerminalChows => (((((0u128 | (1u128 << 19u128)) | (1u128 << 22u128)) | (1u128 << 63u128)) | (1u128 << 69u128)) | (1u128 << 72u128)),
            FanType::QuadrupleChow => (((0u128 | (1u128 << 24u128)) | (1u128 << 64u128)) | (1u128 << 69u128)),
            FanType::FourPureShiftedPungs => ((0u128 | (1u128 << 23u128)) | (1u128 << 49u128)),
            FanType::FourShiftedChows => (0u128 | (1u128 << 71u128)),
            FanType::ThreeKongs => 0u128,
            FanType::AllTerminalsAndHonors => (((0u128 | (1u128 << 49u128)) | (1u128 << 73u128)) | (1u128 << 11u128)),
            FanType::SevenPairs => ((0u128 | (1u128 << 62u128)) | (1u128 << 79u128)),
            FanType::GreaterHonorsAndKnittedTiles => 0u128,
            FanType::AllEvenPungs => ((0u128 | (1u128 << 49u128)) | (1u128 << 68u128)),
            FanType::FullFlush => (0u128 | (1u128 << 76u128)),
            FanType::PureTripleChow => ((0u128 | (1u128 << 24u128)) | (1u128 << 69u128)),
            FanType::PureShiftedPungs => (0u128 | (1u128 << 23u128)),
            FanType::UpperTiles => (0u128 | (1u128 << 76u128)),
            FanType::MiddleTiles => ((0u128 | (1u128 << 76u128)) | (1u128 << 68u128)),
            FanType::LowerTiles => (0u128 | (1u128 << 76u128)),
            FanType::PureStraight => 0u128,
            FanType::ThreeSuitedTerminalChows => ((((0u128 | (1u128 << 69u128)) | (1u128 << 72u128)) | (1u128 << 76u128)) | (1u128 << 63u128)),
            FanType::PureShiftedChows => 0u128,
            FanType::AllFives => (0u128 | (1u128 << 68u128)),
            FanType::TriplePung => 0u128,
            FanType::ThreeConcealedPungs => 0u128,
            FanType::LesserHonorsAndKnittedTiles => ((0u128 | (1u128 << 52u128)) | (1u128 << 62u128)),
            FanType::KnittedStraight => 0u128,
            FanType::UpperFour => (0u128 | (1u128 << 76u128)),
            FanType::LowerFour => (0u128 | (1u128 << 76u128)),
            FanType::BigThreeWinds => 0u128,
            FanType::MixedStraight => 0u128,
            FanType::ReversibleTiles => (0u128 | (1u128 << 75u128)),
            FanType::MixedTripleChow => 0u128,
            FanType::MixedShiftedPungs => 0u128,
            FanType::ChickenHand => 0u128,
            FanType::LastTileDraw => 0u128,
            FanType::LastTileClaim => 0u128,
            FanType::OutWithReplacementTile => 0u128,
            FanType::RobbingTheKong => 0u128,
            FanType::TwoConcealedKongs => 0u128,
            FanType::AllPungs => 0u128,
            FanType::HalfFlush => 0u128,
            FanType::MixedShiftedChows => 0u128,
            FanType::AllTypes => 0u128,
            FanType::MeldedHand => (0u128 | (1u128 << 79u128)),
            FanType::TwoDragonPungs => 0u128,
            FanType::OutsideHand => 0u128,
            FanType::FullyConcealed => 0u128,
            FanType::TwoMeldedKongs => 0u128,
            FanType::LastTile => 0u128,
            FanType::DragonPung => 0u128,
            FanType::PrevalentWind => 0u128,
            FanType::SeatWind => 0u128,
            FanType::ConcealedHand => 0u128,
            FanType::AllChows => 0u128,
            FanType::TileHog => 0u128,
            FanType::DoublePung => 0u128,
            FanType::TwoConcealedPungs => 0u128,
            FanType::ConcealedKong => 0u128,
            FanType::AllSimples => 0u128,
            FanType::PureDoubleChow => 0u128,
            FanType::MixedDoubleChow => 0u128,
            FanType::ShortStraight => 0u128,
            FanType::TwoTerminalChows => 0u128,
            FanType::PungOfTerminalsOrHonors => 0u128,
            FanType::MeldedKong => 0u128,
            FanType::OneVoidedSuit => 0u128,
            FanType::NoHonors => 0u128,
            FanType::EdgeWait => 0u128,
            FanType::ClosedWait => 0u128,
            FanType::SingleWait => 0u128,
            FanType::SelfDrawn => 0u128,
            FanType::FlowerTiles => 0u128,
        }
    }

    /// Base point value of the fan.
    pub fn points(self) -> (r: u8)
        ensures
            r == self.spec_points(),
            1 <= r <= 88,
    {
        match self {
            FanType::BigFourWinds => 88,
            FanType::BigThreeDragons => 88,
            FanType::AllGreen => 88,
            FanType::NineGates => 88,
            FanType::FourKongs => 88,
            FanType::SevenShiftedPairs => 88,
            FanType::ThirteenOrphans => 88,
            FanType::AllTerminals => 64,
            FanType::LittleFourWinds => 64,
            FanType::LittleThreeDragons => 64,
            FanType::AllHonors => 64,
            FanType::FourConcealedPungs => 64,
            FanType::PureTerminalChows => 64,
            FanType::QuadrupleChow => 48,
            FanType::FourPureShiftedPungs => 48,
            FanType::FourShiftedChows => 32,
            FanType::ThreeKongs => 32,
            FanType::AllTerminalsAndHonors => 32,
            FanType::SevenPairs => 24,
            FanType::GreaterHonorsAndKnittedTiles => 24,
            FanType::AllEvenPungs => 24,
            FanType::FullFlush => 24,
            FanType::PureTripleChow => 24,
            FanType::PureShiftedPungs => 24,
            FanType::UpperTiles => 24,
            FanType::MiddleTiles => 24,
            FanType::LowerTiles => 24,
            FanType::PureStraight => 16,
            FanType::ThreeSuitedTerminalChows => 16,
            FanType::PureShiftedChows => 16,
            FanType::AllFives => 16,
            FanType::TriplePung => 16,
            FanType::ThreeConcealedPungs => 16,
            FanType::LesserHonorsAndKnittedTiles => 12,
            FanType::KnittedStraight => 12,
            FanType::UpperFour => 12,
            FanType::LowerFour => 12,
            FanType::BigThreeWinds => 12,
            FanType::MixedStraight => 8,
            FanType::ReversibleTiles => 8,
            FanType::MixedTripleChow => 8,
            FanType::MixedShiftedPungs => 8,
            FanType::ChickenHand => 8,
            FanType::LastTileDraw => 8,
            FanType::LastTileClaim => 8,
            FanType::OutWithReplacementTile => 8,
            FanType::RobbingTheKong => 8,
            FanType::TwoConcealedKongs => 8,
            FanType::AllPungs => 6,
            FanType::HalfFlush => 6,
            FanType::MixedShiftedChows => 6,
            FanType::AllTypes => 6,
            FanType::MeldedHand => 6,
            FanType::TwoDragonPungs => 6,
            FanType::OutsideHand => 4,
            FanType::FullyConcealed => 4,
            FanType::TwoMeldedKongs => 4,
            FanType::LastTile => 4,
            FanType::DragonPung => 2,
            FanType::PrevalentWind => 2,
            FanType::SeatWind => 2,
            FanType::ConcealedHand => 2,
            FanType::AllChows => 2,
            FanType::TileHog => 2,
            FanType::DoublePung => 2,
            FanType::TwoConcealedPungs => 2,
            FanType::ConcealedKong => 2,
            FanType::AllSimples => 2,
            FanType::PureDoubleChow => 1,
            FanType::MixedDoubleChow => 1,
            FanType::ShortStraight => 1,
            FanType::TwoTerminalChows => 1,
            FanType::PungOfTerminalsOrHonors => 1,
            FanType::MeldedKong => 1,
            FanType::OneVoidedSuit => 1,
            FanType::NoHonors => 1,
            FanType::EdgeWait => 1,
            FanType::ClosedWait => 1,
            FanType::SingleWait => 1,
            FanType::SelfDrawn => 1,
            FanType::FlowerTiles => 1,
        }
    }

    /// Human-readable name of the fan.
    pub fn name(self) -> (r: &'static str)
        ensures
            r == self.spec_name(),
    {
        match self {
            FanType::BigFourWinds => "Big Four Winds",
            FanType::BigThreeDragons => "Big Three Dragons",
            FanType::AllGreen => "All Green",
            FanType::NineGates => "Nine Gates",
            FanType::FourKongs => "Four Kongs",
            FanType::SevenShiftedPairs => "Seven Shifted Pairs",
            FanType::ThirteenOrphans => "Thirteen Orphans",
            FanType::AllTerminals => "All Terminals",
            FanType::LittleFourWinds => "Little Four Winds",
            FanType::LittleThreeDragons => "Little Three Dragons",
            FanType::AllHonors => "All Honors",
            FanType::FourConcealedPungs => "Four Concealed Pungs",
            FanType::PureTerminalChows => "Pure Terminal Chows",
            FanType::QuadrupleChow => "Quadruple Chow",
            FanType::FourPureShiftedPungs => "Four Pure Shifted Pungs",
            FanType::FourShiftedChows => "Four Shifted Chows",
            FanType::ThreeKongs => "Three Kongs",
            FanType::AllTerminalsAndHonors => "All Terminals and Honors",
            FanType::SevenPairs => "Seven Pairs",
            FanType::GreaterHonorsAndKnittedTiles => "Greater Honors and Knitted Tiles",
            FanType::AllEvenPungs => "All Even Pungs",
            FanType::FullFlush => "Full Flush",
            FanType::PureTripleChow => "Pure Triple Chow",
            FanType::PureShiftedPungs => "Pure Shifted Pungs",
            FanType::UpperTiles => "Upper Tiles",
            FanType::MiddleTiles => "Middle Tiles",
            FanType::LowerTiles => "Lower Tiles",
            FanType::PureStraight => "Pure Straight",
            FanType::ThreeSuitedTerminalChows => "Three-Suited Terminal Chows",
            FanType::PureShiftedChows => "Pure Shifted Chows",
            FanType::AllFives => "All Fives",
            FanType::TriplePung => "Triple Pung",
            FanType::ThreeConcealedPungs => "Three Concealed Pungs",
            FanType::LesserHonorsAndKnittedTiles => "Lesser Honors and Knitted Tiles",
            FanType::KnittedStraight => "Knitted Straight",
            FanType::UpperFour => "Upper Four",
            FanType::LowerFour => "Lower Four",
            FanType::BigThreeWinds => "Big Three Winds",
            FanType::MixedStraight => "Mixed Straight",
            FanType::ReversibleTiles => "Reversible Tiles",
            FanType::MixedTripleChow => "Mixed Triple Chow",
            FanType::MixedShiftedPungs => "Mixed Shifted Pungs",
            FanType::ChickenHand => "Chicken Hand",
            FanType::LastTileDraw => "Last Tile Draw",
            FanType::LastTileClaim => "Last Tile Claim",
            FanType::OutWithReplacementTile => "Out With Replacement Tile",
            FanType::RobbingTheKong => "Robbing The Kong",
            FanType::TwoConcealedKongs => "Two Concealed Kongs",
            FanType::AllPungs => "All Pungs",
            FanType::HalfFlush => "Half Flush",
            FanType::MixedShiftedChows => "Mixed Shifted Chows",
            FanType::AllTypes => "All Types",
            FanType::MeldedHand => "Melded Hand",
            FanType::TwoDragonPungs => "Two Dragon Pungs",
            FanType::OutsideHand => "Outside Hand",
            FanType::FullyConcealed => "Fully Concealed",
            FanType::TwoMeldedKongs => "Two Melded Kongs",
            FanType::LastTile => "Last Tile",
            FanType::DragonPung => "Dragon Pung",
            FanType::PrevalentWind => "Prevalent Wind",
            FanType::SeatWind => "Seat Wind",
            FanType::ConcealedHand => "Concealed Hand",
            FanType::AllChows => "All Chows",
            FanType::TileHog => "Tile Hog",
            FanType::DoublePung => "Double Pung",
            FanType::TwoConcealedPungs => "Two Concealed Pungs",
            FanType::ConcealedKong => "Concealed Kong",
            FanType::AllSimples => "All Simples",
            FanType::PureDoubleChow => "Pure Double Chow",
            FanType::MixedDoubleChow => "Mixed Double Chow",
            FanType::ShortStraight => "Short Straight",
            FanType::TwoTerminalChows => "Two Terminal Chows",
            FanType::PungOfTerminalsOrHonors => "Pung of Terminals or Honors",
            FanType::MeldedKong => "Melded Kong",
            FanType::OneVoidedSuit => "One Voided Suit",
            FanType::NoHonors => "No Honors",
            FanType::EdgeWait => "Edge Wait",
            FanType::ClosedWait => "Closed Wait",
            FanType::SingleWait => "Single Wait",
            FanType::SelfDrawn => "Self-Drawn",
            FanType::FlowerTiles => "Flower Tiles",
        }
    }

    /// Bit index of the fan in a `FanExclusionSet`.
    pub fn bit_index(self) -> (r: usize)
        ensures
            r == self.spec_bit(),
            1 <= r <= 81,
    {
        match self {
            FanType::BigFourWinds => 1,
            FanType::BigThreeDragons => 2,
            FanType::AllGreen => 3,
            FanType::NineGates => 4,
            FanType::FourKongs => 5,
            FanType::SevenShiftedPairs => 6,
            FanType::ThirteenOrphans => 7,
            FanType::AllTerminals => 8,
            FanType::LittleFourWinds => 9,
            FanType::LittleThreeDragons => 10,
            FanType::AllHonors => 11,
            FanType::FourConcealedPungs => 12,
            FanType::PureTerminalChows => 13,
            FanType::QuadrupleChow => 14,
            FanType::FourPureShiftedPungs => 15,
            FanType::FourShiftedChows => 16,
            FanType::ThreeKongs => 17,
            FanType::AllTerminalsAndHonors => 18,
            FanType::SevenPairs => 19,
            FanType::GreaterHonorsAndKnittedTiles => 20,
            FanType::AllEvenPungs => 21,
            FanType::FullFlush => 22,
            FanType::PureTripleChow => 23,
            FanType::PureShiftedPungs => 24,
            FanType::UpperTiles => 25,
            FanType::MiddleTiles => 26,
            FanType::LowerTiles => 27,
            FanType::PureStraight => 28,
            FanType::ThreeSuitedTerminalChows => 29,
            FanType::PureShiftedChows => 30,
            FanType::AllFives => 31,
            FanType::TriplePung => 32,
            FanType::ThreeConcealedPungs => 33,
            FanType::LesserHonorsAndKnittedTiles => 34,
            FanType::KnittedStraight => 35,
            FanType::UpperFour => 36,
            FanType::LowerFour => 37,
            FanType::BigThreeWinds => 38,
            FanType::MixedStraight => 39,
            FanType::ReversibleTiles => 40,
            FanType::MixedTripleChow => 41,
            FanType::MixedShiftedPungs => 42,
            FanType::ChickenHand => 43,
            FanType::LastTileDraw => 44,
            FanType::LastTileClaim => 45,
            FanType::OutWithReplacementTile => 46,
            FanType::RobbingTheKong => 47,
            FanType::TwoConcealedKongs => 48,
            FanType::AllPungs => 49,
            FanType::HalfFlush => 50,
            FanType::MixedShiftedChows => 51,
            FanType::AllTypes => 52,
            FanType::MeldedHand => 53,
            FanType::TwoDragonPungs => 54,
            FanType::OutsideHand => 55,
            FanType::FullyConcealed => 56,
            FanType::TwoMeldedKongs => 57,
            FanType::LastTile => 58,
            FanType::DragonPung => 59,
            FanType::PrevalentWind => 60,
            FanType::SeatWind => 61,
            FanType::ConcealedHand => 62,
            FanType::AllChows => 63,
            FanType::TileHog => 64,
            FanType::DoublePung => 65,
            FanType::TwoConcealedPungs => 66,
            FanType::ConcealedKong => 67,
            FanType::AllSimples => 68,
            FanType::PureDoubleChow => 69,
            FanType::MixedDoubleChow => 70,
            FanType::ShortStraight => 71,
            FanType::TwoTerminalChows => 72,
            FanType::PungOfTerminalsOrHonors => 73,
            FanType::MeldedKong => 74,
            FanType::OneVoidedSuit => 75,
            FanType::NoHonors => 76,
            FanType::EdgeWait => 77,
            FanType::ClosedWait => 78,
            FanType::SingleWait => 79,
            FanType::SelfDrawn => 80,
            FanType::FlowerTiles => 81,
        }
    }

    /// The set of fans that this fan excludes, as a bit mask.
    pub fn excludes_mask(self) -> (r: FanExclusionSet)
        ensures
            forall|i: int| 0 <= i < 128 ==> (has_bit(r.0, i) <==> #[trigger] self.excludes_bit(i)),
            r.0 == self.exclusion_mask(),
    {
        let mut mask = FanExclusionSet(0);
        proof {
            lemma_no_bits();
        }
        match self {
            FanType::BigFourWinds => {
                mask.set_bit(FanType::BigThreeWinds.bit_index());
                mask.set_bit(FanType::AllPungs.bit_index());
                mask.set_bit(FanType::PrevalentWind.bit_index());
                mask.set_bit(FanType::SeatWind.bit_index());
                mask.set_bit(FanType::PungOfTerminalsOrHonors.bit_index());
                mask.set_bit(FanType::LittleFourWinds.bit_index());
            },
            FanType::BigThreeDragons => {
                mask.set_bit(FanType::TwoDragonPungs.bit_index());
                mask.set_bit(FanType::DragonPung.bit_index());
            },
            FanType::AllGreen => {
            },
            FanType::NineGates => {
                mask.set_bit(FanType::FullFlush.bit_index());
                mask.set_bit(FanType::ConcealedHand.bit_index());
                mask.set_bit(FanType::PungOfTerminalsOrHonors.bit_index());
            },
            FanType::FourKongs => {
                mask.set_bit(FanType::SingleWait.bit_index());
            },
            FanType::SevenShiftedPairs => {
                mask.set_bit(FanType::FullFlush.bit_index());
                mask.set_bit(FanType::ConcealedHand.bit_index());
                mask.set_bit(FanType::SingleWait.bit_index());
            },
            FanType::ThirteenOrphans => {
                mask.set_bit(FanType::AllTypes.bit_index());
                mask.set_bit(FanType::ConcealedHand.bit_index());
                mask.set_bit(FanType::SingleWait.bit_index());
            },
            FanType::AllTerminals => {
                mask.set_bit(FanType::AllPungs.bit_index());
                mask.set_bit(FanType::OutsideHand.bit_index());
                mask.set_bit(FanType::PungOfTerminalsOrHonors.bit_index());
                mask.set_bit(FanType::NoHonors.bit_index());
            },
            FanType::LittleFourWinds => {
                mask.set_bit(FanType::BigThreeWinds.bit_index());
                mask.set_bit(FanType::PungOfTerminalsOrHonors.bit_index());
                mask.set_bit(FanType::BigFourWinds.bit_index());
            },
            FanType::LittleThreeDragons => {
                mask.set_bit(FanType::DragonPung.bit_index());
                mask.set_bit(FanType::TwoDragonPungs.bit_index());
            },
            FanType::AllHonors => {
                mask.set_bit(FanType::AllPungs.bit_index());
                mask.set_bit(FanType::OutsideHand.bit_index());
                mask.set_bit(FanType::PungOfTerminalsOrHonors.bit_index());
                mask.set_bit(FanType::AllTerminalsAndHonors.bit_index());
            },
            FanType::FourConcealedPungs => {
                mask.set_bit(FanType::AllPungs.bit_index());
                mask.set_bit(FanType::ConcealedHand.bit_index());
            },
            FanType::PureTerminalChows => {
                mask.set_bit(FanType::SevenPairs.bit_index());
                mask.set_bit(FanType::FullFlush.bit_index());
                mask.set_bit(FanType::AllChows.bit_index());
                mask.set_bit(FanType::PureDoubleChow.bit_index());
                mask.set_bit(FanType::TwoTerminalChows.bit_index());
            },
            FanType::QuadrupleChow => {
                mask.set_bit(FanType::PureShiftedPungs.bit_index());
                mask.set_bit(FanType::TileHog.bit_index());
                mask.set_bit(FanType::PureDoubleChow.bit_index());
            },
            FanType::FourPureShiftedPungs => {
                mask.set_bit(FanType::PureTripleChow.bit_index());
                mask.set_bit(FanType::AllPungs.bit_index());
            },
            FanType::FourShiftedChows => {
                mask.set_bit(FanType::ShortStraight.bit_index());
            },
            FanType::ThreeKongs => {
            },
            FanType::AllTerminalsAndHonors => {
                mask.set_bit(FanType::AllPungs.bit_index());
                mask.set_bit(FanType::PungOfTerminalsOrHonors.bit_index());
                mask.set_bit(FanType::AllHonors.bit_index());
            },
            FanType::SevenPairs => {
                mask.set_bit(FanType::ConcealedHand.bit_index());
                mask.set_bit(FanType::SingleWait.bit_index());
            },
            FanType::GreaterHonorsAndKnittedTiles => {
            },
            FanType::AllEvenPungs => {
                mask.set_bit(FanType::AllPungs.bit_index());
                mask.set_bit(FanType::AllSimples.bit_index());
            },
            FanType::FullFlush => {
                mask.set_bit(FanType::NoHonors.bit_index());
            },
            FanType::PureTripleChow => {
                mask.set_bit(FanType::PureShiftedPungs.bit_index());
                mask.set_bit(FanType::PureDoubleChow.bit_index());
            },
            FanType::PureShiftedPungs => {
                mask.set_bit(FanType::PureTripleChow.bit_index());
            },
            FanType::UpperTiles => {
                mask.set_bit(FanType::NoHonors.bit_index());
            },
            FanType::MiddleTiles => {
                mask.set_bit(FanType::NoHonors.bit_index());
                mask.set_bit(FanType::AllSimples.bit_index());
            },
            FanType::LowerTiles => {
                mask.set_bit(FanType::NoHonors.bit_index());
            },
            FanType::PureStraight => {
            },
            FanType::ThreeSuitedTerminalChows => {
                mask.set_bit(FanType::PureDoubleChow.bit_index());
                mask.set_bit(FanType::TwoTerminalChows.bit_index());
                mask.set_bit(FanType::NoHonors.bit_index());
                mask.set_bit(FanType::AllChows.bit_index());
            },
            FanType::PureShiftedChows => {
            },
            FanType::AllFives => {
                mask.set_bit(FanType::AllSimples.bit_index());
            },
            FanType::TriplePung => {
            },
            FanType::ThreeConcealedPungs => {
            },
            FanType::LesserHonorsAndKnittedTiles => {
                mask.set_bit(FanType::AllTypes.bit_index());
                mask.set_bit(FanType::ConcealedHand.bit_index());
            },
            FanType::KnittedStraight => {
            },
            FanType::UpperFour => {
                mask.set_bit(FanType::NoHonors.bit_index());
            },
            FanType::LowerFour => {
                mask.set_bit(FanType::NoHonors.bit_index());
            },
            FanType::BigThreeWinds => {
            },
            FanType::MixedStraight => {
            },
            FanType::ReversibleTiles => {
                mask.set_bit(FanType::OneVoidedSuit.bit_index());
            },
            FanType::MixedTripleChow => {
            },
            FanType::MixedShiftedPungs => {
            },
            FanType::ChickenHand => {
            },
            FanType::LastTileDraw => {
            },
            FanType::LastTileClaim => {
            },
            FanType::OutWithReplacementTile => {
            },
            FanType::RobbingTheKong => {
            },
            FanType::TwoConcealedKongs => {
            },
            FanType::AllPungs => {
            },
            FanType::HalfFlush => {
            },
            FanType::MixedShiftedChows => {
            },
            FanType::AllTypes => {
            },
            FanType::MeldedHand => {
                mask.set_bit(FanType::SingleWait.bit_index());
            },
            FanType::TwoDragonPungs => {
            },
            FanType::OutsideHand => {
            },
            FanType::FullyConcealed => {
            },
            FanType::TwoMeldedKongs => {
            },
            FanType::LastTile => {
            },
            FanType::DragonPung => {
            },
            FanType::PrevalentWind => {
            },
            FanType::SeatWind => {
            },
            FanType::ConcealedHand => {
            },
            FanType::AllChows => {
            },
            FanType::TileHog => {
            },
            FanType::DoublePung => {
            },
            FanType::TwoConcealedPungs => {
            },
            FanType::ConcealedKong => {
            },
            FanType::AllSimples => {
            },
            FanType::PureDoubleChow => {
            },
            FanType::MixedDoubleChow => {
            },
            FanType::ShortStraight => {
            },
            FanType::TwoTerminalChows => {
            },
            FanType::PungOfTerminalsOrHonors => {
            },
            FanType::MeldedKong => {
            },
            FanType::OneVoidedSuit => {
            },
            FanType::NoHonors => {
            },
            FanType::EdgeWait => {
            },
            FanType::ClosedWait => {
            },
            FanType::SingleWait => {
            },
            FanType::SelfDrawn => {
            },
            FanType::FlowerTiles => {
            },
        }
        mask
    }
}

/// A set of fans, held as a bit mask over their bit indices.
#[derive(Clone, Copy, Debug, PartialEq, Eq, Structural, Default)]
pub struct FanExclusionSet(pub u128);

impl FanExclusionSet {
    /// Adds the fan with bit index `bit`.
    pub fn set_bit(&mut self, bit: usize)
        requires
            bit < 128,
        ensures
            forall|i: int| 0 <= i < 128 ==> (has_bit(final(self).0, i) <==> (has_bit(old(self).0, i) || i == bit)),
            final(self).0 == old(self).0 | (1u128 << bit as u128),
    {
        let old_mask = self.0;
        let b = bit as u128;
        self.0 = old_mask | (1u128 << b);
        proof {
            assert forall|i: int| 0 <= i < 128 implies (has_bit(self.0, i) <==> (has_bit(old_mask, i) || i == bit)) by {
                lemma_set_bit(old_mask, b, i as u128);
            }
        }
    }

    /// Adds `fan`.
    pub fn set(&mut self, fan: FanType)
        ensures
            forall|i: int| 0 <= i < 128 ==> (has_bit(final(self).0, i) <==> (has_bit(old(self).0, i) || i == fan.spec_bit())),
    {
        let b = fan.bit_index();
        self.set_bit(b);
    }

    /// `fan` is in the set.
    pub fn contains(&self, fan: FanType) -> (r: bool)
        ensures
            r == has_bit(self.0, fan.spec_bit()),
    {
        let b = fan.bit_index() as u128;
        (self.0 >> b) & 1 == 1
    }
}

/// A fan found on a decomposition, with its score and the fans it excludes.
#[derive(Clone, Copy, Debug)]
pub struct FanCandidate {
    pub fan_type: FanType,
    /// Which sets the fan uses (bit 0 for the first set, and so on).
    pub used_set_mask: u64,
    /// Whether the fan uses the pair.
    pub uses_pair: bool,
    pub score: u8,
    pub excludes_mask: FanExclusionSet,
}

/// A fan counted in a result, with its score.
#[derive(Clone, Copy, Debug)]
pub struct ScoredFan {
    pub fan_type: FanType,
    pub used_set_mask: u64,
    pub uses_pair: bool,
    pub score: u8,
}

/// The best selection of fans for a decomposition and its total.
#[derive(Clone, Debug)]
pub struct FanSolveResult {
    pub total_score: u16,
    pub fans: Vec<ScoredFan>,
}

impl Default for FanSolveResult {
    fn default() -> (r: Self)
        ensures
            r.total_score == 0,
            r.fans@.len() == 0,
    {
        FanSolveResult { total_score: 0, fans: Vec::new() }
    }
}

/// Setting bit `b` changes that bit alone.
pub proof fn lemma_set_bit(x: u128, b: u128, c: u128)
    requires
        b < 128,
        c < 128,
    ensures
        ((x | (1u128 << b)) >> c) & 1 == 1 <==> (((x >> c) & 1 == 1) || c == b),
{
    assert(((x | (1u128 << b)) >> c) & 1 == 1 <==> (((x >> c) & 1 == 1) || c == b)) by (bit_vector)
        requires
            b < 128,
            c < 128,
    ;
}

/// The empty mask has no bit set.
pub proof fn lemma_no_bits()
    ensures
        forall|i: int| 0 <= i < 128 ==> !has_bit(0u128, i),
{
    assert forall|i: int| 0 <= i < 128 implies !has_bit(0u128, i) by {
        let c = i as u128;
        assert((0u128 >> c) & 1 == 0) by (bit_vector);
    }
}

/// A bit of the union of two masks is set when it is set in either.
pub proof fn lemma_union_bit(x: u128, y: u128, c: u128)
    requires
        c < 128,
    ensures
        ((x | y) >> c) & 1 == 1 <==> (((x >> c) & 1 == 1) || ((y >> c) & 1 == 1)),
{
    assert(((x | y) >> c) & 1 == 1 <==> (((x >> c) & 1 == 1) || ((y >> c) & 1 == 1))) by (bit_vector);
}

/// The length of a name and three of its characters: enough to tell the
/// fans' names apart.
pub open spec fn name_key(s: Seq<char>) -> (int, char, char, char) {
    (s.len() as int, s[0], s[s.len() - 4], s[s.len() - 8])
}

/// The fan whose name has the key `k`, if any.
pub open spec fn fan_of_name_key(k: (int, char, char, char)) -> Option<FanType> {
    if k == (14int, 'B', 'i', 'u') {
        Some(FanType::BigFourWinds)
    } else if k == (17int, 'B', 'g', ' ') {
        Some(FanType::BigThreeDragons)
    } else if k == (9int, 'A', 'r', 'l') {
        Some(FanType::AllGreen)
    } else if k == (10int, 'N', 'a', 'n') {
        Some(FanType::NineGates)
    } else if k == (10int, 'F', 'o', 'u') {
        Some(FanType::FourKongs)
    } else if k == (19int, 'S', 'a', 'e') {
        Some(FanType::SevenShiftedPairs)
    } else if k == (16int, 'T', 'h', ' ') {
        Some(FanType::ThirteenOrphans)
    } else if k == (13int, 'A', 'n', 'e') {
        Some(FanType::AllTerminals)
    } else if k == (17int, 'L', 'i', 'u') {
        Some(FanType::LittleFourWinds)
    } else if k == (20int, 'L', 'g', ' ') {
        Some(FanType::LittleThreeDragons)
    } else if k == (10int, 'A', 'n', 'l') {
        Some(FanType::AllHonors)
    } else if k == (20int, 'F', 'u', 'e') {
        Some(FanType::FourConcealedPungs)
    } else if k == (19int, 'P', 'h', 'a') {
        Some(FanType::PureTerminalChows)
    } else if k == (14int, 'Q', 'C', 'p') {
        Some(FanType::QuadrupleChow)
    } else if k == (23int, 'F', 'u', 'e') {
        Some(FanType::FourPureShiftedPungs)
    } else if k == (18int, 'F', 'h', 'e') {
        Some(FanType::FourShiftedChows)
    } else if k == (11int, 'T', 'o', 'e') {
        Some(FanType::ThreeKongs)
    } else if k == (24int, 'A', 'n', 'd') {
        Some(FanType::AllTerminalsAndHonors)
    } else if k == (11int, 'S', 'a', 'e') {
        Some(FanType::SevenPairs)
    } else if k == (32int, 'G', 'i', 'e') {
        Some(FanType::GreaterHonorsAndKnittedTiles)
    } else if k == (14int, 'A', 'u', 'e') {
        Some(FanType::AllEvenPungs)
    } else if k == (10int, 'F', 'l', 'l') {
        Some(FanType::FullFlush)
    } else if k == (16int, 'P', 'C', 'p') {
        Some(FanType::PureTripleChow)
    } else if k == (18int, 'P', 'u', 'e') {
        Some(FanType::PureShiftedPungs)
    } else if k == (11int, 'U', 'i', 'e') {
        Some(FanType::UpperTiles)
    } else if k == (12int, 'M', 'i', 'l') {
        Some(FanType::MiddleTiles)
    } else if k == (11int, 'L', 'i', 'e') {
        Some(FanType::LowerTiles)
    } else if k == (13int, 'P', 'i', 'S') {
        Some(FanType::PureStraight)
    } else if k == (27int, 'T', 'h', 'a') {
        Some(FanType::ThreeSuitedTerminalChows)
    } else if k == (18int, 'P', 'h', 'e') {
        Some(FanType::PureShiftedChows)
    } else if k == (9int, 'A', 'i', 'l') {
        Some(FanType::AllFives)
    } else if k == (11int, 'T', 'P', 'p') {
        Some(FanType::TriplePung)
    } else if k == (21int, 'T', 'u', 'e') {
        Some(FanType::ThreeConcealedPungs)
    } else if k == (31int, 'L', 'i', 'e') {
        Some(FanType::LesserHonorsAndKnittedTiles)
    } else if k == (16int, 'K', 'i', 'S') {
        Some(FanType::KnittedStraight)
    } else if k == (10int, 'U', 'F', 'p') {
        Some(FanType::UpperFour)
    } else if k == (10int, 'L', 'F', 'w') {
        Some(FanType::LowerFour)
    } else if k == (15int, 'B', 'i', 'e') {
        Some(FanType::BigThreeWinds)
    } else if k == (14int, 'M', 'i', 'S') {
        Some(FanType::MixedStraight)
    } else if k == (16int, 'R', 'i', 'l') {
        Some(FanType::ReversibleTiles)
    } else if k == (17int, 'M', 'C', 'p') {
        Some(FanType::MixedTripleChow)
    } else if k == (19int, 'M', 'u', 'e') {
        Some(FanType::MixedShiftedPungs)
    } else if k == (12int, 'C', 'H', 'k') {
        Some(FanType::ChickenHand)
    } else if k == (14int, 'L', 'D', 'i') {
        Some(FanType::LastTileDraw)
    } else if k == (15int, 'L', 'l', 'l') {
        Some(FanType::LastTileClaim)
    } else if k == (25int, 'O', 'T', 'e') {
        Some(FanType::OutWithReplacementTile)
    } else if k == (16int, 'R', 'K', 'T') {
        Some(FanType::RobbingTheKong)
    } else if k == (19int, 'T', 'o', 'e') {
        Some(FanType::TwoConcealedKongs)
    } else if k == (9int, 'A', 'u', 'l') {
        Some(FanType::AllPungs)
    } else if k == (10int, 'H', 'l', 'l') {
        Some(FanType::HalfFlush)
    } else if k == (19int, 'M', 'h', 'e') {
        Some(FanType::MixedShiftedChows)
    } else if k == (9int, 'A', 'y', 'l') {
        Some(FanType::AllTypes)
    } else if k == (11int, 'M', 'H', 'd') {
        Some(FanType::MeldedHand)
    } else if k == (16int, 'T', 'u', 'o') {
        Some(FanType::TwoDragonPungs)
    } else if k == (12int, 'O', 'H', 'i') {
        Some(FanType::OutsideHand)
    } else if k == (15int, 'F', 'a', 'o') {
        Some(FanType::FullyConcealed)
    } else if k == (16int, 'T', 'o', 'e') {
        Some(FanType::TwoMeldedKongs)
    } else if k == (9int, 'L', 'T', 'a') {
        Some(FanType::LastTile)
    } else if k == (11int, 'D', 'P', 'g') {
        Some(FanType::DragonPung)
    } else if k == (14int, 'P', 'W', 'e') {
        Some(FanType::PrevalentWind)
    } else if k == (9int, 'S', 'W', 'e') {
        Some(FanType::SeatWind)
    } else if k == (14int, 'C', 'H', 'l') {
        Some(FanType::ConcealedHand)
    } else if k == (9int, 'A', 'h', 'l') {
        Some(FanType::AllChows)
    } else if k == (8int, 'T', ' ', 'T') {
        Some(FanType::TileHog)
    } else if k == (11int, 'D', 'P', 'b') {
        Some(FanType::DoublePung)
    } else if k == (19int, 'T', 'u', 'e') {
        Some(FanType::TwoConcealedPungs)
    } else if k == (14int, 'C', 'K', 'l') {
        Some(FanType::ConcealedKong)
    } else if k == (11int, 'A', 'p', ' ') {
        Some(FanType::AllSimples)
    } else if k == (16int, 'P', 'C', 'b') {
        Some(FanType::PureDoubleChow)
    } else if k == (17int, 'M', 'C', 'b') {
        Some(FanType::MixedDoubleChow)
    } else if k == (14int, 'S', 'i', 'S') {
        Some(FanType::ShortStraight)
    } else if k == (18int, 'T', 'h', 'a') {
        Some(FanType::TwoTerminalChows)
    } else if k == (27int, 'P', 'n', 'r') {
        Some(FanType::PungOfTerminalsOrHonors)
    } else if k == (11int, 'M', 'K', 'd') {
        Some(FanType::MeldedKong)
    } else if k == (15int, 'O', 'S', 'd') {
        Some(FanType::OneVoidedSuit)
    } else if k == (9int, 'N', 'n', 'o') {
        Some(FanType::NoHonors)
    } else if k == (9int, 'E', 'W', 'd') {
        Some(FanType::EdgeWait)
    } else if k == (11int, 'C', 'W', 's') {
        Some(FanType::ClosedWait)
    } else if k == (11int, 'S', 'W', 'g') {
        Some(FanType::SingleWait)
    } else if k == (10int, 'S', 'r', 'l') {
        Some(FanType::SelfDrawn)
    } else if k == (12int, 'F', 'i', 'e') {
        Some(FanType::FlowerTiles)
    } else {
        None
    }
}

/// Each fan's name leads back to the fan.
proof fn lemma_name_leads_back(f: FanType)
    ensures
        f.spec_name()@.len() >= 8,
        fan_of_name_key(name_key(f.spec_name()@)) == Some(f),
{
    match f {
        FanType::BigFourWinds => {
            reveal_strlit("Big Four Winds");
        },
        FanType::BigThreeDragons => {
            reveal_strlit("Big Three Dragons");
        },
        FanType::AllGreen => {
            reveal_strlit("All Green");
        },
        FanType::NineGates => {
            reveal_strlit("Nine Gates");
        },
        FanType::FourKongs => {
            reveal_strlit("Four Kongs");
        },
        FanType::SevenShiftedPairs => {
            reveal_strlit("Seven Shifted Pairs");
        },
        FanType::ThirteenOrphans => {
            reveal_strlit("Thirteen Orphans");
        },
        FanType::AllTerminals => {
            reveal_strlit("All Terminals");
        },
        FanType::LittleFourWinds => {
            reveal_strlit("Little Four Winds");
        },
        FanType::LittleThreeDragons => {
            reveal_strlit("Little Three Dragons");
        },
        FanType::AllHonors => {
            reveal_strlit("All Honors");
        },
        FanType::FourConcealedPungs => {
            reveal_strlit("Four Concealed Pungs");
        },
        FanType::PureTerminalChows => {
            reveal_strlit("Pure Terminal Chows");
        },
        FanType::QuadrupleChow => {
            reveal_strlit("Quadruple Chow");
        },
        FanType::FourPureShiftedPungs => {
            reveal_strlit("Four Pure Shifted Pungs");
        },
        FanType::FourShiftedChows => {
            reveal_strlit("Four Shifted Chows");
        },
        FanType::ThreeKongs => {
            reveal_strlit("Three Kongs");
        },
        FanType::AllTerminalsAndHonors => {
            reveal_strlit("All Terminals and Honors");
        },
        FanType::SevenPairs => {
            reveal_strlit("Seven Pairs");
        },
        FanType::GreaterHonorsAndKnittedTiles => {
            reveal_strlit("Greater Honors and Knitted Tiles");
        },
        FanType::AllEvenPungs => {
            reveal_strlit("All Even Pungs");
        },
        FanType::FullFlush => {
            reveal_strlit("Full Flush");
        },
        FanType::PureTripleChow => {
            reveal_strlit("Pure Triple Chow");
        },
        FanType::PureShiftedPungs => {
            reveal_strlit("Pure Shifted Pungs");
        },
        FanType::UpperTiles => {
            reveal_strlit("Upper Tiles");
        },
        FanType::MiddleTiles => {
            reveal_strlit("Middle Tiles");
        },
        FanType::LowerTiles => {
            reveal_strlit("Lower Tiles");
        },
        FanType::PureStraight => {
            reveal_strlit("Pure Straight");
        },
        FanType::ThreeSuitedTerminalChows => {
            reveal_strlit("Three-Suited Terminal Chows");
        },
        FanType::PureShiftedChows => {
            reveal_strlit("Pure Shifted Chows");
        },
        FanType::AllFives => {
            reveal_strlit("All Fives");
        },
        FanType::TriplePung => {
            reveal_strlit("Triple Pung");
        },
        FanType::ThreeConcealedPungs => {
            reveal_strlit("Three Concealed Pungs");
        },
        FanType::LesserHonorsAndKnittedTiles => {
            reveal_strlit("Lesser Honors and Knitted Tiles");
        },
        FanType::KnittedStraight => {
            reveal_strlit("Knitted Straight");
        },
        FanType::UpperFour => {
            reveal_strlit("Upper Four");
        },
        FanType::LowerFour => {
            reveal_strlit("Lower Four");
        },
        FanType::BigThreeWinds => {
            reveal_strlit("Big Three Winds");
        },
        FanType::MixedStraight => {
            reveal_strlit("Mixed Straight");
        },
        FanType::ReversibleTiles => {
            reveal_strlit("Reversible Tiles");
        },
        FanType::MixedTripleChow => {
            reveal_strlit("Mixed Triple Chow");
        },
        FanType::MixedShiftedPungs => {
            reveal_strlit("Mixed Shifted Pungs");
        },
        FanType::ChickenHand => {
            reveal_strlit("Chicken Hand");
        },
        FanType::LastTileDraw => {
            reveal_strlit("Last Tile Draw");
        },
        FanType::LastTileClaim => {
            reveal_strlit("Last Tile Claim");
        },
        FanType::OutWithReplacementTile => {
            reveal_strlit("Out With Replacement Tile");
        },
        FanType::RobbingTheKong => {
            reveal_strlit("Robbing The Kong");
        },
        FanType::TwoConcealedKongs => {
            reveal_strlit("Two Concealed Kongs");
        },
        FanType::AllPungs => {
            reveal_strlit("All Pungs");
        },
        FanType::HalfFlush => {
            reveal_strlit("Half Flush");
        },
        FanType::MixedShiftedChows => {
            reveal_strlit("Mixed Shifted Chows");
        },
        FanType::AllTypes => {
            reveal_strlit("All Types");
        },
        FanType::MeldedHand => {
            reveal_strlit("Melded Hand");
        },
        FanType::TwoDragonPungs => {
            reveal_strlit("Two Dragon Pungs");
        },
        FanType::OutsideHand => {
            reveal_strlit("Outside Hand");
        },
        FanType::FullyConcealed => {
            reveal_strlit("Fully Concealed");
        },
        FanType::TwoMeldedKongs => {
            reveal_strlit("Two Melded Kongs");
        },
        FanType::LastTile => {
            reveal_strlit("Last Tile");
        },
        FanType::DragonPung => {
            reveal_strlit("Dragon Pung");
        },
        FanType::PrevalentWind => {
            reveal_strlit("Prevalent Wind");
        },
        FanType::SeatWind => {
            reveal_strlit("Seat Wind");
        },
        FanType::ConcealedHand => {
            reveal_strlit("Concealed Hand");
        },
        FanType::AllChows => {
            reveal_strlit("All Chows");
        },
        FanType::TileHog => {
            reveal_strlit("Tile Hog");
        },
        FanType::DoublePung => {
            reveal_strlit("Double Pung");
        },
        FanType::TwoConcealedPungs => {
            reveal_strlit("Two Concealed Pungs");
        },
        FanType::ConcealedKong => {
            reveal_strlit("Concealed Kong");
        },
        FanType::AllSimples => {
            reveal_strlit("All Simples");
        },
        FanType::PureDoubleChow => {
            reveal_strlit("Pure Double Chow");
        },
        FanType::MixedDoubleChow => {
            reveal_strlit("Mixed Double Chow");
        },
        FanType::ShortStraight => {
            reveal_strlit("Short Straight");
        },
        FanType::TwoTerminalChows => {
            reveal_strlit("Two Terminal Chows");
        },
        FanType::PungOfTerminalsOrHonors => {
            reveal_strlit("Pung of Terminals or Honors");
        },
        FanType::MeldedKong => {
            reveal_strlit("Melded Kong");
        },
        FanType::OneVoidedSuit => {
            reveal_strlit("One Voided Suit");
        },
        FanType::NoHonors => {
            reveal_strlit("No Honors");
        },
        FanType::EdgeWait => {
            reveal_strlit("Edge Wait");
        },
        FanType::ClosedWait => {
            reveal_strlit("Closed Wait");
        },
        FanType::SingleWait => {
            reveal_strlit("Single Wait");
        },
        FanType::SelfDrawn => {
            reveal_strlit("Self-Drawn");
        },
        FanType::FlowerTiles => {
            reveal_strlit("Flower Tiles");
        },
    }
}

/// Different fans have different names, and no name is empty.
pub proof fn lemma_names_distinct(a: FanType, b: FanType)
    requires
        a != b,
    ensures
        a.spec_name()@ != b.spec_name()@,
        a.spec_name()@.len() > 0,
{
    lemma_name_leads_back(a);
    lemma_name_leads_back(b);
}

/// The points of the fan numbered `n` in the rulebook. The rulebook lists
/// the fans from the most valuable down: numbers 1 to 7 are worth 88 points,
/// 8 to 13 are worth 64, 14 and 15 are worth 48, 16 to 18 are worth 32,
/// 19 to 27 are worth 24, 28 to 33 are worth 16, 34 to 38 are worth 12,
/// 39 to 48 are worth 8, 49 to 54 are worth 6, 55 to 58 are worth 4,
/// 59 to 68 are worth 2 and 69 to 81 are worth 1.
pub open spec fn rulebook_points(n: int) -> int {
    if n <= 7 {
        88
    } else if n <= 13 {
        64
    } else if n <= 15 {
        48
    } else if n <= 18 {
        32
    } else if n <= 27 {
        24
    } else if n <= 33 {
        16
    } else if n <= 38 {
        12
    } else if n <= 48 {
        8
    } else if n <= 54 {
        6
    } else if n <= 58 {
        4
    } else if n <= 68 {
        2
    } else {
        1
    }
}

/// Every fan is worth what the rulebook gives the fan of its number, and the
/// numbers run from 1 to 81.
pub proof fn lemma_points_follow_rulebook(f: FanType)
    ensures
        1 <= f.spec_bit() <= 81,
        f.spec_points() == rulebook_points(f.spec_bit()),
{
}

/// Different fans have different numbers.
pub proof fn lemma_numbers_distinct(f: FanType, g: FanType)
    requires
        f != g,
    ensures
        f.spec_bit() != g.spec_bit(),
{
}

/// The rulebook's exclusions, by fan number: the fan numbered `n` is not
/// counted together with the fan numbered `m`.
pub open spec fn rulebook_excludes(n: int, m: int) -> bool {
    if n == 1 {
        m == 9 || m == 38 || m == 49 || m == 60 || m == 61 || m == 73
    } else if n == 2 {
        m == 54 || m == 59
    } else if n == 4 {
        m == 22 || m == 62 || m == 73
    } else if n == 5 {
        m == 79
    } else if n == 6 {
        m == 22 || m == 62 || m == 79
    } else if n == 7 {
        m == 52 || m == 62 || m == 79
    } else if n == 8 {
        m == 49 || m == 55 || m == 73 || m == 76
    } else if n == 9 {
        m == 1 || m == 38 || m == 73
    } else if n == 10 {
        m == 54 || m == 59
    } else if n == 11 {
        m == 18 || m == 49 || m == 55 || m == 73
    } else if n == 12 {
        m == 49 || m == 62
    } else if n == 13 {
        m == 19 || m == 22 || m == 63 || m == 69 || m == 72
    } else if n == 14 {
        m == 24 || m == 64 || m == 69
    } else if n == 15 {
        m == 23 || m == 49
    } else if n == 16 {
        m == 71
    } else if n == 18 {
        m == 11 || m == 49 || m == 73
    } else if n == 19 {
        m == 62 || m == 79
    } else if n == 21 {
        m == 49 || m == 68
    } else if n == 22 {
        m == 76
    } else if n == 23 {
        m == 24 || m == 69
    } else if n == 24 {
        m == 23
    } else if n == 25 {
        m == 76
    } else if n == 26 {
        m == 68 || m == 76
    } else if n == 27 {
        m == 76
    } else if n == 29 {
        m == 63 || m == 69 || m == 72 || m == 76
    } else if n == 31 {
        m == 68
    } else if n == 34 {
        m == 52 || m == 62
    } else if n == 36 {
        m == 76
    } else if n == 37 {
        m == 76
    } else if n == 40 {
        m == 75
    } else if n == 53 {
        m == 79
    } else {
        false
    }
}

/// A fan excludes exactly the fans that the rulebook excludes for it.
pub proof fn lemma_exclusions_follow_rulebook(f: FanType, g: FanType)
    ensures
        f.excludes(g) <==> rulebook_excludes(f.spec_bit(), g.spec_bit()),
{
}

/// A fan only excludes fans worth fewer points, except where two fans
/// exclude each other.
pub proof fn lemma_exclusions_go_down(f: FanType, g: FanType)
    requires
        f.excludes(g),
    ensures
        g.spec_points() < f.spec_points() || g.excludes(f),
{
}

/// Setting bit `b` of `x` sets that bit and keeps the others.
proof fn lemma_set_bit_all(x: u128, b: u128)
    requires
        b < 128,
    ensures
        forall|i: int| 0 <= i < 128 ==> (#[trigger] has_bit(x | (1u128 << b), i) <==> (has_bit(x, i) || i == b as int)),
{
    assert forall|i: int| 0 <= i < 128 implies (#[trigger] has_bit(x | (1u128 << b), i) <==> (has_bit(x, i) || i == b as int)) by {
        lemma_set_bit(x, b, i as u128);
        assert(has_bit(x | (1u128 << b), i) == (((x | (1u128 << b)) >> (i as u128)) & 1 == 1));
        assert(has_bit(x, i) == ((x >> (i as u128)) & 1 == 1));
    }
}

/// The exclusion mask of a fan has exactly the bits of the fans it
/// excludes.
pub proof fn lemma_mask_bits(f: FanType)
    ensures
        forall|i: int| 0 <= i < 128 ==> (has_bit(f.exclusion_mask(), i) <==> f.excludes_bit(i)),
{
    lemma_no_bits();
    match f {
        FanType::BigFourWinds => {
            lemma_set_bit_all(0u128, 38u128);
            lemma_set_bit_all((0u128 | (1u128 << 38u128)), 49u128);
            lemma_set_bit_all(((0u128 | (1u128 << 38u128)) | (1u128 << 49u128)), 60u128);
            lemma_set_bit_all((((0u128 | (1u128 << 38u128)) | (1u128 << 49u128)) | (1u128 << 60u128)), 61u128);
            lemma_set_bit_all(((((0u128 | (1u128 << 38u128)) | (1u128 << 49u128)) | (1u128 << 60u128)) | (1u128 << 61u128)), 73u128);
            lemma_set_bit_all((((((0u128 | (1u128 << 38u128)) | (1u128 << 49u128)) | (1u128 << 60u128)) | (1u128 << 61u128)) | (1u128 << 73u128)), 9u128);
        },
        FanType::BigThreeDragons => {
            lemma_set_bit_all(0u128, 54u128);
            lemma_set_bit_all((0u128 | (1u128 << 54u128)), 59u128);
        },
        FanType::AllGreen => {
        },
        FanType::NineGates => {
            lemma_set_bit_all(0u128, 22u128);
            lemma_set_bit_all((0u128 | (1u128 << 22u128)), 62u128);
            lemma_set_bit_all(((0u128 | (1u128 << 22u128)) | (1u128 << 62u128)), 73u128);
        },
        FanType::FourKongs => {
            lemma_set_bit_all(0u128, 79u128);
        },
        FanType::SevenShiftedPairs => {
            lemma_set_bit_all(0u128, 22u128);
            lemma_set_bit_all((0u128 | (1u128 << 22u128)), 62u128);
            lemma_set_bit_all(((0u128 | (1u128 << 22u128)) | (1u128 << 62u128)), 79u128);
        },
        FanType::ThirteenOrphans => {
            lemma_set_bit_all(0u128, 52u128);
            lemma_set_bit_all((0u128 | (1u128 << 52u128)), 62u128);
            lemma_set_bit_all(((0u128 | (1u128 << 52u128)) | (1u128 << 62u128)), 79u128);
        },
        FanType::AllTerminals => {
            lemma_set_bit_all(0u128, 49u128);
            lemma_set_bit_all((0u128 | (1u128 << 49u128)), 55u128);
            lemma_set_bit_all(((0u128 | (1u128 << 49u128)) | (1u128 << 55u128)), 73u128);
            lemma_set_bit_all((((0u128 | (1u128 << 49u128)) | (1u128 << 55u128)) | (1u128 << 73u128)), 76u128);
        },
        FanType::LittleFourWinds => {
            lemma_set_bit_all(0u128, 38u128);
            lemma_set_bit_all((0u128 | (1u128 << 38u128)), 73u128);
            lemma_set_bit_all(((0u128 | (1u128 << 38u128)) | (1u128 << 73u128)), 1u128);
        },
        FanType::LittleThreeDragons => {
            lemma_set_bit_all(0u128, 59u128);
            lemma_set_bit_all((0u128 | (1u128 << 59u128)), 54u128);
        },
        FanType::AllHonors => {
            lemma_set_bit_all(0u128, 49u128);
            lemma_set_bit_all((0u128 | (1u128 << 49u128)), 55u128);
            lemma_set_bit_all(((0u128 | (1u128 << 49u128)) | (1u128 << 55u128)), 73u128);
            lemma_set_bit_all((((0u128 | (1u128 << 49u128)) | (1u128 << 55u128)) | (1u128 << 73u128)), 18u128);
        },
        FanType::FourConcealedPungs => {
            lemma_set_bit_all(0u128, 49u128);
            lemma_set_bit_all((0u128 | (1u128 << 49u128)), 62u128);
        },
        FanType::PureTerminalChows => {
            lemma_set_bit_all(0u128, 19u128);
            lemma_set_bit_all((0u128 | (1u128 << 19u128)), 22u128);
            lemma_set_bit_all(((0u128 | (1u128 << 19u128)) | (1u128 << 22u128)), 63u128);
            lemma_set_bit_all((((0u128 | (1u128 << 19u128)) | (1u128 << 22u128)) | (1u128 << 63u128)), 69u128);
            lemma_set_bit_all(((((0u128 | (1u128 << 19u128)) | (1u128 << 22u128)) | (1u128 << 63u128)) | (1u128 << 69u128)), 72u128);
        },
        FanType::QuadrupleChow => {
            lemma_set_bit_all(0u128, 24u128);
            lemma_set_bit_all((0u128 | (1u128 << 24u128)), 64u128);
            lemma_set_bit_all(((0u128 | (1u128 << 24u128)) | (1u128 << 64u128)), 69u128);
        },
        FanType::FourPureShiftedPungs => {
            lemma_set_bit_all(0u128, 23u128);
            lemma_set_bit_all((0u128 | (1u128 << 23u128)), 49u128);
        },
        FanType::FourShiftedChows => {
            lemma_set_bit_all(0u128, 71u128);
        },
        FanType::ThreeKongs => {
        },
        FanType::AllTerminalsAndHonors => {
            lemma_set_bit_all(0u128, 49u128);
            lemma_set_bit_all((0u128 | (1u128 << 49u128)), 73u128);
            lemma_set_bit_all(((0u128 | (1u128 << 49u128)) | (1u128 << 73u128)), 11u128);
        },
        FanType::SevenPairs => {
            lemma_set_bit_all(0u128, 62u128);
            lemma_set_bit_all((0u128 | (1u128 << 62u128)), 79u128);
        },
        FanType::GreaterHonorsAndKnittedTiles => {
        },
        FanType::AllEvenPungs => {
            lemma_set_bit_all(0u128, 49u128);
            lemma_set_bit_all((0u128 | (1u128 << 49u128)), 68u128);
        },
        FanType::FullFlush => {
            lemma_set_bit_all(0u128, 76u128);
        },
        FanType::PureTripleChow => {
            lemma_set_bit_all(0u128, 24u128);
            lemma_set_bit_all((0u128 | (1u128 << 24u128)), 69u128);
        },
        FanType::PureShiftedPungs => {
            lemma_set_bit_all(0u128, 23u128);
        },
        FanType::UpperTiles => {
            lemma_set_bit_all(0u128, 76u128);
        },
        FanType::MiddleTiles => {
            lemma_set_bit_all(0u128, 76u128);
            lemma_set_bit_all((0u128 | (1u128 << 76u128)), 68u128);
        },
        FanType::LowerTiles => {
            lemma_set_bit_all(0u128, 76u128);
        },
        FanType::PureStraight => {
        },
        FanType::ThreeSuitedTerminalChows => {
            lemma_set_bit_all(0u128, 69u128);
            lemma_set_bit_all((0u128 | (1u128 << 69u128)), 72u128);
            lemma_set_bit_all(((0u128 | (1u128 << 69u128)) | (1u128 << 72u128)), 76u128);
            lemma_set_bit_all((((0u128 | (1u128 << 69u128)) | (1u128 << 72u128)) | (1u128 << 76u128)), 63u128);
        },
        FanType::PureShiftedChows => {
        },
        FanType::AllFives => {
            lemma_set_bit_all(0u128, 68u128);
        },
        FanType::TriplePung => {
        },
        FanType::ThreeConcealedPungs => {
        },
        FanType::LesserHonorsAndKnittedTiles => {
            lemma_set_bit_all(0u128, 52u128);
            lemma_set_bit_all((0u128 | (1u128 << 52u128)), 62u128);
        },
        FanType::KnittedStraight => {
        },
        FanType::UpperFour => {
            lemma_set_bit_all(0u128, 76u128);
        },
        FanType::LowerFour => {
            lemma_set_bit_all(0u128, 76u128);
        },
        FanType::BigThreeWinds => {
        },
        FanType::MixedStraight => {
        },
        FanType::ReversibleTiles => {
            lemma_set_bit_all(0u128, 75u128);
        },
        FanType::MixedTripleChow => {
        },
        FanType::MixedShiftedPungs => {
        },
        FanType::ChickenHand => {
        },
        FanType::LastTileDraw => {
        },
        FanType::LastTileClaim => {
        },
        FanType::OutWithReplacementTile => {
        },
        FanType::RobbingTheKong => {
        },
        FanType::TwoConcealedKongs => {
        },
        FanType::AllPungs => {
        },
        FanType::HalfFlush => {
        },
        FanType::MixedShiftedChows => {
        },
        FanType::AllTypes => {
        },
        FanType::MeldedHand => {
            lemma_set_bit_all(0u128, 79u128);
        },
        FanType::TwoDragonPungs => {
        },
        FanType::OutsideHand => {
        },
        FanType::FullyConcealed => {
        },
        FanType::TwoMeldedKongs => {
        },
        FanType::LastTile => {
        },
        FanType::DragonPung => {
        },
        FanType::PrevalentWind => {
        },
        FanType::SeatWind => {
        },
        FanType::ConcealedHand => {
        },
        FanType::AllChows => {
        },
        FanType::TileHog => {
        },
        FanType::DoublePung => {
        },
        FanType::TwoConcealedPungs => {
        },
        FanType::ConcealedKong => {
        },
        FanType::AllSimples => {
        },
        FanType::PureDoubleChow => {
        },
        FanType::MixedDoubleChow => {
        },
        FanType::ShortStraight => {
        },
        FanType::TwoTerminalChows => {
        },
        FanType::PungOfTerminalsOrHonors => {
        },
        FanType::MeldedKong => {
        },
        FanType::OneVoidedSuit => {
        },
        FanType::NoHonors => {
        },
        FanType::EdgeWait => {
        },
        FanType::ClosedWait => {
        },
        FanType::SingleWait => {
        },
        FanType::SelfDrawn => {
        },
        FanType::FlowerTiles => {
        },
    }
}

} // verus!
