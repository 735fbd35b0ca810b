//! A small set of fans, with their exclusions, for the first search kernel.

use vstd::prelude::*;

use crate::solver::types::{has_bit, lemma_no_bits, lemma_set_bit};

verus! {

/// Fans of the first search kernel; the discriminant of each is its bit in
/// an exclusion mask.
#[derive(Clone, Copy, Debug, PartialEq, Eq, Structural, Hash)]
pub enum FanType {
    BigFourWinds,
    LittleFourWinds,
    AllHonors,
    AllTerminalsAndHonors,
    HalfFlush,
    AllPungs,
}

impl FanType {
    pub open spec fn spec_points(self) -> u8 {
        match self {
            FanType::BigFourWinds => 88,
            FanType::LittleFourWinds | FanType::AllHonors => 64,
            FanType::AllTerminalsAndHonors => 32,
            FanType::HalfFlush | FanType::AllPungs => 6,
        }
    }

    /// The bit of the fan: 1 for Big Four Winds up to 6 for All Pungs.
    pub open spec fn spec_bit(self) -> int {
        match self {
            FanType::BigFourWinds => 1,
            FanType::LittleFourWinds => 2,
            FanType::AllHonors => 3,
            FanType::AllTerminalsAndHonors => 4,
            FanType::HalfFlush => 5,
            FanType::AllPungs => 6,
        }
    }

    pub open spec fn spec_name(self) -> &'static str {
        match self {
            FanType::BigFourWinds => "Big Four Winds",
            FanType::LittleFourWinds => "Little Four Winds",
            FanType::AllHonors => "All Honors",
            FanType::AllTerminalsAndHonors => "All Terminals and Honors",
            FanType::HalfFlush => "Half Flush",
            FanType::AllPungs => "All Pungs",
        }
    }

    /// Base point value for this fan type.
    pub fn points(self) -> (r: u8)
        ensures
            r == self.spec_points(),
    {
        match self {
            FanType::BigFourWinds => 88,
            FanType::LittleFourWinds | FanType::AllHonors => 64,
            FanType::AllTerminalsAndHonors => 32,
            FanType::HalfFlush | FanType::AllPungs => 6,
        }
    }

    /// Human-readable display name.
    pub fn name(self) -> (r: &'static str)
        ensures
            r == self.spec_name(),
    {
        match self {
            FanType::BigFourWinds => "Big Four Winds",
            FanType::LittleFourWinds => "Little Four Winds",
            FanType::AllHonors => "All Honors",
            FanType::AllTerminalsAndHonors => "All Terminals and Honors",
            FanType::HalfFlush => "Half Flush",
            FanType::AllPungs => "All Pungs",
        }
    }

    /// Bit index of the fan within a `FanExclusionSet`.
    pub fn bit_index(self) -> (r: usize)
        ensures
            r == self.spec_bit(),
            1 <= r <= 6,
    {
        match self {
            FanType::BigFourWinds => 1,
            FanType::LittleFourWinds => 2,
            FanType::AllHonors => 3,
            FanType::AllTerminalsAndHonors => 4,
            FanType::HalfFlush => 5,
            FanType::AllPungs => 6,
        }
    }

    /// The fans this fan excludes: Big Four Winds excludes All Pungs and
    /// Little Four Winds, which excludes it back; All Honors and All
    /// Terminals and Honors exclude each other.
    pub open spec fn excludes(self, other: FanType) -> bool {
        match self {
            FanType::BigFourWinds => other == FanType::AllPungs || other == FanType::LittleFourWinds,
            FanType::LittleFourWinds => other == FanType::BigFourWinds,
            FanType::AllHonors => other == FanType::AllTerminalsAndHonors,
            FanType::AllTerminalsAndHonors => other == FanType::AllHonors,
            FanType::HalfFlush | FanType::AllPungs => false,
        }
    }

    /// The exclusion mask of the fan, as a number: one bit for each fan it
    /// excludes.
    pub open spec fn exclusion_bits(self) -> u128 {
        match self {
            FanType::BigFourWinds => (0u128 | (1u128 << 6u128)) | (1u128 << 2u128),
            FanType::LittleFourWinds => 0u128 | (1u128 << 1u128),
            FanType::AllHonors => 0u128 | (1u128 << 4u128),
            FanType::AllTerminalsAndHonors => 0u128 | (1u128 << 3u128),
            FanType::HalfFlush | FanType::AllPungs => 0u128,
        }
    }
}

/// A set of fans, held as a bit mask over their bits.
#[derive(Clone, Copy, Debug, PartialEq, Eq, Structural, Default)]
pub struct FanExclusionSet(pub u128);

impl FanExclusionSet {
    /// `fan` is in the set.
    pub fn is_set(self, fan: FanType) -> (r: bool)
        ensures
            r == has_bit(self.0, fan.spec_bit()),
    {
        let b = fan.bit_index() as u128;
        (self.0 >> b) & 1 == 1
    }

    /// Adds `fan`.
    pub fn set(&mut self, fan: FanType)
        ensures
            forall|i: int| 0 <= i < 128 ==> (has_bit(final(self).0, i) <==> (has_bit(old(self).0, i)
                || i == fan.spec_bit())),
            final(self).0 == old(self).0 | (1u128 << fan.spec_bit() as u128),
    {
        let old_mask = self.0;
        let b = fan.bit_index() as u128;
        self.0 = old_mask | (1u128 << b);
        proof {
            assert forall|i: int| 0 <= i < 128 implies (has_bit(self.0, i) <==> (has_bit(old_mask, i)
                || i == fan.spec_bit())) by {
                lemma_set_bit(old_mask, b, i as u128);
            }
        }
    }

    /// The exclusion mask of a fan: the fans it excludes.
    pub fn for_fan(fan: FanType) -> (r: Self)
        ensures
            forall|g: FanType| #[trigger] has_bit(r.0, g.spec_bit()) <==> fan.excludes(g),
            r.0 == fan.exclusion_bits(),
    {
        let mut s = Self(0);
        proof {
            lemma_no_bits();
        }
        match fan {
            FanType::BigFourWinds => {
                s.set(FanType::AllPungs);
                s.set(FanType::LittleFourWinds);
            },
            FanType::LittleFourWinds => {
                s.set(FanType::BigFourWinds);
            },
            FanType::AllHonors => {
                s.set(FanType::AllTerminalsAndHonors);
            },
            FanType::AllTerminalsAndHonors => {
                s.set(FanType::AllHonors);
            },
            FanType::HalfFlush => {},
            FanType::AllPungs => {},
        }
        s
    }
}

/// A candidate fan instance extracted from a decomposition.
#[derive(Clone, Copy, Debug)]
pub struct FanCandidate {
    pub fan_type: FanType,
    /// Which of the four sets this fan uses, bit 0 for the first.
    pub used_set_mask: u64,
    /// Whether this fan's condition involves the pair.
    pub uses_pair: bool,
    pub score: u8,
    pub excludes_mask: FanExclusionSet,
}

/// A fan instance selected in the final result.
#[derive(Clone, Copy, Debug)]
pub struct FanInstance {
    pub fan_type: FanType,
    pub used_set_mask: u64,
    pub uses_pair: bool,
    pub score: u8,
}

/// Result of a fan search.
#[derive(Clone, Debug)]
pub struct FanSolveResult {
    pub total_score: u16,
    pub fans: Vec<FanInstance>,
}

impl Default for FanSolveResult {
    fn default() -> (r: Self)
        ensures
            r.total_score == 0,
            r.fans@.len() == 0,
    {
        FanSolveResult { total_score: 0, fans: Vec::new() }
    }
}


/// The fan of the full table with the same name.
pub open spec fn full_fan(f: FanType) -> crate::solver::types::FanType {
    match f {
        FanType::BigFourWinds => crate::solver::types::FanType::BigFourWinds,
        FanType::LittleFourWinds => crate::solver::types::FanType::LittleFourWinds,
        FanType::AllHonors => crate::solver::types::FanType::AllHonors,
        FanType::AllTerminalsAndHonors => crate::solver::types::FanType::AllTerminalsAndHonors,
        FanType::HalfFlush => crate::solver::types::FanType::HalfFlush,
        FanType::AllPungs => crate::solver::types::FanType::AllPungs,
    }
}

/// Each fan of this table is worth what the fan of the same name in the full
/// table is worth, has the same name, and excludes only fans that the full
/// table excludes for it.
pub proof fn lemma_agrees_with_full_table(f: FanType, g: FanType)
    ensures
        f.spec_points() == full_fan(f).spec_points(),
        f.spec_name() == full_fan(f).spec_name(),
        f.excludes(g) ==> full_fan(f).excludes(full_fan(g)),
        f != g ==> full_fan(f) != full_fan(g),
{
}

} // verus!
