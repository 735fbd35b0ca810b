//! The special hands: seven pairs and thirteen orphans.

use vstd::prelude::*;

use crate::solver::decomposition::Decomposition;
use crate::structs::tiles::{all_tiles, lemma_tile_id_roundtrip, tile_of_dense};
use crate::structs::{BitTileCounts, Pair, Tile};

verus! {

// ── Seven pairs ──────────────────────────────────────────────────

/// Every tile among the first `k` is held 0, 2 or 4 times.
pub open spec fn pairs_only_upto(c: BitTileCounts, k: int) -> bool {
    forall|j: int| 0 <= j < k ==> {
        let n = c.spec_count(#[trigger] tile_of_dense(j));
        n == 0 || n == 2 || n == 4
    }
}

/// The pairs among the first `k` tiles, a tile held four times giving two.
pub open spec fn pair_tiles_upto(c: BitTileCounts, k: int) -> Seq<Tile>
    decreases k,
{
    if k <= 0 {
        Seq::empty()
    } else {
        let t = tile_of_dense(k - 1);
        let n = c.spec_count(t);
        pair_tiles_upto(c, k - 1) + if n == 2 {
            seq![t]
        } else if n == 4 {
            seq![t, t]
        } else {
            Seq::empty()
        }
    }
}

/// The counts make seven pairs: every tile held 0, 2 or 4 times, seven
/// pairs in all.
pub open spec fn is_seven_pairs(c: BitTileCounts) -> bool {
    pairs_only_upto(c, 34) && pair_tiles_upto(c, 34).len() == 7
}

/// More tiles give no fewer pairs.
proof fn lemma_pair_tiles_mono(c: BitTileCounts, a: int, b: int)
    requires
        0 <= a <= b,
    ensures
        pair_tiles_upto(c, a).len() <= pair_tiles_upto(c, b).len(),
    decreases b - a,
{
    if a < b {
        lemma_pair_tiles_mono(c, a, b - 1);
    }
}

/// Detects a seven-pairs hand. A tile held four times counts as two pairs.
#[verifier::rlimit(40)]
#[verifier::spinoff_prover]
pub fn detect_seven_pairs(counts: &BitTileCounts) -> (r: Option<Decomposition>)
    requires
        counts.wf(),
    ensures
        r is Some <==> is_seven_pairs(*counts),
        match r {
            Some(Decomposition::SevenPairs { pairs }) => forall|i: int|
                0 <= i < 7 ==> (#[trigger] pairs@[i]).spec_tile() == pair_tiles_upto(*counts, 34)[i],
            Some(_) => false,
            None => true,
        },
{
    let all = Tile::iter();
    let mut pairs: Vec<Pair> = Vec::new();
    let mut i: usize = 0;
    while i < all.len()
        invariant
            all@ == all_tiles(),
            counts.wf(),
            i <= 42,
            i <= 34 ==> pairs_only_upto(*counts, i as int),
            i <= 34 ==> pairs@.len() == pair_tiles_upto(*counts, i as int).len(),
            i <= 34 ==> forall|j: int| 0 <= j < pairs@.len() ==> (#[trigger] pairs@[j]).spec_tile()
                == pair_tiles_upto(*counts, i as int)[j],
            i > 34 ==> pairs_only_upto(*counts, 34) && pairs@.len() == pair_tiles_upto(*counts, 34).len()
                && forall|j: int| 0 <= j < pairs@.len() ==> (#[trigger] pairs@[j]).spec_tile()
                == pair_tiles_upto(*counts, 34)[j],
            pairs@.len() <= 7,
        decreases all@.len() - i,
    {
        let tile = all[i];
        proof {
            lemma_tile_id_roundtrip(tile);
            assert(tile == tile_of_dense(i as int));
        }
        if tile.is_flower() {
            i = i + 1;
            continue;
        }
        proof {
            assert(i < 34);
        }
        let ghost before = pairs@;
        let c = counts.count(tile);
        if c == 0 {
        } else if c == 2 {
            if pairs.len() >= 7 {
                proof {
                    lemma_pair_tiles_mono(*counts, i as int + 1, 34);
                }
                return None;
            }
            pairs.push(Pair::new(tile));
        } else if c == 4 {
            if pairs.len() >= 6 {
                proof {
                    lemma_pair_tiles_mono(*counts, i as int + 1, 34);
                }
                return None;
            }
            pairs.push(Pair::new(tile));
            pairs.push(Pair::new(tile));
        } else {
            return None;
        }
        proof {
            let next = pair_tiles_upto(*counts, i as int + 1);
            assert forall|j: int| 0 <= j < pairs@.len() implies (#[trigger] pairs@[j]).spec_tile() == next[j] by {
                if j < before.len() {
                    assert(pairs@[j] == before[j]);
                }
            }
        }
        i = i + 1;
    }
    if pairs.len() != 7 {
        return None;
    }
    let arr = [pairs[0], pairs[1], pairs[2], pairs[3], pairs[4], pairs[5], pairs[6]];
    proof {
        assert forall|j: int| 0 <= j < 7 implies (#[trigger] arr@[j]).spec_tile() == pair_tiles_upto(*counts, 34)[j] by {
            assert(arr@[j] == pairs@[j]);
        }
    }
    Some(Decomposition::SevenPairs { pairs: arr })
}

// ── Thirteen orphans ─────────────────────────────────────────────

/// The thirteen terminals and honors.
pub open spec fn orphans() -> Seq<Tile> {
    seq![
        Tile::Character1,
        Tile::Character9,
        Tile::Dot1,
        Tile::Dot9,
        Tile::Bamboo1,
        Tile::Bamboo9,
        Tile::East,
        Tile::South,
        Tile::West,
        Tile::North,
        Tile::Red,
        Tile::Green,
        Tile::White,
    ]
}

/// The number of the first `k` orphans that are held twice.
pub open spec fn orphan_pairs_upto(c: BitTileCounts, k: int) -> nat
    decreases k,
{
    if k <= 0 {
        0
    } else {
        orphan_pairs_upto(c, k - 1) + if c.spec_count(orphans()[k - 1]) == 2 {
            1nat
        } else {
            0nat
        }
    }
}

/// The counts make thirteen orphans: each orphan held once or twice, one of
/// them twice, fourteen tiles in all.
pub open spec fn is_thirteen_orphans(c: BitTileCounts) -> bool {
    &&& forall|i: int| 0 <= i < 13 ==> {
        let n = c.spec_count(#[trigger] orphans()[i]);
        n == 1 || n == 2
    }
    &&& orphan_pairs_upto(c, 13) == 1
    &&& c.spec_total() == 14
}

proof fn lemma_orphan_pairs_mono(c: BitTileCounts, a: int, b: int)
    requires
        0 <= a <= b,
    ensures
        orphan_pairs_upto(c, a) <= orphan_pairs_upto(c, b),
    decreases b - a,
{
    if a < b {
        lemma_orphan_pairs_mono(c, a, b - 1);
    }
}

/// Two orphans held twice among the first `k` make two pairs.
proof fn lemma_orphan_pairs_two(c: BitTileCounts, k: int, a: int, b: int)
    requires
        0 <= a < b < k <= 13,
        c.spec_count(orphans()[a]) == 2,
        c.spec_count(orphans()[b]) == 2,
    ensures
        orphan_pairs_upto(c, k) >= 2,
    decreases k,
{
    if b == k - 1 {
        lemma_orphan_pairs_mono(c, a + 1, k - 1);
    } else {
        lemma_orphan_pairs_two(c, k - 1, a, b);
    }
}

/// In thirteen orphans one orphan only is held twice.
pub proof fn lemma_thirteen_pair_unique(c: BitTileCounts, p: Tile, q: Tile)
    requires
        is_thirteen_orphans(c),
        c.spec_count(p) == 2,
        c.spec_count(q) == 2,
        orphans().contains(p),
        orphans().contains(q),
    ensures
        p == q,
{
    let a = choose|a: int| 0 <= a < orphans().len() && orphans()[a] == p;
    let b = choose|b: int| 0 <= b < orphans().len() && orphans()[b] == q;
    if a < b {
        lemma_orphan_pairs_two(c, 13, a, b);
    } else if b < a {
        lemma_orphan_pairs_two(c, 13, b, a);
    }
}

/// Detects a thirteen-orphans hand.
pub fn detect_thirteen_orphans(counts: &BitTileCounts) -> (r: Option<Decomposition>)
    requires
        counts.wf(),
    ensures
        r is Some <==> is_thirteen_orphans(*counts),
        match r {
            Some(Decomposition::ThirteenOrphans { pair }) => counts.spec_count(pair.spec_tile()) == 2
                && orphans().contains(pair.spec_tile()),
            Some(_) => false,
            None => true,
        },
{
    let orph = vec![
        Tile::Character1,
        Tile::Character9,
        Tile::Dot1,
        Tile::Dot9,
        Tile::Bamboo1,
        Tile::Bamboo9,
        Tile::East,
        Tile::South,
        Tile::West,
        Tile::North,
        Tile::Red,
        Tile::Green,
        Tile::White,
    ];
    assert(orph@ == orphans());
    let mut pair_tile: Option<Tile> = None;
    let mut i: usize = 0;
    while i < orph.len()
        invariant
            orph@ == orphans(),
            counts.wf(),
            i <= 13,
            forall|j: int| 0 <= j < i ==> {
                let n = counts.spec_count(#[trigger] orphans()[j]);
                n == 1 || n == 2
            },
            pair_tile == None::<Tile> <==> orphan_pairs_upto(*counts, i as int) == 0,
            orphan_pairs_upto(*counts, i as int) <= 1,
            pair_tile matches Some(p) ==> counts.spec_count(p) == 2 && orphans().contains(p),
        decreases 13 - i,
    {
        let t = orph[i];
        let c = counts.count(t);
        if c == 1 {
        } else if c == 2 {
            if pair_tile.is_some() {
                proof {
                    lemma_orphan_pairs_mono(*counts, i as int + 1, 13);
                }
                return None;
            }
            pair_tile = Some(t);
        } else {
            return None;
        }
        i = i + 1;
    }
    let p = match pair_tile {
        Some(p) => p,
        None => return None,
    };
    if counts.total_count() != 14 {
        return None;
    }
    proof {
        lemma_tile_id_roundtrip(p);
    }
    Some(Decomposition::ThirteenOrphans { pair: Pair::new(p) })
}

} // verus!
