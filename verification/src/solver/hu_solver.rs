//! Deciding whether concealed tiles form a winning hand, and listing the
//! ways they do.

use vstd::prelude::*;

use crate::solver::completeness::{lemma_hand_parts, sets_of_row};
use crate::solver::decompose_standard::{
    all_found, all_sound, combine_suits, combine_suits_with, copy_melds, counts_ok, decompose_all_suits,
    found_in, found_std, hand_sound, honors_sound, is_combination, lemma_emit_found, lemma_emit_sound,
    lemma_found_std_grow, lemma_honor_pair_suits, lemma_join_found, lemma_join_sound, lemma_pair_here,
    lemma_pair_shift_listed, lemma_pair_shifts, lemma_row_ok_without, lemma_tile_at, listed_before,
    pair_shifts_upto, row_ok, row_sound, ConcealedDecompStd, all_distinct, std_distinct, suits_apart,
    lemma_all_sound_in_row, lemma_pair_shifts_increase, lemma_prefix_cancel, lemma_emit_distinct,
    all_sorted, honors_sorted, suit_lists_sorted, keys_sorted, listings_sorted, lemma_listings_extend,
    lemma_honors_then_suits,
};
pub use crate::solver::decompose_standard::{pair_positions_in_row, parse_honors, HonorResult};
use crate::solver::decomposition::ConcealedDecomp;
use crate::structs::hand::{tile_nib, tile_row};
use crate::structs::tiles::{is_tile_id, lemma_tile_id_roundtrip};
use crate::structs::{BitTileCounts, Meld, Tile};

verus! {

/// One decomposition of a single suit row into at most four sets.
#[derive(Clone, Copy)]
pub struct SuitDecomp {
    pub melds: [Option<Meld>; 4],
    pub len: u8,
}

impl SuitDecomp {
    /// The first `len` slots hold sets, the others none.
    pub open spec fn wf(self) -> bool {
        &&& self.len <= 4
        &&& forall|i: int| 0 <= i < 4 ==> ((#[trigger] self.melds@[i]) is Some <==> i < self.len)
    }

    /// The sets held, in order.
    pub open spec fn view_melds(self) -> Seq<Meld> {
        Seq::new(self.len as nat, |i: int| self.melds@[i]->0)
    }

    pub fn new() -> (r: Self)
        ensures
            r.wf(),
            r.view_melds().len() == 0,
    {
        SuitDecomp { melds: [None, None, None, None], len: 0 }
    }

    /// Adds a set at the end; there must be room.
    pub fn push(&mut self, m: Meld)
        requires
            old(self).wf(),
            old(self).len < 4,
        ensures
            final(self).wf(),
            final(self).len == old(self).len + 1,
            final(self).view_melds() == old(self).view_melds().push(m),
    {
        let ghost before = self.view_melds();
        let i = self.len as usize;
        self.melds[i] = Some(m);
        self.len = self.len + 1;
        assert(self.view_melds() =~= before.push(m));
    }

    /// Removes the last set; there must be one.
    pub fn pop(&mut self)
        requires
            old(self).wf(),
            old(self).len > 0,
        ensures
            final(self).wf(),
            final(self).view_melds() == old(self).view_melds().drop_last(),
    {
        let ghost before = self.view_melds();
        self.len = self.len - 1;
        let i = self.len as usize;
        self.melds[i] = None;
        assert(self.view_melds() =~= before.drop_last());
    }

    pub fn len(&self) -> (r: usize)
        ensures
            r == self.len,
    {
        self.len as usize
    }

    /// Appends the sets to `target`.
    pub fn extend_vec(&self, target: &mut Vec<Meld>)
        requires
            self.wf(),
        ensures
            final(target)@ == old(target)@ + self.view_melds(),
    {
        let ghost start = target@;
        let n = self.len as usize;
        let mut i: usize = 0;
        while i < n
            invariant
                self.wf(),
                n == self.len,
                i <= n,
                target@ == start + self.view_melds().subrange(0, i as int),
            decreases n - i,
        {
            match self.melds[i] {
                Some(m) => target.push(m),
                None => {
                    assert(false);
                },
            }
            assert(self.view_melds().subrange(0, i as int + 1) == self.view_melds().subrange(0, i as int).push(
                self.view_melds()[i as int],
            ));
            i = i + 1;
        }
        assert(self.view_melds().subrange(0, n as int) == self.view_melds());
    }

    /// Appends the sets to `target`, which must have room for them.
    pub fn copy_into(&self, target: &mut SuitDecomp)
        requires
            self.wf(),
            old(target).wf(),
            old(target).len + self.len <= 4,
        ensures
            final(target).wf(),
            final(target).view_melds() == old(target).view_melds() + self.view_melds(),
    {
        let ghost start = target.view_melds();
        let ghost start_len = target.len;
        let n = self.len as usize;
        let mut i: usize = 0;
        while i < n
            invariant
                self.wf(),
                n == self.len,
                i <= n,
                target.wf(),
                start_len + n <= 4,
                target.len == start_len + i,
                target.view_melds() == start + self.view_melds().subrange(0, i as int),
            decreases n - i,
        {
            match self.melds[i] {
                Some(m) => target.push(m),
                None => {
                    assert(false);
                },
            }
            assert(self.view_melds().subrange(0, i as int + 1) == self.view_melds().subrange(0, i as int).push(
                self.view_melds()[i as int],
            ));
            i = i + 1;
        }
        assert(self.view_melds().subrange(0, n as int) == self.view_melds());
    }
}

/// Every way to split a suit row into concealed pungs and chows, as
/// decompositions of at most four sets, its sets in some order; a split into
/// more sets is left out.
pub fn decompose_suit(row: u64, row_idx: usize) -> (r: Vec<SuitDecomp>)
    requires
        row_idx < 3,
        row_ok(row, row_idx as int),
    ensures
        forall|i: int| 0 <= i < r@.len() ==> (#[trigger] r@[i]).wf() && row_sound(row, row_idx as int, r@[i].view_melds()),
        forall|d: Seq<Meld>|
            #[trigger] row_sound(row, row_idx as int, d) && d.len() <= 4 ==> exists|i: int|
                0 <= i < r@.len() && #[trigger] r@[i].view_melds().to_multiset() == d.to_multiset(),
{
    let splits = crate::solver::decompose_standard::decompose_suit(row, row_idx);
    let mut out: Vec<SuitDecomp> = Vec::new();
    let mut i: usize = 0;
    while i < splits.len()
        invariant
            i <= splits@.len(),
            forall|k: int| 0 <= k < splits@.len() ==> row_sound(row, row_idx as int, #[trigger] splits@[k]@),
            forall|k: int| 0 <= k < out@.len() ==> (#[trigger] out@[k]).wf() && row_sound(row, row_idx as int, out@[k].view_melds()),
            forall|k: int|
                0 <= k < i && (#[trigger] splits@[k])@.len() <= 4 ==> exists|j: int|
                    0 <= j < out@.len() && #[trigger] out@[j].view_melds() == splits@[k]@,
        decreases splits@.len() - i,
    {
        let split = &splits[i];
        if split.len() <= 4 {
            let mut d = SuitDecomp::new();
            let mut k: usize = 0;
            while k < split.len()
                invariant
                    k <= split@.len(),
                    split@.len() <= 4,
                    d.wf(),
                    d.len as int == k as int,
                    d.view_melds() == split@.subrange(0, k as int),
                decreases split@.len() - k,
            {
                d.push(split[k]);
                k = k + 1;
            }
            assert(d.view_melds() == split@);
            let ghost before = out@;
            out.push(d);
            proof {
                assert forall|k: int|
                    0 <= k < i + 1 && (#[trigger] splits@[k])@.len() <= 4 implies exists|j: int|
                        0 <= j < out@.len() && #[trigger] out@[j].view_melds() == splits@[k]@ by {
                    if k < i {
                        let j = choose|j: int| 0 <= j < before.len() && #[trigger] before[j].view_melds() == splits@[k]@;
                        assert(out@[j] == before[j]);
                    } else {
                        assert(out@[before.len() as int].view_melds() == splits@[k]@);
                    }
                }
            }
        }
        i = i + 1;
    }
    proof {
        assert forall|d: Seq<Meld>|
            #[trigger] row_sound(row, row_idx as int, d) && d.len() <= 4 implies exists|i: int|
                0 <= i < out@.len() && #[trigger] out@[i].view_melds().to_multiset() == d.to_multiset() by {
            broadcast use vstd::seq_lib::group_to_multiset_ensures;

            assert(found_in(splits@, d));
            let k = choose|k: int| 0 <= k < splits@.len() && #[trigger] splits@[k]@.to_multiset() == d.to_multiset();
            assert(splits@[k]@.len() == splits@[k]@.to_multiset().len());
            assert(d.len() == d.to_multiset().len());
            let j = choose|j: int| 0 <= j < out@.len() && #[trigger] out@[j].view_melds() == splits@[k]@;
            assert(out@[j].view_melds().to_multiset() == d.to_multiset());
        }
    }
    out
}

/// The decompositions, each as its pair and its sets.
pub open spec fn as_std(out: Seq<ConcealedDecomp>) -> Seq<ConcealedDecompStd> {
    out.map_values(|d: ConcealedDecomp| ConcealedDecompStd { pair_tile: d.pair_tile, melds: d.sets })
}

/// Some decomposition in `out` has the pair and holds the sets, in some
/// order.
pub open spec fn found_hu(out: Seq<ConcealedDecomp>, pair: Tile, melds: Seq<Meld>) -> bool {
    exists|i: int|
        0 <= i < out.len() && out[i].pair_tile == pair && #[trigger] out[i].sets@.to_multiset()
            == melds.to_multiset()
}

/// Found among the decompositions, found among them as pairs and sets.
proof fn lemma_found_as_std(out: Seq<ConcealedDecomp>, pair: Tile, melds: Seq<Meld>)
    requires
        found_std(as_std(out), pair, melds),
    ensures
        found_hu(out, pair, melds),
{
    let i = choose|i: int|
        0 <= i < as_std(out).len() && as_std(out)[i].pair_tile == pair && #[trigger] as_std(out)[i].melds@.to_multiset()
            == melds.to_multiset();
    assert(as_std(out)[i].melds@ == out[i].sets@);
}

/// Finds whether concealed tiles form a winning hand, and how.
pub struct HuSolver;

impl HuSolver {
    /// The tiles form a decomposition into concealed sets and a pair.
    pub fn is_hu(counts: &BitTileCounts) -> (r: bool)
        requires
            counts_ok(*counts),
        ensures
            r <==> exists|pair: Tile, sets: Seq<Meld>| #[trigger] hand_sound(*counts, pair, sets),
    {
        let ds = Self::find_all_decompositions(counts);
        if ds.len() > 0 {
            proof {
                assert(hand_sound(*counts, ds@[0].pair_tile, ds@[0].sets@));
            }
            true
        } else {
            proof {
                assert forall|pair: Tile, sets: Seq<Meld>| !hand_sound(*counts, pair, sets) by {
                    if hand_sound(*counts, pair, sets) {
                        assert(found_hu(ds@, pair, sets));
                    }
                }
            }
            false
        }
    }

    /// Every decomposition of the tiles into concealed pungs, chows and a
    /// pair: honor pungs first, then the sets of each suit in order, each
    /// part by rank; no listing comes twice.
    #[verifier::spinoff_prover]
    pub fn find_all_decompositions(counts: &BitTileCounts) -> (r: Vec<ConcealedDecomp>)
        requires
            counts_ok(*counts),
        ensures
            forall|i: int| 0 <= i < r@.len() ==> hand_sound(*counts, (#[trigger] r@[i]).pair_tile, r@[i].sets@),
            forall|pair: Tile, sets: Seq<Meld>| #[trigger] hand_sound(*counts, pair, sets) ==> found_hu(r@, pair, sets),
            std_distinct(as_std(r@), 0),
            listings_sorted(as_std(r@), 0),
    {
        proof {
            assert(crate::structs::hand::row_wf(counts.rows[3]));
            assert(std_distinct(as_std(Seq::<ConcealedDecomp>::empty()), 0)) by {
                reveal(std_distinct);
            }
            assert(listings_sorted(as_std(Seq::<ConcealedDecomp>::empty()), 0)) by {
                reveal(listings_sorted);
            }
        }
        let honors = match parse_honors(counts.rows[3]) {
            Some(h) => h,
            None => {
                proof {
                    assert forall|pair: Tile, melds: Seq<Meld>| #[trigger] hand_sound(*counts, pair, melds) implies found_hu(
                        Seq::<ConcealedDecomp>::empty(),
                        pair,
                        melds,
                    ) by {
                        lemma_hand_parts(*counts, pair, melds);
                    }
                }
                return Vec::new();
            },
        };
        let suit_cache = decompose_all_suits(&counts.rows);
        proof {
            lemma_all_sound_in_row(suit_cache@[0]@, counts.rows[0], 0);
            lemma_all_sound_in_row(suit_cache@[1]@, counts.rows[1], 1);
            lemma_all_sound_in_row(suit_cache@[2]@, counts.rows[2], 2);
        }
        let mut out: Vec<ConcealedDecomp> = Vec::new();
        // The pair is an honor.
        if let Some(pair_tile) = honors.pair {
            if counts.rows[0] != 0 && suit_cache[0].len() == 0 || counts.rows[1] != 0 && suit_cache[1].len() == 0
                || counts.rows[2] != 0 && suit_cache[2].len() == 0 {
                proof {
                    assert forall|pair: Tile, melds: Seq<Meld>| #[trigger] hand_sound(*counts, pair, melds) implies found_hu(
                        Seq::<ConcealedDecomp>::empty(),
                        pair,
                        melds,
                    ) by {
                        lemma_honor_pair_suits(
                            *counts,
                            pair,
                            melds,
                            honors.pungs@,
                            honors.pair,
                            suit_cache@[0]@,
                            suit_cache@[1]@,
                            suit_cache@[2]@,
                        );
                    }
                }
                return Vec::new();
            }
            let combos = combine_suits(&suit_cache);
            let ghost cs = combos@;
            emit_solutions(&honors.pungs, pair_tile, combos, &mut out);
            proof {
                assert forall|i: int| 0 <= i < out@.len() implies hand_sound(
                    *counts,
                    (#[trigger] out@[i]).pair_tile,
                    out@[i].sets@,
                ) by {
                    assert(out@[0 + i].pair_tile == pair_tile && out@[0 + i].sets@ == honors.pungs@ + cs[i]@);
                    let c = cs[i]@;
                    assert(is_combination(c, suit_cache@[0]@, suit_cache@[1]@, suit_cache@[2]@));
                    let (i0, i1, i2) = choose|i0: int, i1: int, i2: int|
                        0 <= i0 < suit_cache@[0]@.len() && 0 <= i1 < suit_cache@[1]@.len() && 0 <= i2
                            < suit_cache@[2]@.len() && c == #[trigger] suit_cache@[0]@[i0]@
                            + #[trigger] suit_cache@[1]@[i1]@ + #[trigger] suit_cache@[2]@[i2]@;
                    lemma_tile_id_roundtrip(pair_tile);
                    lemma_join_sound(
                        *counts,
                        honors.pungs@,
                        honors.pair,
                        suit_cache@[0]@[i0]@,
                        suit_cache@[1]@[i1]@,
                        suit_cache@[2]@[i2]@,
                        pair_tile,
                        3,
                    );
                }
                assert forall|pair: Tile, melds: Seq<Meld>| #[trigger] hand_sound(*counts, pair, melds) implies found_hu(
                    out@,
                    pair,
                    melds,
                ) by {
                    lemma_honor_pair_suits(
                        *counts,
                        pair,
                        melds,
                        honors.pungs@,
                        honors.pair,
                        suit_cache@[0]@,
                        suit_cache@[1]@,
                        suit_cache@[2]@,
                    );
                    let j = lemma_join_found(
                        *counts,
                        pair,
                        melds,
                        honors.pungs@,
                        honors.pair,
                        suit_cache@[0]@,
                        suit_cache@[1]@,
                        suit_cache@[2]@,
                        cs,
                    );
                    assert(out@[0 + j].pair_tile == pair && out@[0 + j].sets@ == honors.pungs@ + cs[j]@);
                }
                assert(all_distinct(cs));
                assert(suit_lists_sorted(cs));
                assert(listings_sorted(as_std(out@), 0)) by {
                    reveal(listings_sorted);
                    assert forall|i: int| 0 <= i < as_std(out@).len() implies keys_sorted(#[trigger] as_std(out@)[i].melds@) by {
                        assert(keys_sorted(out@[i].sets@));
                    }
                }
                assert(std_distinct(as_std(out@), 0)) by {
                    reveal(std_distinct);
                    assert forall|i: int, j: int| 0 <= i < j < as_std(out@).len() implies !(#[trigger] as_std(out@)[i].pair_tile
                        == #[trigger] as_std(out@)[j].pair_tile && as_std(out@)[i].melds@ == as_std(out@)[j].melds@) by {
                        assert(out@[i].sets@ != out@[j].sets@);
                    }
                }
            }
            return out;
        }
        // The pair is a suit tile.
        let mut suit: usize = 0;
        while suit < 3
            invariant
                suit <= 3,
                counts_ok(*counts),
                honors_sound(counts.rows[3], honors.pungs@, honors.pair),
                honors.pair == None::<Tile>,
                all_sound(suit_cache@[0]@, counts.rows[0], 0),
                all_sound(suit_cache@[1]@, counts.rows[1], 1),
                all_sound(suit_cache@[2]@, counts.rows[2], 2),
                all_found(suit_cache@[0]@, counts.rows[0], 0),
                all_found(suit_cache@[1]@, counts.rows[1], 1),
                all_found(suit_cache@[2]@, counts.rows[2], 2),
                forall|i: int| 0 <= i < out@.len() ==> hand_sound(*counts, (#[trigger] out@[i]).pair_tile, out@[i].sets@),
                forall|pair: Tile, melds: Seq<Meld>|
                    #[trigger] hand_sound(*counts, pair, melds) && tile_row(pair) < suit ==> found_std(
                        as_std(out@),
                        pair,
                        melds,
                    ),
                all_distinct(suit_cache@[0]@),
                all_distinct(suit_cache@[1]@),
                all_distinct(suit_cache@[2]@),
                forall|j: int| 0 <= j < out@.len() ==> tile_row((#[trigger] out@[j]).pair_tile) < suit,
                std_distinct(as_std(out@), 0),
                listings_sorted(as_std(out@), 0),
                all_sorted(suit_cache@[0]@),
                all_sorted(suit_cache@[1]@),
                all_sorted(suit_cache@[2]@),
                honors_sorted(honors.pungs@),
            decreases 3 - suit,
        {
            let ghost before = out@;
            try_each_pair_in_suit(suit, counts, &honors, &suit_cache, &mut out);
            proof {
                assert forall|pair: Tile, melds: Seq<Meld>|
                    #[trigger] hand_sound(*counts, pair, melds) && tile_row(pair) < suit + 1 implies found_std(
                    as_std(out@),
                    pair,
                    melds,
                ) by {
                    if tile_row(pair) < suit {
                        assert forall|i: int| 0 <= i < as_std(before).len() implies #[trigger] as_std(out@)[i]
                            == as_std(before)[i] by {
                            assert(out@[i] == before[i]);
                        }
                        lemma_found_std_grow(as_std(before), as_std(out@), pair, melds);
                    }
                }
                assert forall|i: int| 0 <= i < as_std(before).len() implies #[trigger] as_std(out@)[i] == as_std(before)[i] by {
                    assert(out@[i] == before[i]);
                }
                assert forall|i: int| as_std(before).len() <= i < as_std(out@).len() implies keys_sorted(#[trigger] as_std(out@)[i].melds@) by {
                    assert(keys_sorted(out@[i].sets@));
                }
                lemma_listings_extend(as_std(before), as_std(out@), 0);
                assert(std_distinct(as_std(out@), 0)) by {
                    reveal(std_distinct);
                    assert forall|i: int, j: int| 0 <= i < j < as_std(out@).len() implies !(#[trigger] as_std(out@)[i].pair_tile
                        == #[trigger] as_std(out@)[j].pair_tile && as_std(out@)[i].melds@ == as_std(out@)[j].melds@) by {
                        if j < before.len() {
                            assert(out@[i] == before[i] && out@[j] == before[j]);
                            assert(as_std(before)[i] == as_std(out@)[i] && as_std(before)[j] == as_std(out@)[j]);
                        } else if i < before.len() {
                            assert(out@[i] == before[i]);
                            assert(tile_row(out@[j].pair_tile) == suit);
                        }
                    }
                }
                assert forall|j: int| 0 <= j < out@.len() implies tile_row((#[trigger] out@[j]).pair_tile) < suit + 1 by {
                    if j < before.len() {
                        assert(out@[j] == before[j]);
                    }
                }
            }
            suit = suit + 1;
        }
        proof {
            assert forall|pair: Tile, melds: Seq<Meld>| #[trigger] hand_sound(*counts, pair, melds) implies found_hu(
                out@,
                pair,
                melds,
            ) by {
                lemma_hand_parts(*counts, pair, melds);
                if tile_row(pair) == 3 {
                    assert(honors.pair == Some(pair));
                }
                lemma_found_as_std(out@, pair, melds);
            }
        }
        out
    }
}

/// Adds one decomposition for each combination: the honor pungs, then the
/// suit sets, with the pair.
fn emit_solutions(honor_pungs: &Vec<Meld>, pair_tile: Tile, combos: Vec<Vec<Meld>>, out: &mut Vec<ConcealedDecomp>)
    ensures
        final(out)@.len() == old(out)@.len() + combos@.len(),
        forall|i: int| 0 <= i < old(out)@.len() ==> #[trigger] final(out)@[i] == old(out)@[i],
        forall|j: int| 0 <= j < combos@.len() ==> (#[trigger] final(out)@[old(out)@.len() + j]).pair_tile == pair_tile
            && final(out)@[old(out)@.len() + j].sets@ == honor_pungs@ + combos@[j]@,
        all_distinct(combos@) ==> forall|i: int, j: int|
            old(out)@.len() <= i < j < final(out)@.len() ==> #[trigger] final(out)@[i].sets@
                != #[trigger] final(out)@[j].sets@,
        honors_sorted(honor_pungs@) && suit_lists_sorted(combos@) ==> forall|i: int|
            old(out)@.len() <= i < final(out)@.len() ==> keys_sorted(#[trigger] final(out)@[i].sets@),
{
    let ghost n0 = out@.len();
    let mut i: usize = 0;
    while i < combos.len()
        invariant
            i <= combos@.len(),
            out@.len() == n0 + i,
            forall|j: int| 0 <= j < n0 ==> #[trigger] out@[j] == old(out)@[j],
            forall|j: int| 0 <= j < i ==> (#[trigger] out@[n0 + j]).pair_tile == pair_tile
                && out@[n0 + j].sets@ == honor_pungs@ + combos@[j]@,
        decreases combos@.len() - i,
    {
        let mut sets = copy_melds(honor_pungs);
        let mut part = copy_melds(&combos[i]);
        sets.append(&mut part);
        out.push(ConcealedDecomp { pair_tile, sets });
        i = i + 1;
    }
    proof {
        if all_distinct(combos@) {
            assert forall|a: int, b: int| n0 <= a < b < out@.len() implies #[trigger] out@[a].sets@
                != #[trigger] out@[b].sets@ by {
                let x = combos@[a - n0]@;
                let y = combos@[b - n0]@;
                assert(out@[n0 + (a - n0)].sets@ == honor_pungs@ + x);
                assert(out@[n0 + (b - n0)].sets@ == honor_pungs@ + y);
                assert(combos@[a - n0]@ != combos@[b - n0]@);
                lemma_prefix_cancel(honor_pungs@, x, y);
            }
        }
        if honors_sorted(honor_pungs@) && suit_lists_sorted(combos@) {
            reveal(honors_sorted);
            reveal(suit_lists_sorted);
            assert forall|i: int| n0 <= i < out@.len() implies keys_sorted(#[trigger] out@[i].sets@) by {
                assert(out@[n0 + (i - n0)].sets@ == honor_pungs@ + combos@[i - n0]@);
                lemma_honors_then_suits(honor_pungs@, combos@[i - n0]@);
            }
        }
    }
}

/// The decompositions with the pair taken at each pair position of one suit,
/// in order, passing over a position after which some suit cannot be split.
#[verifier::spinoff_prover]
fn try_each_pair_in_suit(
    suit: usize,
    counts: &BitTileCounts,
    honors: &HonorResult,
    suit_cache: &[Vec<Vec<Meld>>; 3],
    out: &mut Vec<ConcealedDecomp>,
)
    requires
        suit < 3,
        counts_ok(*counts),
        honors_sound(counts.rows[3], honors.pungs@, honors.pair),
        honors.pair == None::<Tile>,
        all_sound(suit_cache@[0]@, counts.rows[0], 0),
        all_sound(suit_cache@[1]@, counts.rows[1], 1),
        all_sound(suit_cache@[2]@, counts.rows[2], 2),
        all_found(suit_cache@[0]@, counts.rows[0], 0),
        all_found(suit_cache@[1]@, counts.rows[1], 1),
        all_found(suit_cache@[2]@, counts.rows[2], 2),
        forall|i: int| 0 <= i < old(out)@.len() ==> hand_sound(*counts, (#[trigger] old(out)@[i]).pair_tile, old(out)@[i].sets@),
        all_distinct(suit_cache@[0]@),
        all_distinct(suit_cache@[1]@),
        all_distinct(suit_cache@[2]@),
        all_sorted(suit_cache@[0]@),
        all_sorted(suit_cache@[1]@),
        all_sorted(suit_cache@[2]@),
        honors_sorted(honors.pungs@),
    ensures
        forall|i: int| old(out)@.len() <= i < final(out)@.len() ==> keys_sorted(#[trigger] final(out)@[i].sets@),
        forall|i: int| old(out)@.len() <= i < final(out)@.len() ==> tile_row((#[trigger] final(out)@[i]).pair_tile) == suit,
        std_distinct(as_std(final(out)@), old(out)@.len() as int),
        old(out)@.len() <= final(out)@.len(),
        forall|i: int| 0 <= i < old(out)@.len() ==> #[trigger] final(out)@[i] == old(out)@[i],
        forall|i: int| 0 <= i < final(out)@.len() ==> hand_sound(*counts, (#[trigger] final(out)@[i]).pair_tile, final(out)@[i].sets@),
        forall|pair: Tile, melds: Seq<Meld>|
            #[trigger] hand_sound(*counts, pair, melds) && tile_row(pair) == suit ==> found_std(as_std(final(out)@), pair, melds),
{
    let ghost out0 = out@;
    let row = counts.rows[suit];
    proof {
        assert(row_ok(counts.rows[suit as int], suit as int));
    }
    proof {
        assert(std_distinct(as_std(out@), out0.len() as int)) by {
            reveal(std_distinct);
        }
    }
    let positions = pair_positions_in_row(row);
    let mut p: usize = 0;
    while p < positions.len()
        invariant
            suit < 3,
            row == counts.rows[suit as int],
            row_ok(row, suit as int),
            positions@ == pair_shifts_upto(row, 16),
            p <= positions@.len(),
            counts_ok(*counts),
            honors_sound(counts.rows[3], honors.pungs@, honors.pair),
            honors.pair == None::<Tile>,
            all_sound(suit_cache@[0]@, counts.rows[0], 0),
            all_sound(suit_cache@[1]@, counts.rows[1], 1),
            all_sound(suit_cache@[2]@, counts.rows[2], 2),
            all_found(suit_cache@[0]@, counts.rows[0], 0),
            all_found(suit_cache@[1]@, counts.rows[1], 1),
            all_found(suit_cache@[2]@, counts.rows[2], 2),
            forall|j: int| 0 <= j < out@.len() ==> hand_sound(*counts, (#[trigger] out@[j]).pair_tile, out@[j].sets@),
            out0.len() <= out@.len(),
            forall|j: int| 0 <= j < out0.len() ==> #[trigger] out@[j] == out0[j],
            all_distinct(suit_cache@[0]@),
            all_distinct(suit_cache@[1]@),
            all_distinct(suit_cache@[2]@),
            p == 0 ==> out@.len() == out0.len(),
            forall|j: int| out0.len() <= j < out@.len() ==> tile_row((#[trigger] as_std(out@)[j]).pair_tile) == suit
                && 4 * tile_nib(as_std(out@)[j].pair_tile) <= positions@[p - 1],
            std_distinct(as_std(out@), out0.len() as int),
            all_sorted(suit_cache@[0]@),
            all_sorted(suit_cache@[1]@),
            all_sorted(suit_cache@[2]@),
            honors_sorted(honors.pungs@),
            forall|i: int| out0.len() <= i < out@.len() ==> keys_sorted(#[trigger] out@[i].sets@),
            forall|pair: Tile, melds: Seq<Meld>|
                #[trigger] hand_sound(*counts, pair, melds) && tile_row(pair) == suit && listed_before(
                    positions@,
                    p as int,
                    4 * tile_nib(pair),
                ) ==> found_std(as_std(out@), pair, melds),
        decreases positions@.len() - p,
    {
        let shift = positions[p];
        proof {
            lemma_pair_shifts(row, 16, p as int);
            lemma_pair_shifts_increase(row, 16);
            if p > 0 {
                assert(positions@[p - 1] < positions@[p as int]);
            }
        }
        let ghost k = shift as int / 4;
        proof {
            assert(is_tile_id(suit * 64 + 4 * k));
            lemma_tile_at(Tile::Character1, suit as int, k);
        }
        let pair_tile = BitTileCounts::position_to_tile(suit, shift);
        let mut row_minus_pair = row;
        BitTileCounts::remove_nibble(&mut row_minus_pair, shift, 2);
        proof {
            lemma_row_ok_without(row, suit as int, k, 2);
            lemma_tile_id_roundtrip(pair_tile);
        }
        let pair_decomps = crate::solver::decompose_standard::decompose_suit(row_minus_pair, suit);
        let ghost sel0 = if suit == 0 { pair_decomps@ } else { suit_cache@[0]@ };
        let ghost sel1 = if suit == 1 { pair_decomps@ } else { suit_cache@[1]@ };
        let ghost sel2 = if suit == 2 { pair_decomps@ } else { suit_cache@[2]@ };
        proof {
            lemma_pair_here(
                *counts,
                suit as int,
                shift as int,
                pair_tile,
                row_minus_pair,
                pair_decomps@,
                suit_cache@[0]@,
                suit_cache@[1]@,
                suit_cache@[2]@,
            );
        }
        // Every suit must split, the pair's suit without the pair.
        let splits0 = if suit == 0 { row_minus_pair == 0 || pair_decomps.len() > 0 } else {
            counts.rows[0] == 0 || suit_cache[0].len() > 0
        };
        let splits1 = if suit == 1 { row_minus_pair == 0 || pair_decomps.len() > 0 } else {
            counts.rows[1] == 0 || suit_cache[1].len() > 0
        };
        let splits2 = if suit == 2 { row_minus_pair == 0 || pair_decomps.len() > 0 } else {
            counts.rows[2] == 0 || suit_cache[2].len() > 0
        };
        let splits = splits0 && splits1 && splits2;
        if !splits {
            proof {
                assert forall|pair: Tile, melds: Seq<Meld>|
                    #[trigger] hand_sound(*counts, pair, melds) && tile_row(pair) == suit && listed_before(
                        positions@,
                        p + 1,
                        4 * tile_nib(pair),
                    ) implies found_std(as_std(out@), pair, melds) by {
                    if !listed_before(positions@, p as int, 4 * tile_nib(pair)) {
                        assert(4 * tile_nib(pair) == shift);
                        assert(found_in(sel0, sets_of_row(melds, 0)));
                        assert(found_in(sel1, sets_of_row(melds, 1)));
                        assert(found_in(sel2, sets_of_row(melds, 2)));
                    }
                }
            }
            p = p + 1;
            continue;
        }
        proof {
            lemma_all_sound_in_row(pair_decomps@, row_minus_pair, suit as int);
            lemma_all_sound_in_row(suit_cache@[0]@, counts.rows[0], 0);
            lemma_all_sound_in_row(suit_cache@[1]@, counts.rows[1], 1);
            lemma_all_sound_in_row(suit_cache@[2]@, counts.rows[2], 2);
            assert(suits_apart(sel0, sel1, sel2));
        }
        let combos = combine_suits_with(suit_cache, suit, &pair_decomps);
        let ghost cs = combos@;
        let ghost n0 = out@.len();
        let ghost old_out = out@;
        emit_solutions(&honors.pungs, pair_tile, combos, out);
        proof {
            assert forall|i: int| 0 <= i < old_out.len() implies #[trigger] as_std(out@)[i] == as_std(old_out)[i] by {
                assert(out@[i] == old_out[i]);
            }
            assert forall|j: int| 0 <= j < cs.len() implies (#[trigger] as_std(out@)[as_std(old_out).len() + j]).pair_tile
                == pair_tile && as_std(out@)[as_std(old_out).len() + j].melds@ == honors.pungs@ + cs[j]@ by {
                assert(out@[n0 + j].pair_tile == pair_tile);
            }
            assert forall|i: int| 0 <= i < as_std(old_out).len() implies hand_sound(
                *counts,
                (#[trigger] as_std(old_out)[i]).pair_tile,
                as_std(old_out)[i].melds@,
            ) by {
                assert(hand_sound(*counts, old_out[i].pair_tile, old_out[i].sets@));
            }
            lemma_emit_sound(
                *counts,
                suit as int,
                k,
                honors.pungs@,
                honors.pair,
                pair_tile,
                sel0,
                sel1,
                sel2,
                cs,
                as_std(old_out),
                as_std(out@),
            );
            assert forall|i: int| 0 <= i < out@.len() implies hand_sound(
                *counts,
                (#[trigger] out@[i]).pair_tile,
                out@[i].sets@,
            ) by {
                assert(hand_sound(*counts, as_std(out@)[i].pair_tile, as_std(out@)[i].melds@));
            }
            lemma_emit_found(
                *counts,
                suit as int,
                honors.pungs@,
                honors.pair,
                pair_tile,
                positions@,
                p as int,
                sel0,
                sel1,
                sel2,
                cs,
                as_std(old_out),
                as_std(out@),
            );
            assert(tile_row(pair_tile) == suit && 4 * tile_nib(pair_tile) == shift);
            assert(suit_lists_sorted(cs));
            assert forall|i: int| out0.len() <= i < out@.len() implies keys_sorted(#[trigger] out@[i].sets@) by {
                if i < n0 {
                    assert(out@[i] == old_out[i]);
                }
            }
            assert(all_distinct(cs));
            assert forall|i: int, j: int| old_out.len() <= i < j < as_std(out@).len() implies #[trigger] as_std(out@)[i].melds@
                != #[trigger] as_std(out@)[j].melds@ by {
                assert(out@[i].sets@ != out@[j].sets@);
            }
            lemma_emit_distinct(
                as_std(old_out),
                as_std(out@),
                out0.len() as int,
                pair_tile,
                shift as int,
                if p > 0 { positions@[p - 1] as int } else { -1 },
                suit as int,
            );
        }
        p = p + 1;
    }
    proof {
        assert forall|pair: Tile, melds: Seq<Meld>|
            #[trigger] hand_sound(*counts, pair, melds) && tile_row(pair) == suit implies found_std(
            as_std(out@),
            pair,
            melds,
        ) by {
            lemma_hand_parts(*counts, pair, melds);
            lemma_tile_id_roundtrip(pair);
            let idx = lemma_pair_shift_listed(row, tile_nib(pair), 16);
            assert(listed_before(positions@, p as int, 4 * tile_nib(pair)));
        }
        assert forall|i: int| out0.len() <= i < out@.len() implies tile_row((#[trigger] out@[i]).pair_tile) == suit by {
            assert(tile_row(as_std(out@)[i].pair_tile) == suit);
        }
    }
}

} // verus!
