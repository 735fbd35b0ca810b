use vstd::prelude::*;

use super::sets::Meld;
use super::tiles::{Tile, is_tile_id, lemma_tile_id_roundtrip, tile_of_id, tile_of_dense};

verus! {

// ── Nibble arithmetic ──
//
// Each tile owns four bits of a 64-bit row.  A count `c` (0 to 4) is stored
// with its `c` lowest bits set: 0000, 0001, 0011, 0111, 1111.

/// The four bits at nibble position `k` (bits `4k .. 4k+3`) of `row`.
pub open spec fn nibble(row: u64, k: int) -> u64 {
    (row >> (4 * k) as u64) & 0xf
}

/// The nibble that stores the count `c`.
pub open spec fn fill(c: nat) -> u64 {
    if c == 0 {
        0
    } else if c == 1 {
        1
    } else if c == 2 {
        3
    } else if c == 3 {
        7
    } else {
        15
    }
}

/// `n` is one of the five nibbles that store a count.
pub open spec fn is_fill(n: u64) -> bool {
    n == 0 || n == 1 || n == 3 || n == 7 || n == 15
}

/// The count that the nibble `n` stores.
pub open spec fn fill_count(n: u64) -> nat {
    if n == 1 {
        1
    } else if n == 3 {
        2
    } else if n == 7 {
        3
    } else if n == 15 {
        4
    } else {
        0
    }
}

/// Every nibble of the row stores a count.
pub open spec fn row_wf(row: u64) -> bool {
    forall|k: int| 0 <= k < 16 ==> #[trigger] is_fill(nibble(row, k))
}

/// The count stored at nibble `k` of `row`.
pub open spec fn row_count(row: u64, k: int) -> nat {
    fill_count(nibble(row, k))
}

proof fn lemma_or_other(r: u64, v: u64, s: u64, t: u64)
    by (bit_vector)
    requires
        v < 16,
        s < 64,
        t < 64,
        s & 3 == 0,
        t & 3 == 0,
        s != t,
    ensures
        ((r | (v << s)) >> t) & 0xf == (r >> t) & 0xf,
{
}

proof fn lemma_or_same(r: u64, v: u64, s: u64)
    by (bit_vector)
    requires
        v < 16,
        s < 64,
        s & 3 == 0,
    ensures
        ((r | (v << s)) >> s) & 0xf == ((r >> s) & 0xf) | v,
{
}

proof fn lemma_andnot_other(r: u64, m: u64, s: u64, t: u64)
    by (bit_vector)
    requires
        m < 16,
        s < 64,
        t < 64,
        s & 3 == 0,
        t & 3 == 0,
        s != t,
    ensures
        ((r & !(m << s)) >> t) & 0xf == (r >> t) & 0xf,
{
}

proof fn lemma_andnot_same(r: u64, m: u64, s: u64)
    by (bit_vector)
    requires
        m < 16,
        s < 64,
        s & 3 == 0,
    ensures
        ((r & !(m << s)) >> s) & 0xf == ((r >> s) & 0xf) & !m,
{
}

/// Setting the next bit of a count's nibble stores the next count.
proof fn lemma_fill_succ(c: nat)
    requires
        c < 4,
    ensures
        fill(c) | (fill(c) + 1) as u64 == fill(c + 1),
        fill(c) + 1 < 16,
        is_fill(fill(c + 1)),
        fill_count(fill(c + 1)) == c + 1,
{
    if c == 0 {
        assert(0u64 | 1u64 == 1u64) by (bit_vector);
    } else if c == 1 {
        assert(1u64 | 2u64 == 3u64) by (bit_vector);
    } else if c == 2 {
        assert(3u64 | 4u64 == 7u64) by (bit_vector);
    } else {
        assert(7u64 | 8u64 == 15u64) by (bit_vector);
    }
}

/// Clearing the `d` highest set bits of a count's nibble stores `c - d`.
proof fn lemma_fill_remove(c: nat, d: nat)
    requires
        d <= c <= 4,
    ensures
        (fill(c) ^ (fill(c) >> d as u64)) < 16,
        fill(c) & !(fill(c) ^ (fill(c) >> d as u64)) == fill((c - d) as nat),
{
    let n = fill(c);
    let dd = d as u64;
    assert(n <= 15 && dd <= 4 ==> (n ^ (n >> dd)) < 16) by (bit_vector);
    if c == 0 {
        assert(0u64 & !(0u64 ^ (0u64 >> dd)) == 0u64) by (bit_vector);
    } else if c == 1 {
        assert(dd == 0 ==> 1u64 & !(1u64 ^ (1u64 >> dd)) == 1u64) by (bit_vector);
        assert(dd == 1 ==> 1u64 & !(1u64 ^ (1u64 >> dd)) == 0u64) by (bit_vector);
    } else if c == 2 {
        assert(dd == 0 ==> 3u64 & !(3u64 ^ (3u64 >> dd)) == 3u64) by (bit_vector);
        assert(dd == 1 ==> 3u64 & !(3u64 ^ (3u64 >> dd)) == 1u64) by (bit_vector);
        assert(dd == 2 ==> 3u64 & !(3u64 ^ (3u64 >> dd)) == 0u64) by (bit_vector);
    } else if c == 3 {
        assert(dd == 0 ==> 7u64 & !(7u64 ^ (7u64 >> dd)) == 7u64) by (bit_vector);
        assert(dd == 1 ==> 7u64 & !(7u64 ^ (7u64 >> dd)) == 3u64) by (bit_vector);
        assert(dd == 2 ==> 7u64 & !(7u64 ^ (7u64 >> dd)) == 1u64) by (bit_vector);
        assert(dd == 3 ==> 7u64 & !(7u64 ^ (7u64 >> dd)) == 0u64) by (bit_vector);
    } else {
        assert(dd == 0 ==> 15u64 & !(15u64 ^ (15u64 >> dd)) == 15u64) by (bit_vector);
        assert(dd == 1 ==> 15u64 & !(15u64 ^ (15u64 >> dd)) == 7u64) by (bit_vector);
        assert(dd == 2 ==> 15u64 & !(15u64 ^ (15u64 >> dd)) == 3u64) by (bit_vector);
        assert(dd == 3 ==> 15u64 & !(15u64 ^ (15u64 >> dd)) == 1u64) by (bit_vector);
        assert(dd == 4 ==> 15u64 & !(15u64 ^ (15u64 >> dd)) == 0u64) by (bit_vector);
    }
}

proof fn lemma_fill_roundtrip(n: u64)
    requires
        is_fill(n),
    ensures
        fill(fill_count(n)) == n,
        fill_count(n) <= 4,
{
}

/// A stored count is the number of set bits of its nibble.
pub fn nibble_count(n: u64) -> (r: u8)
    requires
        is_fill(n),
    ensures
        r as nat == fill_count(n),
{
    if n == 1 {
        1
    } else if n == 3 {
        2
    } else if n == 7 {
        3
    } else if n == 15 {
        4
    } else {
        0
    }
}

/// The row of a tile in the bit layout.
pub open spec fn tile_row(t: Tile) -> int {
    t.spec_id() / 64
}

/// The nibble position of a tile inside its row.
pub open spec fn tile_nib(t: Tile) -> int {
    (t.spec_id() % 64) / 4
}

/// Tile counts packed four bits per tile, one row per suit (the fourth row
/// holds the honors).
///
/// Layout:
/// - Row 0: characters 1-9, row 1: dots 1-9, row 2: bamboos 1-9;
/// - Row 3: the seven honors.
#[derive(Clone, Copy, Debug)]
pub struct BitTileCounts {
    pub rows: [u64; 4],
}

/// The row stores its counts well and holds tiles only at nibbles that are
/// tiles of row `ri`.
pub open spec fn row_ok(row: u64, ri: int) -> bool {
    &&& row_wf(row)
    &&& forall|k: int| 0 <= k < 16 && !is_tile_id(ri * 64 + 4 * k) ==> #[trigger] row_count(row, k) == 0
}

/// The suit rows hold tiles only where tiles are, and every row stores its
/// counts well.
pub open spec fn counts_ok(c: BitTileCounts) -> bool {
    &&& c.wf()
    &&& row_ok(c.rows[0], 0)
    &&& row_ok(c.rows[1], 1)
    &&& row_ok(c.rows[2], 2)
}

/// Changing the count of one tile alone keeps every row on its tiles.
proof fn lemma_counts_ok_update(old_c: BitTileCounts, new_c: BitTileCounts, t: Tile)
    requires
        counts_ok(old_c),
        new_c.wf(),
        !t.spec_is_flower(),
        forall|i: int| 0 <= i < 4 && i != tile_row(t) ==> new_c.rows[i] == old_c.rows[i],
        forall|k: int|
            0 <= k < 16 && k != tile_nib(t) ==> #[trigger] nibble(new_c.rows[tile_row(t)], k) == nibble(
                old_c.rows[tile_row(t)],
                k,
            ),
    ensures
        counts_ok(new_c),
{
    lemma_tile_id_roundtrip(t);
    assert forall|i: int| 0 <= i < 3 implies row_ok(#[trigger] new_c.rows[i], i) by {
        assert(row_wf(new_c.rows[i]));
        if i == tile_row(t) {
            assert forall|k: int| 0 <= k < 16 && !is_tile_id(i * 64 + 4 * k) implies #[trigger] row_count(new_c.rows[i], k)
                == 0 by {
                assert(k != tile_nib(t));
                assert(nibble(new_c.rows[i], k) == nibble(old_c.rows[i], k));
                assert(row_count(old_c.rows[i], k) == 0);
            }
        }
    }
    assert(row_ok(new_c.rows[0], 0));
    assert(row_ok(new_c.rows[1], 1));
    assert(row_ok(new_c.rows[2], 2));
}

impl BitTileCounts {
    /// Every nibble of every row stores a count.
    pub open spec fn wf(self) -> bool {
        forall|i: int| 0 <= i < 4 ==> #[trigger] row_wf(self.rows[i])
    }

    /// How many copies of `t` the counts hold.
    pub open spec fn spec_count(self, t: Tile) -> nat {
        row_count(self.rows[tile_row(t)], tile_nib(t))
    }

    /// Total number of tiles held, over the 34 non-flower tiles.
    pub open spec fn spec_total_upto(self, n: int) -> nat
        decreases n,
    {
        if n <= 0 {
            0
        } else {
            self.spec_total_upto(n - 1) + self.spec_count(tile_of_dense(n - 1))
        }
    }

    pub open spec fn spec_total(self) -> nat {
        self.spec_total_upto(34)
    }

    /// The row and the bit shift of a non-flower tile.
    pub fn tile_to_position(tile: Tile) -> (r: (usize, usize))
        requires
            !tile.spec_is_flower(),
        ensures
            r.0 as int == tile_row(tile),
            r.1 as int == tile.spec_id() % 64,
            r.0 < 4,
            r.1 < 64,
            r.1 % 4 == 0,
            r.1 <= 32 || r.0 == 3,
    {
        let id = tile.id() as usize;
        let row = id / 64;
        let shift = id % 64;
        (row, shift)
    }

    /// Adds one copy of `tile`.
    pub fn insert(&mut self, tile: Tile)
        requires
            old(self).wf(),
            !tile.spec_is_flower(),
            old(self).spec_count(tile) < 4,
        ensures
            final(self).wf(),
            final(self).spec_count(tile) == old(self).spec_count(tile) + 1,
            forall|u: Tile| u != tile ==> #[trigger] final(self).spec_count(u) == old(self).spec_count(u),
            final(self).rows@ == old(self).rows@.update(
                tile_row(tile),
                row_with(old(self).rows[tile_row(tile)], tile_nib(tile)),
            ),
            counts_ok(*old(self)) ==> counts_ok(*final(self)),
    {
        let (row, shift) = Self::tile_to_position(tile);
        let ghost old_self = *self;
        let mut r = self.rows[row];
        Self::add_to_row(&mut r, shift);
        self.rows[row] = r;
        proof {
            assert forall|i: int| 0 <= i < 4 implies #[trigger] row_wf(self.rows[i]) by {
                assert(row_wf(old_self.rows[i]));
            }
            assert forall|u: Tile| u != tile implies #[trigger] self.spec_count(u) == old_self.spec_count(u) by {
                if tile_row(u) == row {
                    assert(u.spec_id() != tile.spec_id());
                }
            }
            if counts_ok(old_self) {
                assert(shift as int / 4 == tile_nib(tile));
                lemma_counts_ok_update(old_self, *self, tile);
            }
        }
    }

    /// Adds one copy of `tile` where there is room for it; returns whether it
    /// did. A flower, or a fifth copy, leaves the counts unchanged.
    pub fn try_insert(&mut self, tile: Tile) -> (r: bool)
        requires
            old(self).wf(),
        ensures
            final(self).wf(),
            r == (!tile.spec_is_flower() && old(self).spec_count(tile) < 4),
            !r ==> *final(self) == *old(self),
            r ==> final(self).spec_count(tile) == old(self).spec_count(tile) + 1,
            forall|u: Tile| u != tile ==> #[trigger] final(self).spec_count(u) == old(self).spec_count(u),
            counts_ok(*old(self)) ==> counts_ok(*final(self)),
    {
        if tile.is_flower() || self.count(tile) >= 4 {
            return false;
        }
        self.insert(tile);
        true
    }

    /// Removes `count` copies of the tile at `shift` of row `row`.
    pub fn remove_from_row(&mut self, row: usize, shift: usize, count: u8)
        requires
            old(self).wf(),
            row < 4,
            shift < 64,
            shift % 4 == 0,
            count as nat <= row_count(old(self).rows[row as int], shift as int / 4),
        ensures
            final(self).wf(),
            final(self).rows[row as int] == row_without(old(self).rows[row as int], shift as int / 4, count as nat),
            forall|i: int| 0 <= i < 4 && i != row ==> final(self).rows[i] == old(self).rows[i],
    {
        let mut r = self.rows[row];
        proof {
            assert(row_wf(self.rows[row as int]));
        }
        Self::remove_nibble(&mut r, shift, count);
        self.rows[row] = r;
        proof {
            assert forall|i: int| 0 <= i < 4 implies #[trigger] row_wf(self.rows[i]) by {
                assert(row_wf(old(self).rows[i]));
            }
        }
    }

    /// Removes `count` copies of `tile`.
    pub fn remove(&mut self, tile: Tile, count: u8)
        requires
            old(self).wf(),
            !tile.spec_is_flower(),
            count as nat <= old(self).spec_count(tile),
        ensures
            final(self).wf(),
            final(self).spec_count(tile) == old(self).spec_count(tile) - count,
            forall|u: Tile| u != tile ==> #[trigger] final(self).spec_count(u) == old(self).spec_count(u),
            final(self).rows@ == old(self).rows@.update(
                tile_row(tile),
                row_without(old(self).rows[tile_row(tile)], tile_nib(tile), count as nat),
            ),
            counts_ok(*old(self)) ==> counts_ok(*final(self)),
    {
        let (row, shift) = Self::tile_to_position(tile);
        let ghost old_self = *self;
        self.remove_from_row(row, shift, count);
        proof {
            lemma_row_without(old_self.rows[row as int], shift as int / 4, count as nat);
            assert forall|u: Tile| u != tile implies #[trigger] self.spec_count(u) == old_self.spec_count(u) by {
                if tile_row(u) == row {
                    assert(u.spec_id() != tile.spec_id());
                    assert(tile_nib(u) != tile_nib(tile));
                }
            }
            assert(self.rows@ =~= old_self.rows@.update(
                tile_row(tile),
                row_without(old_self.rows[tile_row(tile)], tile_nib(tile), count as nat),
            ));
            if counts_ok(old_self) {
                lemma_counts_ok_update(old_self, *self, tile);
            }
        }
    }

    /// Removes `count` copies of `tile` where that many are held; returns
    /// whether it did. Otherwise the counts are unchanged.
    pub fn try_remove(&mut self, tile: Tile, count: u8) -> (r: bool)
        requires
            old(self).wf(),
        ensures
            final(self).wf(),
            r == (!tile.spec_is_flower() && count as nat <= old(self).spec_count(tile)),
            !r ==> *final(self) == *old(self),
            r ==> final(self).spec_count(tile) == old(self).spec_count(tile) - count,
            forall|u: Tile| u != tile ==> #[trigger] final(self).spec_count(u) == old(self).spec_count(u),
            counts_ok(*old(self)) ==> counts_ok(*final(self)),
    {
        if tile.is_flower() || self.count(tile) < count {
            return false;
        }
        self.remove(tile, count);
        true
    }

    /// How many copies of `tile` are held.
    pub fn count(&self, tile: Tile) -> (r: u8)
        requires
            self.wf(),
            !tile.spec_is_flower(),
        ensures
            r as nat == self.spec_count(tile),
    {
        let (row, shift) = Self::tile_to_position(tile);
        let slot_val = (self.rows[row] >> shift as u64) & 0xF;
        proof {
            assert(row_wf(self.rows[row as int]));
            assert(is_fill(nibble(self.rows[row as int], shift as int / 4)));
            assert(4 * (shift as int / 4) == shift as int);
        }
        nibble_count(slot_val)
    }

    /// The tile stored at `shift` of row `row`.
    pub fn position_to_tile(row: usize, shift: usize) -> (r: Tile)
        requires
            row < 4,
            shift < 64,
            is_tile_id(row * 64 + shift),
        ensures
            r.spec_id() == row * 64 + shift,
            r == tile_of_id(row * 64 + shift),
    {
        let v = ((row as u8) << 6u8) | (shift as u8);
        proof {
            let rr = row as u8;
            let ss = shift as u8;
            assert(rr < 4 && ss < 64 ==> ((rr << 6u8) | ss) == rr * 64 + ss) by (bit_vector);
        }
        Tile::from_repr(v)
    }

    /// Bit `p` of the result is set iff the nibbles at `p`, `p + 4` and
    /// `p + 8` all hold at least one tile: the chows present in the row.
    pub fn find_sequences_for_row(row: u64) -> (r: u64)
        ensures
            r == row & (row >> 4u64) & (row >> 8u64),
    {
        row & (row >> 4u64) & (row >> 8u64)
    }

    /// Adds one tile at `shift` of a raw row.
    pub fn add_to_row(row: &mut u64, shift: usize)
        requires
            row_wf(*old(row)),
            shift < 64,
            shift % 4 == 0,
            row_count(*old(row), shift as int / 4) < 4,
        ensures
            row_wf(*final(row)),
            *final(row) == row_with(*old(row), shift as int / 4),
            row_count(*final(row), shift as int / 4) == row_count(*old(row), shift as int / 4) + 1,
            forall|k: int| 0 <= k < 16 && k != shift as int / 4 ==> #[trigger] nibble(*final(row), k) == nibble(*old(row), k),
    {
        let ghost r0 = *row;
        let ghost k0 = shift as int / 4;
        let slot_val = (*row >> shift as u64) & 0xF;
        proof {
            assert(4 * k0 == shift as int);
            assert(is_fill(nibble(r0, k0)));
            lemma_fill_roundtrip(slot_val);
            lemma_fill_succ(fill_count(slot_val));
        }
        let bit_to_add = slot_val + 1;
        *row = *row | (bit_to_add << shift as u64);
        proof {
            let s = shift as u64;
            lemma_mul4_and3(k0);
            lemma_or_same(r0, bit_to_add, s);
            assert forall|k: int| 0 <= k < 16 && k != k0 implies #[trigger] nibble(*row, k) == nibble(r0, k) by {
                let t = (4 * k) as u64;
                assert(t & 3 == 0 && s & 3 == 0) by {
                    lemma_mul4_and3(k);
                    lemma_mul4_and3(k0);
                }
                lemma_or_other(r0, bit_to_add, s, t);
            }
            assert forall|k: int| 0 <= k < 16 implies #[trigger] is_fill(nibble(*row, k)) by {
                assert(row_wf(r0));
                assert(is_fill(nibble(r0, k)));
            }
        }
    }

    /// Removes `count` tiles from the nibble at `shift` of a raw row.
    pub fn remove_nibble(row: &mut u64, shift: usize, count: u8)
        requires
            row_wf(*old(row)),
            shift < 64,
            shift % 4 == 0,
            count as nat <= row_count(*old(row), shift as int / 4),
        ensures
            row_wf(*final(row)),
            *final(row) == row_without(*old(row), shift as int / 4, count as nat),
    {
        let ghost r0 = *row;
        let ghost k0 = shift as int / 4;
        let slot_val = (*row >> shift as u64) & 0xF;
        proof {
            assert(4 * k0 == shift as int);
            assert(is_fill(nibble(r0, k0)));
            lemma_fill_roundtrip(slot_val);
            lemma_fill_remove(fill_count(slot_val), count as nat);
        }
        let mask = slot_val ^ (slot_val >> count as u64);
        *row = *row & !(mask << shift as u64);
        proof {
            lemma_row_without_is(r0, k0, count as nat);
        }
    }

    /// Removes one tile from each of the three nibbles starting at `shift`.
    pub fn remove_sequence_from_row(row: &mut u64, shift: usize)
        requires
            row_wf(*old(row)),
            shift + 8 < 64,
            shift % 4 == 0,
            row_count(*old(row), shift as int / 4) >= 1,
            row_count(*old(row), shift as int / 4 + 1) >= 1,
            row_count(*old(row), shift as int / 4 + 2) >= 1,
        ensures
            row_wf(*final(row)),
            *final(row) == row_without(
                row_without(row_without(*old(row), shift as int / 4, 1), shift as int / 4 + 1, 1),
                shift as int / 4 + 2,
                1,
            ),
    {
        let ghost r0 = *row;
        let ghost k = shift as int / 4;
        Self::remove_nibble(row, shift, 1);
        proof {
            lemma_row_without(r0, k, 1);
        }
        Self::remove_nibble(row, shift + 4, 1);
        proof {
            lemma_row_without(row_without(r0, k, 1), k + 1, 1);
        }
        Self::remove_nibble(row, shift + 8, 1);
    }

    /// The total number of tiles held.
    pub fn total_count(&self) -> (r: u8)
        requires
            self.wf(),
        ensures
            r as nat == self.spec_total(),
    {
        let all = Tile::iter();
        let mut total: u8 = 0;
        let mut i: usize = 0;
        while i < 34
            invariant
                i <= 34,
                all@ == super::tiles::all_tiles(),
                self.wf(),
                total as nat == self.spec_total_upto(i as int),
                total as nat <= 4 * i,
            decreases 34 - i,
        {
            let t = all[i];
            proof {
                assert(t == tile_of_dense(i as int));
                assert(row_count(self.rows[tile_row(t)], tile_nib(t)) <= 4) by {
                    assert(row_wf(self.rows[tile_row(t)]));
                    assert(is_fill(nibble(self.rows[tile_row(t)], tile_nib(t))));
                }
            }
            let c = self.count(t);
            total = total + c;
            i = i + 1;
        }
        total
    }
}

proof fn lemma_mul4_and3(k: int)
    requires
        0 <= k < 16,
    ensures
        ((4 * k) as u64) & 3 == 0,
{
    let kk = k as u64;
    assert(kk < 16 ==> ((4 * kk) as u64) & 3 == 0) by (bit_vector);
}

/// The row with one more tile at nibble `k`.
pub open spec fn row_with(row: u64, k: int) -> u64 {
    row | (((nibble(row, k) + 1) as u64) << (4 * k) as u64)
}

/// Adding a tile at nibble `k` stores one more there and keeps the other
/// nibbles.
pub proof fn lemma_row_with(row: u64, k: int)
    requires
        row_wf(row),
        0 <= k < 16,
        row_count(row, k) < 4,
    ensures
        row_wf(row_with(row, k)),
        row_count(row_with(row, k), k) == row_count(row, k) + 1,
        forall|j: int| 0 <= j < 16 && j != k ==> #[trigger] nibble(row_with(row, k), j) == nibble(row, j),
{
    let n = nibble(row, k);
    let s = (4 * k) as u64;
    let r1 = row_with(row, k);
    assert(is_fill(n));
    lemma_fill_roundtrip(n);
    lemma_fill_succ(fill_count(n));
    lemma_mul4_and3(k);
    lemma_or_same(row, (n + 1) as u64, s);
    assert forall|j: int| 0 <= j < 16 && j != k implies #[trigger] nibble(r1, j) == nibble(row, j) by {
        lemma_mul4_and3(j);
        lemma_or_other(row, (n + 1) as u64, s, (4 * j) as u64);
    }
    assert forall|j: int| 0 <= j < 16 implies #[trigger] is_fill(nibble(r1, j)) by {
        assert(is_fill(nibble(row, j)));
    }
}

/// Two rows with the same sixteen nibbles are the same row.
proof fn lemma_nibbles_eq(a: u64, b: u64)
    by (bit_vector)
    requires
        (a >> 0u64) & 0xf == (b >> 0u64) & 0xf,
        (a >> 4u64) & 0xf == (b >> 4u64) & 0xf,
        (a >> 8u64) & 0xf == (b >> 8u64) & 0xf,
        (a >> 12u64) & 0xf == (b >> 12u64) & 0xf,
        (a >> 16u64) & 0xf == (b >> 16u64) & 0xf,
        (a >> 20u64) & 0xf == (b >> 20u64) & 0xf,
        (a >> 24u64) & 0xf == (b >> 24u64) & 0xf,
        (a >> 28u64) & 0xf == (b >> 28u64) & 0xf,
        (a >> 32u64) & 0xf == (b >> 32u64) & 0xf,
        (a >> 36u64) & 0xf == (b >> 36u64) & 0xf,
        (a >> 40u64) & 0xf == (b >> 40u64) & 0xf,
        (a >> 44u64) & 0xf == (b >> 44u64) & 0xf,
        (a >> 48u64) & 0xf == (b >> 48u64) & 0xf,
        (a >> 52u64) & 0xf == (b >> 52u64) & 0xf,
        (a >> 56u64) & 0xf == (b >> 56u64) & 0xf,
        (a >> 60u64) & 0xf == (b >> 60u64) & 0xf,
    ensures
        a == b,
{
}

/// Taking out one tile just added at nibble `k` gives the row back.
pub proof fn lemma_with_without(row: u64, k: int)
    requires
        row_wf(row),
        0 <= k < 16,
        row_count(row, k) < 4,
    ensures
        row_without(row_with(row, k), k, 1) == row,
{
    lemma_row_with(row, k);
    let r1 = row_with(row, k);
    let r2 = row_without(r1, k, 1);
    lemma_row_without_is(r1, k, 1);
    assert(is_fill(nibble(row, k)));
    lemma_fill_roundtrip(nibble(row, k));
    assert(nibble(r2, k) == nibble(row, k));
    assert forall|j: int| 0 <= j < 16 implies #[trigger] nibble(r2, j) == nibble(row, j) by {
        if j != k {
            assert(nibble(r2, j) == nibble(r1, j));
        }
    }
    assert(nibble(r2, 0) == nibble(row, 0) && nibble(r2, 1) == nibble(row, 1) && nibble(r2, 2) == nibble(row, 2)
        && nibble(r2, 3) == nibble(row, 3) && nibble(r2, 4) == nibble(row, 4) && nibble(r2, 5) == nibble(row, 5)
        && nibble(r2, 6) == nibble(row, 6) && nibble(r2, 7) == nibble(row, 7) && nibble(r2, 8) == nibble(row, 8)
        && nibble(r2, 9) == nibble(row, 9) && nibble(r2, 10) == nibble(row, 10) && nibble(r2, 11) == nibble(row, 11)
        && nibble(r2, 12) == nibble(row, 12) && nibble(r2, 13) == nibble(row, 13) && nibble(r2, 14) == nibble(row, 14)
        && nibble(r2, 15) == nibble(row, 15));
    lemma_nibbles_eq(r2, row);
}

/// The row with `d` tiles fewer at nibble `k`.
pub open spec fn row_without(row: u64, k: int, d: nat) -> u64 {
    row & !(((nibble(row, k) ^ (nibble(row, k) >> d as u64))) << (4 * k) as u64)
}

/// Removing tiles from one nibble stores the smaller count there and keeps
/// every other nibble.
pub proof fn lemma_row_without(row: u64, k: int, d: nat)
    requires
        row_wf(row),
        0 <= k < 16,
        d <= row_count(row, k),
    ensures
        row_wf(row_without(row, k, d)),
        row_count(row_without(row, k, d), k) == row_count(row, k) - d,
        forall|j: int| 0 <= j < 16 && j != k ==> #[trigger] nibble(row_without(row, k, d), j) == nibble(row, j),
{
    lemma_row_without_is(row, k, d);
}

proof fn lemma_row_without_is(row: u64, k: int, d: nat)
    requires
        row_wf(row),
        0 <= k < 16,
        d <= row_count(row, k),
    ensures
        row_wf(row_without(row, k, d)),
        row_count(row_without(row, k, d), k) == row_count(row, k) - d,
        nibble(row_without(row, k, d), k) == fill((row_count(row, k) - d) as nat),
        forall|j: int| 0 <= j < 16 && j != k ==> #[trigger] nibble(row_without(row, k, d), j) == nibble(row, j),
{
    let n = nibble(row, k);
    assert(is_fill(n));
    lemma_fill_roundtrip(n);
    let c = fill_count(n);
    lemma_fill_remove(c, d);
    let m = n ^ (n >> d as u64);
    let s = (4 * k) as u64;
    let r2 = row_without(row, k, d);
    assert(s < 64);
    lemma_mul4_and3(k);
    lemma_andnot_same(row, m, s);
    assert(nibble(r2, k) == n & !m);
    assert(nibble(r2, k) == fill((c - d) as nat));
    assert forall|j: int| 0 <= j < 16 && j != k implies #[trigger] nibble(r2, j) == nibble(row, j) by {
        let t = (4 * j) as u64;
        lemma_mul4_and3(j);
        lemma_mul4_and3(k);
        lemma_andnot_other(row, m, s, t);
    }
    assert forall|j: int| 0 <= j < 16 implies #[trigger] is_fill(nibble(r2, j)) by {
        if j != k {
            assert(is_fill(nibble(row, j)));
        }
    }
}

/// A hand: the concealed tiles, the declared sets and the flowers.
#[derive(Clone, Debug)]
pub struct Hand {
    pub concealed: BitTileCounts,
    pub melds: Vec<Meld>,
    pub flower_count: u8,
}

impl Default for BitTileCounts {
    fn default() -> (r: Self)
        ensures
            r.rows@ == seq![0u64, 0u64, 0u64, 0u64],
            r.wf(),
            counts_ok(r),
            forall|t: Tile| #[trigger] r.spec_count(t) == 0,
    {
        let r = BitTileCounts { rows: [0u64, 0u64, 0u64, 0u64] };
        assert(r.rows@ =~= seq![0u64, 0u64, 0u64, 0u64]);
        proof {
            lemma_empty_counts(r);
        }
        r
    }
}

impl Default for Hand {
    fn default() -> (r: Self)
        ensures
            r.concealed.rows@ == seq![0u64, 0u64, 0u64, 0u64],
            r.concealed.wf(),
            counts_ok(r.concealed),
            forall|t: Tile| #[trigger] r.concealed.spec_count(t) == 0,
            r.melds@.len() == 0,
            r.flower_count == 0,
    {
        Hand { concealed: BitTileCounts::default(), melds: Vec::new(), flower_count: 0 }
    }
}

/// The lowest bits of three neighbouring nibbles, read through the mask of
/// sequence starts.
proof fn lemma_sequence_mask_bit(row: u64, s: u64)
    by (bit_vector)
    requires
        s <= 52,
    ensures
        ((row & (row >> 4u64) & (row >> 8u64)) >> s) & 1 == 1 <==> (((row >> s) & 0xf) & 1 == 1 && ((row
            >> (s + 4) as u64) & 0xf) & 1 == 1 && ((row >> (s + 8) as u64) & 0xf) & 1 == 1),
{
}

/// A stored count is at least one exactly where the nibble's lowest bit is
/// set.
proof fn lemma_fill_low_bit(n: u64)
    by (bit_vector)
    requires
        n == 0 || n == 1 || n == 3 || n == 7 || n == 15,
    ensures
        n & 1 == 1 <==> n != 0,
{
}

/// Bit `4k` of the mask of sequence starts is set exactly where the tiles at
/// nibbles `k`, `k + 1` and `k + 2` are all held.
pub proof fn lemma_sequence_starts(row: u64, k: int)
    requires
        row_wf(row),
        0 <= k <= 13,
    ensures
        ((row & (row >> 4u64) & (row >> 8u64)) >> (4 * k) as u64) & 1 == 1 <==> (row_count(row, k) >= 1
            && row_count(row, k + 1) >= 1 && row_count(row, k + 2) >= 1),
{
    let s = (4 * k) as u64;
    lemma_sequence_mask_bit(row, s);
    assert(is_fill(nibble(row, k)));
    assert(is_fill(nibble(row, k + 1)));
    assert(is_fill(nibble(row, k + 2)));
    lemma_fill_low_bit(nibble(row, k));
    lemma_fill_low_bit(nibble(row, k + 1));
    lemma_fill_low_bit(nibble(row, k + 2));
    assert((s + 4) as u64 == (4 * (k + 1)) as u64);
    assert((s + 8) as u64 == (4 * (k + 2)) as u64);
}

/// The row and the shift of a tile name the tile back.
pub proof fn lemma_position_roundtrip(t: Tile)
    requires
        !t.spec_is_flower(),
    ensures
        is_tile_id(tile_row(t) * 64 + t.spec_id() % 64),
        tile_of_id(tile_row(t) * 64 + t.spec_id() % 64) == t,
{
    lemma_tile_id_roundtrip(t);
}

/// Removing one copy of a tile just inserted gives back the rows as they
/// were.
pub proof fn lemma_insert_then_remove(rows: Seq<u64>, t: Tile)
    requires
        rows.len() == 4,
        forall|i: int| 0 <= i < 4 ==> #[trigger] row_wf(rows[i]),
        !t.spec_is_flower(),
        row_count(rows[tile_row(t)], tile_nib(t)) < 4,
    ensures
        ({
            let added = rows.update(tile_row(t), row_with(rows[tile_row(t)], tile_nib(t)));
            added.update(tile_row(t), row_without(added[tile_row(t)], tile_nib(t), 1))
        }) == rows,
{
    lemma_tile_id_roundtrip(t);
    let r = tile_row(t);
    assert(0 <= r < 4);
    assert(row_wf(rows[r]));
    lemma_with_without(rows[r], tile_nib(t));
    let added = rows.update(r, row_with(rows[r], tile_nib(t)));
    assert(added.update(r, row_without(added[r], tile_nib(t), 1)) =~= rows);
}

/// The empty counts are well formed and hold nothing.
pub proof fn lemma_empty_counts(b: BitTileCounts)
    requires
        b.rows@ == seq![0u64, 0u64, 0u64, 0u64],
    ensures
        b.wf(),
        counts_ok(b),
        forall|t: Tile| #[trigger] b.spec_count(t) == 0,
{
    assert forall|k: int| 0 <= k < 16 implies #[trigger] nibble(0u64, k) == 0 by {
        let s = (4 * k) as u64;
        assert((0u64 >> s) & 0xf == 0) by (bit_vector);
    }
    assert forall|i: int| 0 <= i < 4 implies #[trigger] row_wf(b.rows[i]) by {
        assert(b.rows[i] == 0);
        assert forall|k: int| 0 <= k < 16 implies #[trigger] is_fill(nibble(b.rows[i], k)) by {
            assert(nibble(0u64, k) == 0);
        }
    }
    assert forall|i: int, k: int| 0 <= i < 4 && 0 <= k < 16 implies #[trigger] row_count(b.rows[i], k) == 0 by {
        assert(b.rows[i] == 0);
        assert(nibble(0u64, k) == 0);
    }
    assert(row_ok(b.rows[0], 0));
    assert(row_ok(b.rows[1], 1));
    assert(row_ok(b.rows[2], 2));
    assert forall|t: Tile| #[trigger] b.spec_count(t) == 0 by {
        lemma_tile_id_roundtrip(t);
        assert(b.rows[tile_row(t)] == 0);
        assert(nibble(0u64, tile_nib(t)) == 0);
    }
}

} // verus!
