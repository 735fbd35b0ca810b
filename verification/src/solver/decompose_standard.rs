//! Standard decompositions of the concealed tiles: sets and one pair.

use vstd::prelude::*;
use vstd::multiset::*;
use vstd::seq_lib::*;

use crate::solver::decomposition::{
    lemma_meld_tiles_count, lemma_sets_count_concat, lemma_sets_count_one, set_ok, sets_count,
};
use crate::structs::hand::{
    lemma_row_without, nibble, nibble_count, row_count, row_without, row_wf, tile_nib, tile_row,
    is_fill,
};
pub use crate::structs::hand::{counts_ok, row_ok};
use crate::structs::tiles::{is_tile_id, lemma_tile_id_roundtrip, tile_of_id};
use crate::structs::sets::lemma_meld_eq;
use crate::structs::{BitTileCounts, Meld, Sequence, Tile, Triplet};
use crate::solver::completeness::{
    lemma_hand_parts, row_less_pair, sets_of_row, lemma_lowest_set, lemma_put_back, lemma_remove_chow, lemma_remove_pung, lemma_sets_count_remove,
};

verus! {

// ── Rows of counts ───────────────────────────────────────────────

/// The number of tiles in the first `k` nibbles of the row.
pub open spec fn row_total_upto(row: u64, k: int) -> nat
    decreases k,
{
    if k <= 0 {
        0
    } else {
        row_total_upto(row, k - 1) + row_count(row, k - 1)
    }
}

/// The number of tiles in the row.
pub open spec fn row_total(row: u64) -> nat {
    row_total_upto(row, 16)
}

/// The tile at nibble `k` of row `ri`.
pub open spec fn tile_at(ri: int, k: int) -> Tile {
    tile_of_id(ri * 64 + 4 * k)
}

/// `d` is made of concealed pungs and chows (each chow inside the suit)
/// holding exactly the tiles of the row `row` of index `ri`.
pub open spec fn row_sound(row: u64, ri: int, d: Seq<Meld>) -> bool {
    &&& forall|t: Tile| #![trigger sets_count(d, t)]
        !t.spec_is_flower() ==> sets_count(d, t) == if tile_row(t) == ri {
            row_count(row, tile_nib(t))
        } else {
            0
        }
    &&& forall|i: int| 0 <= i < d.len() ==> (#[trigger] d[i]).spec_concealed() && !(d[i] is Kong) && set_ok(d[i])
}

/// `o` is the path `p` followed by a sound decomposition of the row.
pub open spec fn extends_sound(o: Seq<Meld>, p: Seq<Meld>, row: u64, ri: int) -> bool {
    &&& o.len() >= p.len()
    &&& o.subrange(0, p.len() as int) == p
    &&& row_sound(row, ri, o.skip(p.len() as int))
}

/// Taking `d` tiles from nibble `k` takes them from the total.
proof fn lemma_total_without(row: u64, k: int, d: nat, n: int)
    requires
        row_wf(row),
        0 <= k < 16,
        0 <= n <= 16,
        d <= row_count(row, k),
    ensures
        row_total_upto(row_without(row, k, d), n) == row_total_upto(row, n) - if k < n {
            d as int
        } else {
            0
        },
    decreases n,
{
    lemma_row_without(row, k, d);
    if n > 0 {
        lemma_total_without(row, k, d, n - 1);
        if n - 1 != k {
            assert(nibble(row_without(row, k, d), n - 1) == nibble(row, n - 1));
        }
    }
}

/// A nibble that stores no tile is zero.
proof fn lemma_count_zero(row: u64, k: int)
    requires
        row_wf(row),
        0 <= k < 16,
    ensures
        row_count(row, k) == 0 <==> nibble(row, k) == 0,
{
    assert(is_fill(nibble(row, k)));
}

/// A row whose nibbles are all zero is zero.
proof fn lemma_zero_row(row: u64)
    by (bit_vector)
    requires
        (row >> 0u64) & 0xf == 0,
        (row >> 4u64) & 0xf == 0,
        (row >> 8u64) & 0xf == 0,
        (row >> 12u64) & 0xf == 0,
        (row >> 16u64) & 0xf == 0,
        (row >> 20u64) & 0xf == 0,
        (row >> 24u64) & 0xf == 0,
        (row >> 28u64) & 0xf == 0,
        (row >> 32u64) & 0xf == 0,
        (row >> 36u64) & 0xf == 0,
        (row >> 40u64) & 0xf == 0,
        (row >> 44u64) & 0xf == 0,
        (row >> 48u64) & 0xf == 0,
        (row >> 52u64) & 0xf == 0,
        (row >> 56u64) & 0xf == 0,
        (row >> 60u64) & 0xf == 0,
    ensures
        row == 0,
{
}

/// The count stored at nibble `k`.
fn count_at(row: u64, k: usize) -> (c: u8)
    requires
        row_wf(row),
        k < 16,
    ensures
        c == row_count(row, k as int),
        c <= 4,
{
    let n = (row >> (4 * k) as u64) & 0xf;
    proof {
        assert(n == nibble(row, k as int));
        assert(is_fill(n));
    }
    nibble_count(n)
}

/// The lowest nibble that holds a tile.
fn lowest_nibble(row: u64) -> (k: usize)
    requires
        row_wf(row),
        row != 0,
    ensures
        k < 16,
        row_count(row, k as int) > 0,
        forall|j: int| 0 <= j < k ==> #[trigger] row_count(row, j) == 0,
{
    let mut k: usize = 0;
    while k < 16
        invariant
            k <= 16,
            row_wf(row),
            row != 0,
            forall|j: int| 0 <= j < k ==> #[trigger] row_count(row, j) == 0,
        decreases 16 - k,
    {
        if count_at(row, k) > 0 {
            return k;
        }
        k = k + 1;
    }
    proof {
        assert forall|j: int| 0 <= j < 16 implies nibble(row, j) == 0 by {
            lemma_count_zero(row, j);
            assert(row_count(row, j) == 0);
        }
        assert(nibble(row, 0) == 0 && nibble(row, 1) == 0 && nibble(row, 2) == 0 && nibble(row, 3)
            == 0 && nibble(row, 4) == 0 && nibble(row, 5) == 0 && nibble(row, 6) == 0 && nibble(
            row,
            7,
        ) == 0 && nibble(row, 8) == 0 && nibble(row, 9) == 0 && nibble(row, 10) == 0 && nibble(
            row,
            11,
        ) == 0 && nibble(row, 12) == 0 && nibble(row, 13) == 0 && nibble(row, 14) == 0 && nibble(
            row,
            15,
        ) == 0);
        lemma_zero_row(row);
    }
    0
}

/// The tiles of row `ri` are the tiles at its nibbles.
pub proof fn lemma_tile_at(t: Tile, ri: int, k: int)
    requires
        !t.spec_is_flower(),
        0 <= ri < 4,
        0 <= k < 16,
        is_tile_id(ri * 64 + 4 * k),
    ensures
        (t == tile_at(ri, k)) <==> (tile_row(t) == ri && tile_nib(t) == k),
        tile_row(tile_at(ri, k)) == ri,
        tile_nib(tile_at(ri, k)) == k,
        tile_at(ri, k).spec_id() == ri * 64 + 4 * k,
{
    lemma_tile_id_roundtrip(t);
}

/// Removing the tiles of a pung at nibble `k` and putting the pung in front
/// of a sound decomposition of what is left decomposes the row.
proof fn lemma_sound_pung(row: u64, ri: int, k: int, rest: Seq<Meld>, m: Meld)
    requires
        row_ok(row, ri),
        0 <= ri < 3,
        0 <= k < 16,
        row_count(row, k) >= 3,
        m is Pung,
        m.spec_tile() == tile_at(ri, k),
        m.spec_concealed(),
        row_sound(row_without(row, k, 3), ri, rest),
    ensures
        row_sound(row, ri, seq![m] + rest),
{
    lemma_row_without(row, k, 3);
    let next = row_without(row, k, 3);
    assert forall|t: Tile| !t.spec_is_flower() implies sets_count(seq![m] + rest, t) == if tile_row(t)
        == ri {
        row_count(row, tile_nib(t))
    } else {
        0
    } by {
        lemma_sets_count_concat(seq![m], rest, t);
        lemma_sets_count_one(m, t);
        lemma_meld_tiles_count(m, t);
        lemma_tile_at(t, ri, k);
        assert(sets_count(rest, t) == if tile_row(t) == ri {
            row_count(next, tile_nib(t))
        } else {
            0
        });
        if tile_row(t) == ri && tile_nib(t) != k {
            lemma_tile_id_roundtrip(t);
            assert(0 <= tile_nib(t) < 16);
            assert(nibble(next, tile_nib(t)) == nibble(row, tile_nib(t)));
        }
    }
    assert forall|i: int| 0 <= i < (seq![m] + rest).len() implies (#[trigger] (seq![m] + rest)[i]).spec_concealed()
        && !((seq![m] + rest)[i] is Kong) by {
        if i > 0 {
            assert((seq![m] + rest)[i] == rest[i - 1]);
        }
    }
}

/// Removing the tiles of a chow starting at nibble `k` and putting the chow
/// in front of a sound decomposition of what is left decomposes the row.
proof fn lemma_sound_chow(row: u64, ri: int, k: int, rest: Seq<Meld>, m: Meld)
    requires
        row_ok(row, ri),
        0 <= ri < 3,
        0 <= k,
        k + 2 < 16,
        is_tile_id(ri * 64 + 4 * k),
        is_tile_id(ri * 64 + 4 * (k + 1)),
        is_tile_id(ri * 64 + 4 * (k + 2)),
        row_count(row, k) >= 1,
        row_count(row, k + 1) >= 1,
        row_count(row, k + 2) >= 1,
        m is Chow,
        m.spec_tile() == tile_at(ri, k),
        m.spec_concealed(),
        row_sound(
            row_without(row_without(row_without(row, k, 1), k + 1, 1), k + 2, 1),
            ri,
            rest,
        ),
    ensures
        row_sound(row, ri, seq![m] + rest),
{
    let r1 = row_without(row, k, 1);
    let r2 = row_without(r1, k + 1, 1);
    let r3 = row_without(r2, k + 2, 1);
    lemma_row_without(row, k, 1);
    assert(nibble(r1, k + 1) == nibble(row, k + 1));
    lemma_row_without(r1, k + 1, 1);
    assert(nibble(r2, k + 2) == nibble(r1, k + 2));
    assert(nibble(r1, k + 2) == nibble(row, k + 2));
    lemma_row_without(r2, k + 2, 1);
    let start = tile_at(ri, k);
    assert(start.spec_next() == tile_at(ri, k + 1));
    assert(start.spec_next().spec_next() == tile_at(ri, k + 2)) by {
        lemma_tile_at(start, ri, k);
        lemma_tile_at(tile_at(ri, k + 1), ri, k + 1);
    }
    assert forall|t: Tile| !t.spec_is_flower() implies sets_count(seq![m] + rest, t) == if tile_row(t)
        == ri {
        row_count(row, tile_nib(t))
    } else {
        0
    } by {
        lemma_sets_count_concat(seq![m], rest, t);
        lemma_sets_count_one(m, t);
        lemma_meld_tiles_count(m, t);
        lemma_tile_at(t, ri, k);
        lemma_tile_at(t, ri, k + 1);
        lemma_tile_at(t, ri, k + 2);
        lemma_tile_id_roundtrip(t);
        assert(sets_count(rest, t) == if tile_row(t) == ri {
            row_count(r3, tile_nib(t))
        } else {
            0
        });
        if tile_row(t) == ri {
            let j = tile_nib(t);
            assert(0 <= j < 16);
            if j != k && j != k + 1 && j != k + 2 {
                assert(nibble(r3, j) == nibble(r2, j));
                assert(nibble(r2, j) == nibble(r1, j));
                assert(nibble(r1, j) == nibble(row, j));
            } else if j == k {
                assert(nibble(r3, j) == nibble(r2, j));
                assert(nibble(r2, j) == nibble(r1, j));
            } else if j == k + 1 {
                assert(nibble(r3, j) == nibble(r2, j));
            }
        }
    }
    assert forall|i: int| 0 <= i < (seq![m] + rest).len() implies (#[trigger] (seq![m] + rest)[i]).spec_concealed()
        && !((seq![m] + rest)[i] is Kong) by {
        if i > 0 {
            assert((seq![m] + rest)[i] == rest[i - 1]);
        }
    }
}

/// Removing tiles keeps the row well stored and on its tiles.
pub proof fn lemma_row_ok_without(row: u64, ri: int, k: int, d: nat)
    requires
        row_ok(row, ri),
        0 <= k < 16,
        d <= row_count(row, k),
    ensures
        row_ok(row_without(row, k, d), ri),
{
    lemma_row_without(row, k, d);
    let next = row_without(row, k, d);
    assert forall|j: int| 0 <= j < 16 && !is_tile_id(ri * 64 + 4 * j) implies #[trigger] row_count(next, j) == 0 by {
        assert(row_count(row, j) == 0);
        if j != k {
            assert(nibble(next, j) == nibble(row, j));
        }
    }
}

/// The empty row is decomposed by no set at all.
proof fn lemma_sound_empty(ri: int)
    ensures
        row_sound(0, ri, Seq::<Meld>::empty()),
{
    assert forall|t: Tile| !t.spec_is_flower() implies sets_count(Seq::<Meld>::empty(), t) == if tile_row(t)
        == ri {
        row_count(0, tile_nib(t))
    } else {
        0
    } by {
        if tile_row(t) == ri {
            let s = (4 * tile_nib(t)) as u64;
            assert((0u64 >> s) & 0xf == 0) by (bit_vector);
        }
    }
}

/// Nothing decomposes the empty row but no set at all.
proof fn lemma_sound_zero(ri: int, d: Seq<Meld>)
    requires
        row_sound(0, ri, d),
    ensures
        d.len() == 0,
{
    if d.len() > 0 {
        lemma_sound_empty(ri);
        let m = d[0];
        let t = m.spec_tile();
        assert(set_ok(m));
        lemma_meld_tiles_count(m, t);
        lemma_sets_count_remove(d, 0, t);
        assert(sets_count(Seq::<Meld>::empty(), t) == 0);
        assert(false);
    }
}

/// A copy of a list of sets.
pub fn copy_melds(v: &Vec<Meld>) -> (r: Vec<Meld>)
    ensures
        r@ == v@,
{
    let mut r: Vec<Meld> = Vec::new();
    let mut i: usize = 0;
    while i < v.len()
        invariant
            i <= v@.len(),
            r@ == v@.subrange(0, i as int),
        decreases v@.len() - i,
    {
        r.push(v[i]);
        i = i + 1;
    }
    assert(r@ == v@);
    r
}

/// Some output from `lo` to `hi`, past its first `p` sets, holds the sets of
/// `d` in some order.
pub open spec fn found_among(out: Seq<Vec<Meld>>, lo: int, hi: int, p: int, d: Seq<Meld>) -> bool {
    exists|i: int| lo <= i < hi && #[trigger] out[i]@.skip(p).to_multiset() == d.to_multiset()
}

/// An output found stays found while outputs are only added.
proof fn lemma_found_grow(
    a: Seq<Vec<Meld>>,
    b: Seq<Vec<Meld>>,
    lo: int,
    hi: int,
    lo2: int,
    hi2: int,
    p: int,
    d: Seq<Meld>,
)
    requires
        found_among(a, lo, hi, p, d),
        0 <= lo,
        hi <= a.len() <= b.len(),
        lo2 <= lo,
        hi <= hi2,
        forall|i: int| 0 <= i < a.len() ==> #[trigger] b[i] == a[i],
    ensures
        found_among(b, lo2, hi2, p, d),
{
    let i = choose|i: int| lo <= i < hi && #[trigger] a[i]@.skip(p).to_multiset() == d.to_multiset();
    assert(b[i] == a[i]);
}

// ── Suit solver ──────────────────────────────────────────────────

/// An output that begins with `p0` and one more set `m` begins with `p0`,
/// and past `p0` holds `m` and then what follows.
proof fn lemma_prefix_step(o: Seq<Meld>, p0: Seq<Meld>, p1: Seq<Meld>, m: Meld)
    requires
        o.len() >= p1.len(),
        o.subrange(0, p1.len() as int) == p1,
        p1 == p0.push(m),
    ensures
        o.subrange(0, p0.len() as int) == p0,
        o.skip(p0.len() as int) == seq![m] + o.skip(p1.len() as int),
{
    assert(p1[p0.len() as int] == m);
    assert(o[p0.len() as int] == o.subrange(0, p1.len() as int)[p0.len() as int]);
    assert(o.subrange(0, p0.len() as int) =~= o.subrange(0, p1.len() as int).subrange(0, p0.len() as int));
    assert(o.skip(p0.len() as int) =~= seq![m] + o.skip(p1.len() as int));
}

/// What the search finds after taking a pung of the lowest tile decomposes
/// the row, and covers every decomposition holding that pung.
proof fn lemma_branch_pung(
    row: u64,
    ri: int,
    k: int,
    next: u64,
    m: Meld,
    p0: Seq<Meld>,
    p1: Seq<Meld>,
    lo: int,
    outv: Seq<Vec<Meld>>,
)
    requires
        row_ok(row, ri),
        0 <= ri < 3,
        0 <= k < 16,
        is_tile_id(ri * 64 + 4 * k),
        row_count(row, k) >= 3,
        next == row_without(row, k, 3),
        m is Pung,
        m.spec_tile() == tile_at(ri, k),
        m.spec_concealed(),
        p1 == p0.push(m),
        0 <= lo <= outv.len(),
        forall|i: int| lo <= i < outv.len() ==> extends_sound(#[trigger] outv[i]@, p1, next, ri),
        forall|d: Seq<Meld>| #[trigger] row_sound(next, ri, d) ==> found_among(outv, lo, outv.len() as int, p1.len() as int, d),
    ensures
        forall|i: int| lo <= i < outv.len() ==> extends_sound(#[trigger] outv[i]@, p0, row, ri),
        forall|d: Seq<Meld>|
            row_sound(row, ri, d) && #[trigger] has_pung_of(d, tile_at(ri, k)) ==> found_among(
                outv,
                lo,
                outv.len() as int,
                p0.len() as int,
                d,
            ),
{
    assert forall|i: int| lo <= i < outv.len() implies extends_sound(#[trigger] outv[i]@, p0, row, ri) by {
        let o = outv[i]@;
        lemma_prefix_step(o, p0, p1, m);
        lemma_sound_pung(row, ri, k, o.skip(p1.len() as int), m);
    }
    assert forall|d: Seq<Meld>| row_sound(row, ri, d) && #[trigger] has_pung_of(d, tile_at(ri, k)) implies found_among(
        outv,
        lo,
        outv.len() as int,
        p0.len() as int,
        d,
    ) by {
        let j = choose|j: int| 0 <= j < d.len() && #[trigger] d[j] is Pung && d[j].spec_tile() == tile_at(ri, k);
        lemma_remove_pung(row, ri, d, j, k);
        let e = d.remove(j);
        assert(row_sound(next, ri, e));
        let i = choose|i: int|
            lo <= i < outv.len() && #[trigger] outv[i]@.skip(p1.len() as int).to_multiset() == e.to_multiset();
        lemma_meld_eq(d[j], m);
        lemma_prefix_step(outv[i]@, p0, p1, m);
        lemma_put_back(m, outv[i]@.skip(p1.len() as int), d, j);
        assert(outv[i]@.skip(p0.len() as int).to_multiset() == d.to_multiset());
    }
}

/// What the search finds after taking a chow from the lowest tile
/// decomposes the row, and covers every decomposition holding that chow.
proof fn lemma_branch_chow(
    row: u64,
    ri: int,
    k: int,
    next: u64,
    m: Meld,
    p0: Seq<Meld>,
    p1: Seq<Meld>,
    lo: int,
    outv: Seq<Vec<Meld>>,
)
    requires
        row_ok(row, ri),
        0 <= ri < 3,
        0 <= k,
        k + 2 < 16,
        is_tile_id(ri * 64 + 4 * k),
        is_tile_id(ri * 64 + 4 * (k + 1)),
        is_tile_id(ri * 64 + 4 * (k + 2)),
        row_count(row, k) >= 1,
        row_count(row, k + 1) >= 1,
        row_count(row, k + 2) >= 1,
        next == row_without(row_without(row_without(row, k, 1), k + 1, 1), k + 2, 1),
        m is Chow,
        m.spec_tile() == tile_at(ri, k),
        m.spec_concealed(),
        p1 == p0.push(m),
        0 <= lo <= outv.len(),
        forall|i: int| lo <= i < outv.len() ==> extends_sound(#[trigger] outv[i]@, p1, next, ri),
        forall|d: Seq<Meld>| #[trigger] row_sound(next, ri, d) ==> found_among(outv, lo, outv.len() as int, p1.len() as int, d),
    ensures
        forall|i: int| lo <= i < outv.len() ==> extends_sound(#[trigger] outv[i]@, p0, row, ri),
        forall|d: Seq<Meld>|
            row_sound(row, ri, d) && #[trigger] has_chow_from(d, tile_at(ri, k)) ==> found_among(
                outv,
                lo,
                outv.len() as int,
                p0.len() as int,
                d,
            ),
{
    assert forall|i: int| lo <= i < outv.len() implies extends_sound(#[trigger] outv[i]@, p0, row, ri) by {
        let o = outv[i]@;
        lemma_prefix_step(o, p0, p1, m);
        lemma_sound_chow(row, ri, k, o.skip(p1.len() as int), m);
    }
    assert forall|d: Seq<Meld>| row_sound(row, ri, d) && #[trigger] has_chow_from(d, tile_at(ri, k)) implies found_among(
        outv,
        lo,
        outv.len() as int,
        p0.len() as int,
        d,
    ) by {
        let j = choose|j: int| 0 <= j < d.len() && #[trigger] d[j] is Chow && d[j].spec_tile() == tile_at(ri, k);
        lemma_remove_chow(row, ri, d, j, k);
        let e = d.remove(j);
        assert(row_sound(next, ri, e));
        let i = choose|i: int|
            lo <= i < outv.len() && #[trigger] outv[i]@.skip(p1.len() as int).to_multiset() == e.to_multiset();
        lemma_meld_eq(d[j], m);
        lemma_prefix_step(outv[i]@, p0, p1, m);
        lemma_put_back(m, outv[i]@.skip(p1.len() as int), d, j);
        assert(outv[i]@.skip(p0.len() as int).to_multiset() == d.to_multiset());
    }
}

/// The sets hold a pung of `t`.
pub open spec fn has_pung_of(d: Seq<Meld>, t: Tile) -> bool {
    exists|j: int| 0 <= j < d.len() && #[trigger] d[j] is Pung && d[j].spec_tile() == t
}

/// The sets hold a chow starting at `t`.
pub open spec fn has_chow_from(d: Seq<Meld>, t: Tile) -> bool {
    exists|j: int| 0 <= j < d.len() && #[trigger] d[j] is Chow && d[j].spec_tile() == t
}

/// The place of a set in the order of a listing: honors first, then the
/// suits in order, each by rank.
pub open spec fn set_key(m: Meld) -> int {
    if tile_row(m.spec_tile()) == 3 {
        m.spec_tile().spec_id() - 192
    } else {
        m.spec_tile().spec_id() + 64
    }
}

/// The sets come in that order.
pub open spec fn keys_sorted(s: Seq<Meld>) -> bool {
    forall|a: int, b: int| 0 <= a < b < s.len() ==> set_key(#[trigger] s[a]) <= set_key(#[trigger] s[b])
}

/// After its first `n` sets, `o` is in order, and each of those sets starts
/// at a tile that the row holds.
pub open spec fn tail_ok(o: Seq<Meld>, n: int, row: u64) -> bool {
    &&& keys_sorted(o.skip(n))
    &&& forall|q: int| n <= q < o.len() ==> row_count(row, tile_nib(#[trigger] o[q].spec_tile())) > 0
}

/// A set at the lowest tile of the row, followed by an ordered split of what
/// is left, is in order.
proof fn lemma_tail_step(row: u64, next: u64, ri: int, k: int, m: Meld, p0: Seq<Meld>, o: Seq<Meld>)
    requires
        0 <= ri < 3,
        0 <= k < 16,
        m.spec_tile().spec_id() == ri * 64 + 4 * k,
        row_count(row, k) > 0,
        forall|j: int| 0 <= j < k ==> #[trigger] row_count(row, j) == 0,
        forall|j: int| 0 <= j < 16 ==> #[trigger] row_count(next, j) <= row_count(row, j),
        extends_sound(o, p0.push(m), next, ri),
        tail_ok(o, p0.len() + 1int, next),
    ensures
        tail_ok(o, p0.len() as int, row),
{
    let n = p0.len() as int;
    lemma_first_after(o, p0, m, next, ri);
    let rest = o.skip(n + 1);
    lemma_sound_in_row(next, ri, rest);
    assert(tile_row(m.spec_tile()) == ri);
    assert forall|q: int| n <= q < o.len() implies row_count(row, tile_nib(#[trigger] o[q].spec_tile())) > 0 by {
        if q > n {
            let j = tile_nib(o[q].spec_tile());
            assert(0 <= j < 16);
            assert(row_count(next, j) > 0);
        } else {
            assert(o[q] == m);
            assert(tile_nib(m.spec_tile()) == k);
        }
    }
    let t = o.skip(n);
    assert forall|a: int, b: int| 0 <= a < b < t.len() implies set_key(#[trigger] t[a]) <= set_key(#[trigger] t[b]) by {
        assert(t[b] == rest[b - 1]);
        assert(tile_row(rest[b - 1].spec_tile()) == ri);
        if a == 0 {
            assert(t[0] == m);
            let x = rest[b - 1].spec_tile();
            let j = tile_nib(x);
            assert(o[n + 1 + (b - 1)] == rest[b - 1]);
            assert(row_count(next, j) > 0);
            assert(0 <= j < 16);
            if j < k {
                assert(row_count(row, j) == 0);
            }
            assert(x.spec_id() >= 64 * ri + 4 * j);
        } else {
            assert(t[a] == rest[a - 1]);
            assert(set_key(rest[a - 1]) <= set_key(rest[b - 1]));
        }
    }
}

/// The same, for every split added from `lo` on.
proof fn lemma_tails_step(row: u64, next: u64, ri: int, k: int, m: Meld, p0: Seq<Meld>, outv: Seq<Vec<Meld>>, lo: int)
    requires
        0 <= ri < 3,
        0 <= k < 16,
        m.spec_tile().spec_id() == ri * 64 + 4 * k,
        row_count(row, k) > 0,
        forall|j: int| 0 <= j < k ==> #[trigger] row_count(row, j) == 0,
        forall|j: int| 0 <= j < 16 ==> #[trigger] row_count(next, j) <= row_count(row, j),
        forall|i: int| lo <= i < outv.len() ==> extends_sound(#[trigger] outv[i]@, p0.push(m), next, ri),
        forall|i: int| lo <= i < outv.len() ==> tail_ok(#[trigger] outv[i]@, p0.len() + 1int, next),
    ensures
        forall|i: int| lo <= i < outv.len() ==> tail_ok(#[trigger] outv[i]@, p0.len() as int, row),
{
    assert forall|i: int| lo <= i < outv.len() implies tail_ok(#[trigger] outv[i]@, p0.len() as int, row) by {
        lemma_tail_step(row, next, ri, k, m, p0, outv[i]@);
    }
}

/// Taking tiles from nibble `k` lowers no count.
proof fn lemma_pung_counts(row: u64, k: int, d: nat)
    requires
        row_wf(row),
        0 <= k < 16,
        d <= row_count(row, k),
    ensures
        forall|j: int| 0 <= j < 16 ==> #[trigger] row_count(row_without(row, k, d), j) <= row_count(row, j),
{
    lemma_row_without(row, k, d);
    assert forall|j: int| 0 <= j < 16 implies #[trigger] row_count(row_without(row, k, d), j) <= row_count(row, j) by {
        if j != k {
            assert(nibble(row_without(row, k, d), j) == nibble(row, j));
        }
    }
}

/// Taking a chow from nibble `k` lowers no count and keeps every nibble but
/// the three of the chow; at `k` one tile fewer.
proof fn lemma_chow_counts(row: u64, k: int)
    requires
        row_wf(row),
        0 <= k,
        k + 2 < 16,
        row_count(row, k) >= 1,
        row_count(row, k + 1) >= 1,
        row_count(row, k + 2) >= 1,
    ensures
        ({
            let next = row_without(row_without(row_without(row, k, 1), k + 1, 1), k + 2, 1);
            &&& forall|j: int| 0 <= j < 16 ==> #[trigger] row_count(next, j) <= row_count(row, j)
            &&& row_count(next, k) < row_count(row, k)
            &&& forall|j: int| 0 <= j < 16 && j != k && j != k + 1 && j != k + 2 ==> #[trigger] nibble(next, j) == nibble(row, j)
        }),
{
    let r1 = row_without(row, k, 1);
    lemma_row_without(row, k, 1);
    assert(nibble(r1, k + 1) == nibble(row, k + 1));
    assert(nibble(r1, k + 2) == nibble(row, k + 2));
    let r2 = row_without(r1, k + 1, 1);
    lemma_row_without(r1, k + 1, 1);
    assert(nibble(r2, k + 2) == nibble(r1, k + 2));
    assert(nibble(r2, k) == nibble(r1, k));
    let next = row_without(r2, k + 2, 1);
    lemma_row_without(r2, k + 2, 1);
    assert(nibble(next, k) == nibble(r2, k));
    assert(nibble(next, k + 1) == nibble(r2, k + 1));
    assert forall|j: int| 0 <= j < 16 implies #[trigger] row_count(next, j) <= row_count(row, j) by {
        if j != k + 2 {
            assert(nibble(next, j) == nibble(r2, j));
        }
        if j != k + 1 {
            assert(nibble(r2, j) == nibble(r1, j));
        }
        if j != k {
            assert(nibble(r1, j) == nibble(row, j));
        }
    }
}

/// A split after `p0.push(m)` holds `m` right after `p0`.
proof fn lemma_first_after(o: Seq<Meld>, p0: Seq<Meld>, m: Meld, row: u64, ri: int)
    requires
        extends_sound(o, p0.push(m), row, ri),
    ensures
        o.len() > p0.len(),
        o[p0.len() as int] == m,
{
    let p1 = p0.push(m);
    assert(o.subrange(0, p1.len() as int)[p0.len() as int] == o[p0.len() as int]);
    assert(p1[p0.len() as int] == m);
}

/// Depth-first search over the ways to split the row into pungs and chows,
/// always taking the lowest tile first: a pung of it, then a chow from it.
/// Each complete split, after `path`, is added to `out`; every split of the
/// row is among them, its sets in some order.
#[verifier::spinoff_prover]
fn dfs_decompose(row: u64, row_idx: usize, path: &mut Vec<Meld>, out: &mut Vec<Vec<Meld>>)
    requires
        row_idx < 3,
        row_ok(row, row_idx as int),
    ensures
        final(path)@ == old(path)@,
        old(out)@.len() <= final(out)@.len(),
        forall|i: int| 0 <= i < old(out)@.len() ==> #[trigger] final(out)@[i] == old(out)@[i],
        forall|i: int|
            old(out)@.len() <= i < final(out)@.len() ==> extends_sound(
                #[trigger] final(out)@[i]@,
                old(path)@,
                row,
                row_idx as int,
            ),
        forall|d: Seq<Meld>|
            #[trigger] row_sound(row, row_idx as int, d) ==> found_among(
                final(out)@,
                old(out)@.len() as int,
                final(out)@.len() as int,
                old(path)@.len() as int,
                d,
            ),
        forall|i: int, j: int|
            old(out)@.len() <= i < j < final(out)@.len() ==> #[trigger] final(out)@[i]@ != #[trigger] final(out)@[j]@,
        forall|i: int|
            old(out)@.len() <= i < final(out)@.len() ==> tail_ok(#[trigger] final(out)@[i]@, old(path)@.len() as int, row),
    decreases row_total(row),
{
    let ghost ri = row_idx as int;
    let ghost p0 = path@;
    let ghost out0 = out@;
    if row == 0 {
        let copy = copy_melds(path);
        out.push(copy);
        proof {
            assert(tail_ok(out@[out0.len() as int]@, p0.len() as int, row)) by {
                assert(copy@.skip(p0.len() as int).len() == 0);
            }
            lemma_sound_empty(ri);
            assert(copy@.skip(p0.len() as int) == Seq::<Meld>::empty());
            assert(copy@.subrange(0, p0.len() as int) == p0);
            assert forall|d: Seq<Meld>| #[trigger] row_sound(row, ri, d) implies found_among(
                out@,
                out0.len() as int,
                out@.len() as int,
                p0.len() as int,
                d,
            ) by {
                lemma_sound_zero(ri, d);
                assert(d == Seq::<Meld>::empty());
                assert(out@[out0.len() as int]@.skip(p0.len() as int) == Seq::<Meld>::empty());
                assert(out@[out0.len() as int]@.skip(p0.len() as int).to_multiset() == d.to_multiset());
            }
        }
        return;
    }
    let k = lowest_nibble(row);
    let shift = 4 * k;
    proof {
        assert(is_tile_id(ri * 64 + 4 * k));
        lemma_tile_at(Tile::Character1, ri, k as int);
    }
    let ghost tk = tile_at(ri, k as int);
    let c = count_at(row, k);
    // A pung of the lowest tile.
    if c >= 3 {
        let tile = BitTileCounts::position_to_tile(row_idx, shift);
        proof {
            lemma_tile_id_roundtrip(tile);
        }
        let m = Meld::Pung(Triplet::new(tile, true));
        path.push(m);
        let mut next = row;
        BitTileCounts::remove_nibble(&mut next, shift, 3);
        proof {
            assert(shift as int / 4 == k);
            lemma_row_ok_without(row, ri, k as int, 3);
            lemma_total_without(row, k as int, 3, 16);
        }
        let ghost out1 = out@;
        let ghost p1 = path@;
        dfs_decompose(next, row_idx, path, out);
        proof {
            lemma_branch_pung(row, ri, k as int, next, m, p0, p1, out1.len() as int, out@);
            lemma_pung_counts(row, k as int, 3);
            lemma_tails_step(row, next, ri, k as int, m, p0, out@, out1.len() as int);
            assert forall|i: int| out1.len() <= i < out@.len() implies (#[trigger] out@[i]@).len() > p0.len()
                && out@[i]@[p0.len() as int] is Pung by {
                lemma_first_after(out@[i]@, p0, m, next, ri);
            }
        }
        path.pop();
        proof {
            assert(path@ =~= p0);
        }
    } else {
        proof {
            assert forall|d: Seq<Meld>| row_sound(row, ri, d) && #[trigger] has_pung_of(d, tk) implies found_among(
                out@,
                out0.len() as int,
                out@.len() as int,
                p0.len() as int,
                d,
            ) by {
                let j = choose|j: int| 0 <= j < d.len() && #[trigger] d[j] is Pung && d[j].spec_tile() == tk;
                lemma_remove_pung(row, ri, d, j, k as int);
            }
        }
    }
    // A chow starting at the lowest tile.
    let ghost out2 = out@;
    proof {
        assert(forall|i: int| out0.len() <= i < out2.len() ==> (#[trigger] out2[i]@).len() > p0.len()
            && out2[i]@[p0.len() as int] is Pung);
        assert(forall|i: int, j: int| out0.len() <= i < j < out2.len() ==> #[trigger] out2[i]@ != #[trigger] out2[j]@);
    }
    if k + 2 < 16 && count_at(row, k + 1) >= 1 && count_at(row, k + 2) >= 1 {
        proof {
            assert(is_tile_id(ri * 64 + 4 * (k + 1)));
            assert(is_tile_id(ri * 64 + 4 * (k + 2)));
        }
        let start = BitTileCounts::position_to_tile(row_idx, shift);
        proof {
            lemma_tile_id_roundtrip(start);
        }
        let m = Meld::Chow(Sequence::new(start, true));
        path.push(m);
        let mut next = row;
        BitTileCounts::remove_sequence_from_row(&mut next, shift);
        proof {
            assert(shift as int / 4 == k);
            let r1 = row_without(row, k as int, 1);
            let r2 = row_without(r1, k + 1, 1);
            lemma_row_without(row, k as int, 1);
            assert(nibble(r1, k + 1) == nibble(row, k + 1));
            assert(nibble(r1, k + 2) == nibble(row, k + 2));
            lemma_row_without(r1, k + 1, 1);
            assert(nibble(r2, k + 2) == nibble(r1, k + 2));
            lemma_row_ok_without(row, ri, k as int, 1);
            lemma_row_ok_without(r1, ri, k + 1, 1);
            lemma_row_ok_without(r2, ri, k + 2, 1);
            lemma_total_without(row, k as int, 1, 16);
            lemma_total_without(r1, k + 1, 1, 16);
            lemma_total_without(r2, k + 2, 1, 16);
        }
        let ghost out3 = out@;
        let ghost p1 = path@;
        dfs_decompose(next, row_idx, path, out);
        proof {
            assert forall|i: int| out3.len() <= i < out@.len() implies (#[trigger] out@[i]@).len() > p0.len()
                && out@[i]@[p0.len() as int] is Chow by {
                lemma_first_after(out@[i]@, p0, m, next, ri);
            }
            lemma_chow_counts(row, k as int);
            lemma_tails_step(row, next, ri, k as int, m, p0, out@, out3.len() as int);
            lemma_branch_chow(row, ri, k as int, next, m, p0, p1, out3.len() as int, out@);
            assert forall|d: Seq<Meld>| row_sound(row, ri, d) && #[trigger] has_chow_from(d, tk) implies found_among(
                out@,
                out2.len() as int,
                out@.len() as int,
                p0.len() as int,
                d,
            ) by {
                lemma_found_grow(out@, out@, out3.len() as int, out@.len() as int, out2.len() as int, out@.len() as int, p0.len() as int, d);
            }
        }
        path.pop();
    } else {
        proof {
            assert forall|d: Seq<Meld>| row_sound(row, ri, d) && #[trigger] has_chow_from(d, tk) implies found_among(
                out@,
                out2.len() as int,
                out@.len() as int,
                p0.len() as int,
                d,
            ) by {
                let j = choose|j: int| 0 <= j < d.len() && #[trigger] d[j] is Chow && d[j].spec_tile() == tk;
                lemma_remove_chow(row, ri, d, j, k as int);
            }
        }
    }
    proof {
        assert forall|i: int, j: int| out0.len() <= i < j < out@.len() implies #[trigger] out@[i]@ != #[trigger] out@[j]@ by {
            if j < out2.len() {
                assert(out@[i] == out2[i] && out@[j] == out2[j]);
            } else if i < out2.len() {
                assert(out@[i] == out2[i]);
                assert(out@[i]@[p0.len() as int] is Pung);
                assert(out@[j]@[p0.len() as int] is Chow);
            }
        }
        assert forall|d: Seq<Meld>| #[trigger] row_sound(row, ri, d) implies found_among(
            out@,
            out0.len() as int,
            out@.len() as int,
            p0.len() as int,
            d,
        ) by {
            let j = lemma_lowest_set(row, ri, d, k as int);
            if d[j] is Pung {
                assert(has_pung_of(d, tk));
                lemma_found_grow(out2, out@, out0.len() as int, out2.len() as int, out0.len() as int, out@.len() as int, p0.len() as int, d);
            } else {
                assert(has_chow_from(d, tk));
                lemma_found_grow(out@, out@, out2.len() as int, out@.len() as int, out0.len() as int, out@.len() as int, p0.len() as int, d);
            }
        }
    }
}

/// Some decomposition in `out` holds the sets of `d`, in some order.
pub open spec fn found_in(out: Seq<Vec<Meld>>, d: Seq<Meld>) -> bool {
    exists|i: int| 0 <= i < out.len() && #[trigger] out[i]@.to_multiset() == d.to_multiset()
}

/// Every way to split a suit row into concealed pungs and chows, its sets
/// by rank, no listing twice; empty if the row cannot be split.
pub fn decompose_suit(row: u64, row_idx: usize) -> (r: Vec<Vec<Meld>>)
    requires
        row_idx < 3,
        row_ok(row, row_idx as int),
    ensures
        forall|i: int| 0 <= i < r@.len() ==> row_sound(row, row_idx as int, #[trigger] r@[i]@),
        forall|d: Seq<Meld>| #[trigger] row_sound(row, row_idx as int, d) ==> found_in(r@, d),
        all_distinct(r@),
        all_sorted(r@),
{
    let mut results: Vec<Vec<Meld>> = Vec::new();
    let mut path: Vec<Meld> = Vec::new();
    dfs_decompose(row, row_idx, &mut path, &mut results);
    proof {
        reveal(all_sorted);
        assert forall|i: int| 0 <= i < results@.len() implies keys_sorted(#[trigger] results@[i]@) by {
            assert(tail_ok(results@[i]@, 0, row));
            assert(results@[i]@.skip(0) == results@[i]@);
        }
        assert forall|i: int| 0 <= i < results@.len() implies row_sound(
            row,
            row_idx as int,
            #[trigger] results@[i]@,
        ) by {
            assert(extends_sound(results@[i]@, Seq::<Meld>::empty(), row, row_idx as int));
            assert(results@[i]@.skip(0) == results@[i]@);
        }
        assert forall|d: Seq<Meld>| #[trigger] row_sound(row, row_idx as int, d) implies found_in(results@, d) by {
            assert(found_among(results@, 0, results@.len() as int, 0, d));
            let i = choose|i: int| 0 <= i < results@.len() && #[trigger] results@[i]@.skip(0).to_multiset() == d.to_multiset();
            assert(results@[i]@.skip(0) == results@[i]@);
        }
    }
    results
}

// ── Honor parser ─────────────────────────────────────────────────

/// The honors of a hand: their pungs, and their pair if there is one.
pub struct HonorResult {
    pub pungs: Vec<Meld>,
    pub pair: Option<Tile>,
}

/// The number of honors among the first `k` that are held twice.
pub open spec fn honor_pairs_upto(row: u64, k: int) -> nat
    decreases k,
{
    if k <= 0 {
        0
    } else {
        honor_pairs_upto(row, k - 1) + if row_count(row, k - 1) == 2 {
            1nat
        } else {
            0nat
        }
    }
}

/// The honors row can be part of a winning hand: no honor held once or four
/// times, at most one held twice.
pub open spec fn honors_valid(row: u64) -> bool {
    &&& forall|j: int| 0 <= j < 7 ==> #[trigger] row_count(row, j) != 1 && row_count(row, j) != 4
    &&& honor_pairs_upto(row, 7) <= 1
}

/// Twice `t` where `pair` is `t`.
pub open spec fn pair_part(pair: Option<Tile>, t: Tile) -> nat {
    if pair == Some(t) {
        2
    } else {
        0
    }
}

/// The pungs and the pair hold exactly the honors of the row.
pub open spec fn honors_sound(row: u64, pungs: Seq<Meld>, pair: Option<Tile>) -> bool {
    &&& forall|t: Tile| #![trigger sets_count(pungs, t)]
        !t.spec_is_flower() ==> sets_count(pungs, t) + pair_part(pair, t) == if tile_row(t) == 3 {
            row_count(row, tile_nib(t))
        } else {
            0
        }
    &&& forall|i: int| 0 <= i < pungs.len() ==> (#[trigger] pungs[i]).spec_concealed() && pungs[i] is Pung
        && set_ok(pungs[i])
    &&& pair == None::<Tile> <==> honor_pairs_upto(row, 7) == 0
    &&& pair matches Some(p) ==> !p.spec_is_flower() && tile_row(p) == 3
}

/// Counting pairs over more honors counts no fewer.
proof fn lemma_pairs_mono(row: u64, a: int, b: int)
    requires
        a <= b,
    ensures
        honor_pairs_upto(row, a) <= honor_pairs_upto(row, b),
    decreases b - a,
{
    if a < b {
        lemma_pairs_mono(row, a, b - 1);
    }
}

/// Parses the honors row; `None` if it cannot be part of a winning hand.
pub fn parse_honors(row: u64) -> (r: Option<HonorResult>)
    requires
        row_wf(row),
    ensures
        r is Some <==> honors_valid(row),
        r matches Some(h) ==> honors_sound(row, h.pungs@, h.pair),
        r matches Some(h) ==> honors_sorted(h.pungs@),
{
    let mut pungs: Vec<Meld> = Vec::new();
    proof {
        reveal(honors_sorted);
    }
    let mut pair: Option<Tile> = None;
    let mut k: usize = 0;
    while k < 7
        invariant
            k <= 7,
            row_wf(row),
            forall|j: int| 0 <= j < k ==> #[trigger] row_count(row, j) != 1 && row_count(row, j) != 4,
            honor_pairs_upto(row, k as int) <= 1,
            pair == None::<Tile> <==> honor_pairs_upto(row, k as int) == 0,
            pair matches Some(p) ==> tile_row(p) == 3 && tile_nib(p) < k && !p.spec_is_flower(),
            forall|i: int| 0 <= i < pungs@.len() ==> (#[trigger] pungs@[i]).spec_concealed() && pungs@[i] is Pung
                && set_ok(pungs@[i]),
            honors_sorted(pungs@),
            forall|i: int| 0 <= i < pungs@.len() ==> tile_nib((#[trigger] pungs@[i]).spec_tile()) < k,
            forall|t: Tile| #![trigger sets_count(pungs@, t)]
                !t.spec_is_flower() ==> sets_count(pungs@, t) + pair_part(pair, t) == if tile_row(t) == 3
                    && tile_nib(t) < k {
                    row_count(row, tile_nib(t))
                } else {
                    0
                },
        decreases 7 - k,
    {
        let c = count_at(row, k);
        let tile = BitTileCounts::position_to_tile(3, 4 * k);
        proof {
            lemma_tile_id_roundtrip(tile);
            lemma_tile_at(Tile::Character1, 3, k as int);
        }
        let ghost old_pungs = pungs@;
        let ghost old_pair = pair;
        if c == 1 || c == 4 {
            return None;
        }
        if c == 2 {
            if pair.is_some() {
                proof {
                    lemma_pairs_mono(row, k as int + 1, 7);
                }
                return None;
            }
            pair = Some(tile);
        }
        if c == 3 {
            let m = Meld::Pung(Triplet::new(tile, true));
            pungs.push(m);
            proof {
                reveal(honors_sorted);
                assert(pungs@ == old_pungs.push(m));
                assert(m.spec_tile() == tile);
                assert(tile.spec_id() == 3 * 64 + 4 * k);
                assert forall|x: int, y: int| 0 <= x < y < pungs@.len() implies set_key(#[trigger] pungs@[x])
                    <= set_key(#[trigger] pungs@[y]) by {
                    if y < old_pungs.len() {
                        assert(pungs@[x] == old_pungs[x] && pungs@[y] == old_pungs[y]);
                    } else {
                        assert(pungs@[x] == old_pungs[x]);
                        assert(tile_nib(old_pungs[x].spec_tile()) < k);
                    }
                }
                assert forall|i: int| 0 <= i < pungs@.len() implies tile_row((#[trigger] pungs@[i]).spec_tile()) == 3
                    && tile_nib(pungs@[i].spec_tile()) < k + 1 by {
                    if i < old_pungs.len() {
                        assert(pungs@[i] == old_pungs[i]);
                    }
                }
                assert forall|t: Tile| !t.spec_is_flower() implies sets_count(pungs@, t) == sets_count(
                    old_pungs,
                    t,
                ) + (if t == tile {
                    3nat
                } else {
                    0nat
                }) by {
                    assert(pungs@ == old_pungs + seq![m]);
                    lemma_sets_count_concat(old_pungs, seq![m], t);
                    lemma_sets_count_one(m, t);
                    lemma_meld_tiles_count(m, t);
                }
            }
        }
        proof {
            assert forall|t: Tile| #![trigger sets_count(pungs@, t)]
                !t.spec_is_flower() implies sets_count(pungs@, t) + pair_part(pair, t) == if tile_row(t) == 3
                    && tile_nib(t) < k + 1 {
                    row_count(row, tile_nib(t))
                } else {
                    0
                } by {
                lemma_tile_at(t, 3, k as int);
                lemma_tile_id_roundtrip(t);
                assert(sets_count(old_pungs, t) + pair_part(old_pair, t) == if tile_row(t) == 3
                    && tile_nib(t) < k {
                    row_count(row, tile_nib(t))
                } else {
                    0
                });
                if c != 3 {
                    assert(pungs@ == old_pungs);
                }
            }
        }
        k = k + 1;
    }
    proof {
        assert forall|t: Tile| #![trigger sets_count(pungs@, t)]
            !t.spec_is_flower() implies sets_count(pungs@, t) + pair_part(pair, t) == if tile_row(t) == 3 {
                row_count(row, tile_nib(t))
            } else {
                0
            } by {
            lemma_tile_id_roundtrip(t);
        }
    }
    Some(HonorResult { pungs, pair })
}

/// The bit shifts of the nibbles among the first `k` that hold two tiles or
/// more, in increasing order.
pub open spec fn pair_shifts_upto(row: u64, k: int) -> Seq<usize>
    decreases k,
{
    if k <= 0 {
        Seq::empty()
    } else {
        pair_shifts_upto(row, k - 1) + if row_count(row, k - 1) >= 2 {
            seq![(4 * (k - 1)) as usize]
        } else {
            Seq::empty()
        }
    }
}

/// The bit shifts of the nibbles that hold two tiles or more.
pub fn pair_positions_in_row(row: u64) -> (r: Vec<usize>)
    requires
        row_wf(row),
    ensures
        r@ == pair_shifts_upto(row, 16),
{
    let mut positions: Vec<usize> = Vec::new();
    let mut k: usize = 0;
    while k < 16
        invariant
            k <= 16,
            row_wf(row),
            positions@ == pair_shifts_upto(row, k as int),
        decreases 16 - k,
    {
        if count_at(row, k) >= 2 {
            positions.push(4 * k);
        }
        k = k + 1;
    }
    positions
}

/// Every shift listed holds a pair at a nibble of the row.
pub proof fn lemma_pair_shifts(row: u64, k: int, i: int)
    requires
        0 <= k <= 16,
        0 <= i < pair_shifts_upto(row, k).len(),
    ensures
        pair_shifts_upto(row, k)[i] % 4 == 0,
        pair_shifts_upto(row, k)[i] / 4 < k,
        row_count(row, pair_shifts_upto(row, k)[i] as int / 4) >= 2,
    decreases k,
{
    if k > 0 {
        let prev = pair_shifts_upto(row, k - 1);
        if i < prev.len() {
            lemma_pair_shifts(row, k - 1, i);
        }
    }
}

// ── Combining the suits ──────────────────────────────────────────

/// No two decompositions in `s` are the same list of sets.
pub open spec fn all_distinct(s: Seq<Vec<Meld>>) -> bool {
    forall|i: int, j: int| 0 <= i < j < s.len() ==> #[trigger] s[i]@ != #[trigger] s[j]@
}

/// Every set of every decomposition in `s` lies in row `ri`.
pub open spec fn in_row(s: Seq<Vec<Meld>>, ri: int) -> bool {
    forall|i: int, k: int| 0 <= i < s.len() && 0 <= k < s[i]@.len() ==> tile_row(#[trigger] s[i]@[k].spec_tile()) == ri
}

/// The sets of a decomposition of a row lie in that row.
pub proof fn lemma_sound_in_row(row: u64, ri: int, d: Seq<Meld>)
    requires
        row_sound(row, ri, d),
    ensures
        forall|k: int| 0 <= k < d.len() ==> tile_row(#[trigger] d[k].spec_tile()) == ri,
{
    assert forall|k: int| 0 <= k < d.len() implies tile_row(#[trigger] d[k].spec_tile()) == ri by {
        let t = d[k].spec_tile();
        lemma_meld_tiles_count(d[k], t);
        lemma_sets_count_remove(d, k, t);
        assert(set_ok(d[k]));
        assert(sets_count(d, t) > 0);
    }
}

/// Every decomposition in `s` lies in its row.
pub proof fn lemma_all_sound_in_row(s: Seq<Vec<Meld>>, row: u64, ri: int)
    requires
        all_sound(s, row, ri),
    ensures
        in_row(s, ri),
{
    assert forall|i: int, k: int| 0 <= i < s.len() && 0 <= k < s[i]@.len() implies tile_row(
        #[trigger] s[i]@[k].spec_tile(),
    ) == ri by {
        lemma_sound_in_row(row, ri, s[i]@);
    }
}

/// Taking the sets of a row distributes over joining.
proof fn lemma_row_sets_concat(a: Seq<Meld>, b: Seq<Meld>, ri: int)
    ensures
        sets_of_row(a + b, ri) == sets_of_row(a, ri) + sets_of_row(b, ri),
    decreases b.len(),
{
    if b.len() == 0 {
        assert(a + b == a);
        assert(sets_of_row(b, ri) == Seq::<Meld>::empty());
        assert(sets_of_row(a, ri) + sets_of_row(b, ri) == sets_of_row(a, ri));
    } else {
        lemma_row_sets_concat(a, b.drop_last(), ri);
        assert((a + b).drop_last() == a + b.drop_last());
        assert((a + b).last() == b.last());
    }
}

/// The sets of row `ri` of a list whose sets all lie in row `ri` are the
/// list; of a list with none there, nothing.
proof fn lemma_row_sets_whole(a: Seq<Meld>, ri: int)
    ensures
        (forall|k: int| 0 <= k < a.len() ==> tile_row(#[trigger] a[k].spec_tile()) == ri) ==> sets_of_row(a, ri) == a,
        (forall|k: int| 0 <= k < a.len() ==> tile_row(#[trigger] a[k].spec_tile()) != ri) ==> sets_of_row(a, ri)
            == Seq::<Meld>::empty(),
    decreases a.len(),
{
    if a.len() > 0 {
        lemma_row_sets_whole(a.drop_last(), ri);
        if forall|k: int| 0 <= k < a.len() ==> tile_row(#[trigger] a[k].spec_tile()) == ri {
            assert forall|k: int| 0 <= k < a.drop_last().len() implies tile_row(#[trigger] a.drop_last()[k].spec_tile()) == ri by {
                assert(a.drop_last()[k] == a[k]);
            }
            assert(tile_row(a[a.len() - 1].spec_tile()) == ri);
            assert(a.drop_last().push(a.last()) == a);
        }
        if forall|k: int| 0 <= k < a.len() ==> tile_row(#[trigger] a[k].spec_tile()) != ri {
            assert forall|k: int| 0 <= k < a.drop_last().len() implies tile_row(#[trigger] a.drop_last()[k].spec_tile()) != ri by {
                assert(a.drop_last()[k] == a[k]);
            }
            assert(tile_row(a[a.len() - 1].spec_tile()) != ri);
        }
    }
}

/// The suit parts of a joining are the parts it was joined from.
proof fn lemma_join_parts(d0: Seq<Meld>, d1: Seq<Meld>, d2: Seq<Meld>)
    requires
        forall|k: int| 0 <= k < d0.len() ==> tile_row(#[trigger] d0[k].spec_tile()) == 0,
        forall|k: int| 0 <= k < d1.len() ==> tile_row(#[trigger] d1[k].spec_tile()) == 1,
        forall|k: int| 0 <= k < d2.len() ==> tile_row(#[trigger] d2[k].spec_tile()) == 2,
    ensures
        sets_of_row(d0 + d1 + d2, 0) == d0,
        sets_of_row(d0 + d1 + d2, 1) == d1,
        sets_of_row(d0 + d1 + d2, 2) == d2,
{
    lemma_row_sets_concat(d0 + d1, d2, 0);
    lemma_row_sets_concat(d0, d1, 0);
    lemma_row_sets_concat(d0 + d1, d2, 1);
    lemma_row_sets_concat(d0, d1, 1);
    lemma_row_sets_concat(d0 + d1, d2, 2);
    lemma_row_sets_concat(d0, d1, 2);
    lemma_row_sets_whole(d0, 0);
    lemma_row_sets_whole(d0, 1);
    lemma_row_sets_whole(d0, 2);
    lemma_row_sets_whole(d1, 0);
    lemma_row_sets_whole(d1, 1);
    lemma_row_sets_whole(d1, 2);
    lemma_row_sets_whole(d2, 0);
    lemma_row_sets_whole(d2, 1);
    lemma_row_sets_whole(d2, 2);
    assert(Seq::<Meld>::empty() + d1 + Seq::<Meld>::empty() == d1);
    assert(d0 + Seq::<Meld>::empty() + Seq::<Meld>::empty() == d0);
    assert(Seq::<Meld>::empty() + Seq::<Meld>::empty() + d2 == d2);
}

/// Each decomposition in `s` lists its sets in order.
#[verifier::opaque]
pub open spec fn all_sorted(s: Seq<Vec<Meld>>) -> bool {
    forall|i: int| 0 <= i < s.len() ==> keys_sorted(#[trigger] s[i]@)
}

/// Each list holds suit sets only, in order.
#[verifier::opaque]
pub open spec fn suit_lists_sorted(r: Seq<Vec<Meld>>) -> bool {
    forall|j: int|
        0 <= j < r.len() ==> keys_sorted(#[trigger] r[j]@) && forall|k: int|
            0 <= k < r[j]@.len() ==> 0 <= tile_row(#[trigger] r[j]@[k].spec_tile()) < 3
}

/// Honor pungs in order, then suit sets in order, are in order.
pub proof fn lemma_honors_then_suits(h: Seq<Meld>, c: Seq<Meld>)
    requires
        keys_sorted(h),
        forall|k: int| 0 <= k < h.len() ==> tile_row(#[trigger] h[k].spec_tile()) == 3,
        keys_sorted(c),
        forall|k: int| 0 <= k < c.len() ==> 0 <= tile_row(#[trigger] c[k].spec_tile()) < 3,
    ensures
        keys_sorted(h + c),
{
    let j = h + c;
    let n = h.len() as int;
    assert forall|x: int, y: int| 0 <= x < y < j.len() implies set_key(#[trigger] j[x]) <= set_key(#[trigger] j[y]) by {
        if y < n {
            assert(j[x] == h[x] && j[y] == h[y]);
        } else if x >= n {
            assert(j[x] == c[x - n] && j[y] == c[y - n]);
        } else {
            assert(j[x] == h[x] && j[y] == c[y - n]);
            assert(tile_row(j[x].spec_tile()) == 3);
            assert(0 <= tile_row(j[y].spec_tile()) < 3);
        }
    }
}

/// Sets of a lower row come before those of a higher one.
proof fn lemma_row_keys(x: Meld, y: Meld)
    requires
        0 <= tile_row(x.spec_tile()) < tile_row(y.spec_tile()) < 3,
    ensures
        set_key(x) < set_key(y),
{
}

/// Ordered lists of the three suits, joined in suit order, are in order.
pub proof fn lemma_join_sorted(a: Seq<Meld>, b: Seq<Meld>, c: Seq<Meld>)
    requires
        keys_sorted(a),
        keys_sorted(b),
        keys_sorted(c),
        forall|k: int| 0 <= k < a.len() ==> tile_row(#[trigger] a[k].spec_tile()) == 0,
        forall|k: int| 0 <= k < b.len() ==> tile_row(#[trigger] b[k].spec_tile()) == 1,
        forall|k: int| 0 <= k < c.len() ==> tile_row(#[trigger] c[k].spec_tile()) == 2,
    ensures
        keys_sorted(a + b + c),
        forall|k: int| 0 <= k < (a + b + c).len() ==> 0 <= tile_row(#[trigger] (a + b + c)[k].spec_tile()) < 3,
{
    let j = a + b + c;
    let na = a.len() as int;
    let nb = b.len() as int;
    assert forall|k: int| 0 <= k < j.len() implies 0 <= tile_row(#[trigger] j[k].spec_tile()) < 3 by {
        if k < na {
            assert(j[k] == a[k]);
        } else if k < na + nb {
            assert(j[k] == b[k - na]);
        } else {
            assert(j[k] == c[k - na - nb]);
        }
    }
    assert forall|x: int, y: int| 0 <= x < y < j.len() implies set_key(#[trigger] j[x]) <= set_key(#[trigger] j[y]) by {
        if y < na {
            assert(j[x] == a[x] && j[y] == a[y]);
        } else if x >= na && y < na + nb {
            assert(j[x] == b[x - na] && j[y] == b[y - na]);
        } else if x >= na + nb {
            assert(j[x] == c[x - na - nb] && j[y] == c[y - na - nb]);
        } else if x < na && y < na + nb {
            assert(j[x] == a[x] && j[y] == b[y - na]);
            lemma_row_keys(j[x], j[y]);
        } else if x < na {
            assert(j[x] == a[x] && j[y] == c[y - na - nb]);
            lemma_row_keys(j[x], j[y]);
        } else {
            assert(j[x] == b[x - na] && j[y] == c[y - na - nb]);
            lemma_row_keys(j[x], j[y]);
        }
    }
}

/// The three lists of suit decompositions, each without repeats and each in
/// its own row.
pub open spec fn suits_apart(s0: Seq<Vec<Meld>>, s1: Seq<Vec<Meld>>, s2: Seq<Vec<Meld>>) -> bool {
    &&& all_distinct(s0) && all_distinct(s1) && all_distinct(s2)
    &&& in_row(s0, 0) && in_row(s1, 1) && in_row(s2, 2)
}

/// Joinings of different choices from suits kept apart differ.
proof fn lemma_join_injective(
    s0: Seq<Vec<Meld>>,
    s1: Seq<Vec<Meld>>,
    s2: Seq<Vec<Meld>>,
    x: (int, int, int),
    y: (int, int, int),
)
    requires
        suits_apart(s0, s1, s2),
        0 <= x.0 < s0.len() && 0 <= x.1 < s1.len() && 0 <= x.2 < s2.len(),
        0 <= y.0 < s0.len() && 0 <= y.1 < s1.len() && 0 <= y.2 < s2.len(),
        s0[x.0]@ + s1[x.1]@ + s2[x.2]@ == s0[y.0]@ + s1[y.1]@ + s2[y.2]@,
    ensures
        x == y,
{
    let a = s0[x.0]@;
    let b = s1[x.1]@;
    let c = s2[x.2]@;
    let a2 = s0[y.0]@;
    let b2 = s1[y.1]@;
    let c2 = s2[y.2]@;
    assert(forall|k: int| 0 <= k < a.len() ==> tile_row(#[trigger] a[k].spec_tile()) == 0);
    assert(forall|k: int| 0 <= k < b.len() ==> tile_row(#[trigger] b[k].spec_tile()) == 1);
    assert(forall|k: int| 0 <= k < c.len() ==> tile_row(#[trigger] c[k].spec_tile()) == 2);
    assert(forall|k: int| 0 <= k < a2.len() ==> tile_row(#[trigger] a2[k].spec_tile()) == 0);
    assert(forall|k: int| 0 <= k < b2.len() ==> tile_row(#[trigger] b2[k].spec_tile()) == 1);
    assert(forall|k: int| 0 <= k < c2.len() ==> tile_row(#[trigger] c2[k].spec_tile()) == 2);
    lemma_join_parts(a, b, c);
    lemma_join_parts(a2, b2, c2);
    if x.0 != y.0 {
        if x.0 < y.0 {
            assert(s0[x.0]@ != s0[y.0]@);
        } else {
            assert(s0[y.0]@ != s0[x.0]@);
        }
    }
    if x.1 != y.1 {
        if x.1 < y.1 {
            assert(s1[x.1]@ != s1[y.1]@);
        } else {
            assert(s1[y.1]@ != s1[x.1]@);
        }
    }
    if x.2 != y.2 {
        if x.2 < y.2 {
            assert(s2[x.2]@ != s2[y.2]@);
        } else {
            assert(s2[y.2]@ != s2[x.2]@);
        }
    }
}

/// `t` comes before the choice `(a, b, c)`, first suit outermost.
pub open spec fn choice_before(t: (int, int, int), a: int, b: int, c: int) -> bool {
    ||| t.0 < a
    ||| t.0 == a && t.1 < b
    ||| t.0 == a && t.1 == b && t.2 < c
}

/// Each of `r` is the joining of the choice beside it.
pub open spec fn joins_of(r: Seq<Vec<Meld>>, tri: Seq<(int, int, int)>, s0: Seq<Vec<Meld>>, s1: Seq<Vec<Meld>>, s2: Seq<Vec<Meld>>, a: int, b: int, c: int) -> bool {
    &&& tri.len() == r.len()
    &&& forall|j: int| 0 <= j < r.len() ==> {
        &&& 0 <= (#[trigger] tri[j]).0 < s0.len() && 0 <= tri[j].1 < s1.len() && 0 <= tri[j].2 < s2.len()
        &&& r[j]@ == s0[tri[j].0]@ + s1[tri[j].1]@ + s2[tri[j].2]@
        &&& choice_before(tri[j], a, b, c)
    }
}

/// Every decomposition in `s` is a sound decomposition of `row`.
pub open spec fn all_sound(s: Seq<Vec<Meld>>, row: u64, ri: int) -> bool {
    forall|i: int| 0 <= i < s.len() ==> row_sound(row, ri, #[trigger] s[i]@)
}

/// One decomposition from each suit, joined.
pub open spec fn is_combination(c: Seq<Meld>, s0: Seq<Vec<Meld>>, s1: Seq<Vec<Meld>>, s2: Seq<Vec<Meld>>) -> bool {
    exists|i0: int, i1: int, i2: int|
        0 <= i0 < s0.len() && 0 <= i1 < s1.len() && 0 <= i2 < s2.len() && c == #[trigger] s0[i0]@
            + #[trigger] s1[i1]@ + #[trigger] s2[i2]@
}

/// `r` holds `x`.
pub open spec fn has_join(r: Seq<Vec<Meld>>, x: Seq<Meld>) -> bool {
    exists|j: int| 0 <= j < r.len() && #[trigger] r[j]@ == x
}

/// Every joining of one decomposition from each suit is among `r`.
pub open spec fn all_joins(r: Seq<Vec<Meld>>, s0: Seq<Vec<Meld>>, s1: Seq<Vec<Meld>>, s2: Seq<Vec<Meld>>, n0: int, n1: int, n2: int) -> bool {
    forall|i0: int, i1: int, i2: int|
        #![trigger s0[i0], s1[i1], s2[i2]]
        0 <= i0 < n0 && 0 <= i1 < n1 && 0 <= i2 < n2 ==> has_join(r, s0[i0]@ + s1[i1]@ + s2[i2]@)
}

/// What `r` holds, `r` with one more holds too.
proof fn lemma_join_push(r: Seq<Vec<Meld>>, y: Vec<Meld>, x: Seq<Meld>)
    requires
        has_join(r, x),
    ensures
        has_join(r.push(y), x),
{
    let j = choose|j: int| 0 <= j < r.len() && #[trigger] r[j]@ == x;
    assert(r.push(y)[j] == r[j]);
}

/// Every way to take one decomposition from each suit, first suit outermost.
pub fn combine_triple(s0: &Vec<Vec<Meld>>, s1: &Vec<Vec<Meld>>, s2: &Vec<Vec<Meld>>) -> (r: Vec<Vec<Meld>>)
    ensures
        forall|j: int| 0 <= j < r@.len() ==> is_combination(#[trigger] r@[j]@, s0@, s1@, s2@),
        all_joins(r@, s0@, s1@, s2@, s0@.len() as int, s1@.len() as int, s2@.len() as int),
        suits_apart(s0@, s1@, s2@) ==> all_distinct(r@),
        suits_apart(s0@, s1@, s2@) && all_sorted(s0@) && all_sorted(s1@) && all_sorted(s2@) ==> suit_lists_sorted(r@),
{
    let mut results: Vec<Vec<Meld>> = Vec::new();
    let ghost n1 = s1@.len() as int;
    let ghost n2 = s2@.len() as int;
    let ghost apart = suits_apart(s0@, s1@, s2@);
    let ghost mut tri: Seq<(int, int, int)> = Seq::empty();
    let mut a: usize = 0;
    while a < s0.len()
        invariant
            a <= s0@.len(),
            n1 == s1@.len(),
            n2 == s2@.len(),
            forall|j: int| 0 <= j < results@.len() ==> is_combination(#[trigger] results@[j]@, s0@, s1@, s2@),
            all_joins(results@, s0@, s1@, s2@, a as int, n1, n2),
            joins_of(results@, tri, s0@, s1@, s2@, a as int, 0, 0),
            apart == suits_apart(s0@, s1@, s2@),
            apart ==> all_distinct(results@),
        decreases s0@.len() - a,
    {
        let mut b: usize = 0;
        while b < s1.len()
            invariant
                a < s0@.len(),
                b <= s1@.len(),
                n1 == s1@.len(),
                n2 == s2@.len(),
                forall|j: int| 0 <= j < results@.len() ==> is_combination(#[trigger] results@[j]@, s0@, s1@, s2@),
                all_joins(results@, s0@, s1@, s2@, a as int, n1, n2),
                forall|i1: int, i2: int|
                    #![trigger s1@[i1], s2@[i2]]
                    0 <= i1 < b && 0 <= i2 < n2 ==> has_join(results@, s0@[a as int]@ + s1@[i1]@ + s2@[i2]@),
                joins_of(results@, tri, s0@, s1@, s2@, a as int, b as int, 0),
                apart == suits_apart(s0@, s1@, s2@),
                apart ==> all_distinct(results@),
            decreases s1@.len() - b,
        {
            let mut c: usize = 0;
            while c < s2.len()
                invariant
                    a < s0@.len(),
                    b < s1@.len(),
                    c <= s2@.len(),
                    n1 == s1@.len(),
                    n2 == s2@.len(),
                    forall|j: int| 0 <= j < results@.len() ==> is_combination(#[trigger] results@[j]@, s0@, s1@, s2@),
                    all_joins(results@, s0@, s1@, s2@, a as int, n1, n2),
                    forall|i1: int, i2: int|
                        #![trigger s1@[i1], s2@[i2]]
                        0 <= i1 < b && 0 <= i2 < n2 ==> has_join(results@, s0@[a as int]@ + s1@[i1]@ + s2@[i2]@),
                    forall|i2: int|
                        0 <= i2 < c ==> has_join(results@, s0@[a as int]@ + s1@[b as int]@ + (#[trigger] s2@[i2])@),
                    joins_of(results@, tri, s0@, s1@, s2@, a as int, b as int, c as int),
                    apart == suits_apart(s0@, s1@, s2@),
                    apart ==> all_distinct(results@),
                decreases s2@.len() - c,
            {
                let mut combined = copy_melds(&s0[a]);
                let mut part1 = copy_melds(&s1[b]);
                let mut part2 = copy_melds(&s2[c]);
                combined.append(&mut part1);
                combined.append(&mut part2);
                proof {
                    assert(combined@ == s0@[a as int]@ + s1@[b as int]@ + s2@[c as int]@);
                }
                let ghost before = results@;
                let ghost tri0 = tri;
                results.push(combined);
                proof {
                    tri = tri0.push((a as int, b as int, c as int));
                    assert forall|j: int| 0 <= j < results@.len() implies {
                        &&& 0 <= (#[trigger] tri[j]).0 < s0@.len() && 0 <= tri[j].1 < s1@.len() && 0 <= tri[j].2 < s2@.len()
                        &&& results@[j]@ == s0@[tri[j].0]@ + s1@[tri[j].1]@ + s2@[tri[j].2]@
                        &&& choice_before(tri[j], a as int, b as int, c + 1)
                    } by {
                        if j < before.len() {
                            assert(tri[j] == tri0[j]);
                            assert(results@[j] == before[j]);
                        }
                    }
                    if apart {
                        assert forall|i: int, j: int| 0 <= i < j < results@.len() implies #[trigger] results@[i]@
                            != #[trigger] results@[j]@ by {
                            if j < before.len() {
                                assert(results@[i] == before[i] && results@[j] == before[j]);
                            } else {
                                assert(results@[i] == before[i]);
                                assert(tri0[i] != (a as int, b as int, c as int));
                                if results@[i]@ == results@[j]@ {
                                    lemma_join_injective(s0@, s1@, s2@, tri0[i], (a as int, b as int, c as int));
                                }
                            }
                        }
                    }
                    assert(results@[before.len() as int]@ == s0@[a as int]@ + s1@[b as int]@ + s2@[c as int]@);
                    assert forall|i0: int, i1: int, i2: int|
                        #![trigger s0@[i0], s1@[i1], s2@[i2]]
                        0 <= i0 < a && 0 <= i1 < n1 && 0 <= i2 < n2 implies has_join(
                        results@,
                        s0@[i0]@ + s1@[i1]@ + s2@[i2]@,
                    ) by {
                        lemma_join_push(before, combined, s0@[i0]@ + s1@[i1]@ + s2@[i2]@);
                    }
                    assert forall|i1: int, i2: int|
                        #![trigger s1@[i1], s2@[i2]]
                        0 <= i1 < b && 0 <= i2 < n2 implies has_join(results@, s0@[a as int]@ + s1@[i1]@ + s2@[i2]@) by {
                        lemma_join_push(before, combined, s0@[a as int]@ + s1@[i1]@ + s2@[i2]@);
                    }
                    assert forall|i2: int| 0 <= i2 < c + 1 implies has_join(
                        results@,
                        s0@[a as int]@ + s1@[b as int]@ + (#[trigger] s2@[i2])@,
                    ) by {
                        if i2 < c {
                            lemma_join_push(before, combined, s0@[a as int]@ + s1@[b as int]@ + s2@[i2]@);
                        }
                    }
                    assert forall|j: int| 0 <= j < results@.len() implies is_combination(
                        #[trigger] results@[j]@,
                        s0@,
                        s1@,
                        s2@,
                    ) by {
                        if j < before.len() {
                            assert(results@[j] == before[j]);
                        }
                    }
                }
                c = c + 1;
            }
            proof {
                assert forall|i1: int, i2: int|
                    #![trigger s1@[i1], s2@[i2]]
                    0 <= i1 < b + 1 && 0 <= i2 < n2 implies has_join(results@, s0@[a as int]@ + s1@[i1]@ + s2@[i2]@) by {
                    if i1 == b {
                        assert(has_join(results@, s0@[a as int]@ + s1@[b as int]@ + s2@[i2]@));
                    }
                }
            }
            b = b + 1;
        }
        proof {
            assert forall|i0: int, i1: int, i2: int|
                #![trigger s0@[i0], s1@[i1], s2@[i2]]
                0 <= i0 < a + 1 && 0 <= i1 < n1 && 0 <= i2 < n2 implies has_join(
                results@,
                s0@[i0]@ + s1@[i1]@ + s2@[i2]@,
            ) by {
                if i0 == a {
                    assert(has_join(results@, s0@[a as int]@ + s1@[i1]@ + s2@[i2]@));
                }
            }
        }
        a = a + 1;
    }
    proof {
        if suits_apart(s0@, s1@, s2@) && all_sorted(s0@) && all_sorted(s1@) && all_sorted(s2@) {
            reveal(all_sorted);
            reveal(suit_lists_sorted);
            assert forall|j: int| 0 <= j < results@.len() implies keys_sorted(#[trigger] results@[j]@) && forall|k: int|
                0 <= k < results@[j]@.len() ==> 0 <= tile_row(#[trigger] results@[j]@[k].spec_tile()) < 3 by {
                let t = tri[j];
                let x = s0@[t.0]@;
                let y = s1@[t.1]@;
                let z = s2@[t.2]@;
                assert(forall|k: int| 0 <= k < x.len() ==> tile_row(#[trigger] x[k].spec_tile()) == 0);
                assert(forall|k: int| 0 <= k < y.len() ==> tile_row(#[trigger] y[k].spec_tile()) == 1);
                assert(forall|k: int| 0 <= k < z.len() ==> tile_row(#[trigger] z[k].spec_tile()) == 2);
                lemma_join_sorted(x, y, z);
            }
        }
    }
    results
}

/// Combines the decompositions of the three suits.
pub fn combine_suits(cache: &[Vec<Vec<Meld>>; 3]) -> (r: Vec<Vec<Meld>>)
    ensures
        forall|j: int| 0 <= j < r@.len() ==> is_combination(#[trigger] r@[j]@, cache@[0]@, cache@[1]@, cache@[2]@),
        all_joins(
            r@,
            cache@[0]@,
            cache@[1]@,
            cache@[2]@,
            cache@[0]@.len() as int,
            cache@[1]@.len() as int,
            cache@[2]@.len() as int,
        ),
        suits_apart(cache@[0]@, cache@[1]@, cache@[2]@) ==> all_distinct(r@),
        suits_apart(cache@[0]@, cache@[1]@, cache@[2]@) && all_sorted(cache@[0]@) && all_sorted(cache@[1]@)
            && all_sorted(cache@[2]@) ==> suit_lists_sorted(r@),
{
    combine_triple(&cache[0], &cache[1], &cache[2])
}

/// Combines the decompositions of the three suits, with those of suit `idx`
/// replaced.
pub fn combine_suits_with(cache: &[Vec<Vec<Meld>>; 3], idx: usize, replacement: &Vec<Vec<Meld>>) -> (r: Vec<Vec<Meld>>)
    requires
        idx < 3,
    ensures
        forall|j: int| 0 <= j < r@.len() ==> is_combination(
            #[trigger] r@[j]@,
            if idx == 0 { replacement@ } else { cache@[0]@ },
            if idx == 1 { replacement@ } else { cache@[1]@ },
            if idx == 2 { replacement@ } else { cache@[2]@ },
        ),
        all_joins(
            r@,
            if idx == 0 { replacement@ } else { cache@[0]@ },
            if idx == 1 { replacement@ } else { cache@[1]@ },
            if idx == 2 { replacement@ } else { cache@[2]@ },
            (if idx == 0 { replacement@ } else { cache@[0]@ }).len() as int,
            (if idx == 1 { replacement@ } else { cache@[1]@ }).len() as int,
            (if idx == 2 { replacement@ } else { cache@[2]@ }).len() as int,
        ),
        suits_apart(
            if idx == 0 { replacement@ } else { cache@[0]@ },
            if idx == 1 { replacement@ } else { cache@[1]@ },
            if idx == 2 { replacement@ } else { cache@[2]@ },
        ) ==> all_distinct(r@),
        suits_apart(
            if idx == 0 { replacement@ } else { cache@[0]@ },
            if idx == 1 { replacement@ } else { cache@[1]@ },
            if idx == 2 { replacement@ } else { cache@[2]@ },
        ) && all_sorted(if idx == 0 { replacement@ } else { cache@[0]@ }) && all_sorted(
            if idx == 1 { replacement@ } else { cache@[1]@ },
        ) && all_sorted(if idx == 2 { replacement@ } else { cache@[2]@ }) ==> suit_lists_sorted(r@),
{
    let s0 = if idx == 0 { replacement } else { &cache[0] };
    let s1 = if idx == 1 { replacement } else { &cache[1] };
    let s2 = if idx == 2 { replacement } else { &cache[2] };
    combine_triple(s0, s1, s2)
}

// ── Standard decompositions of the concealed tiles ───────────────

/// The concealed part of a standard decomposition: its pair and its sets.
pub struct ConcealedDecompStd {
    pub pair_tile: Tile,
    pub melds: Vec<Meld>,
}

/// The pair and the sets, all concealed pungs and chows (each chow inside
/// its suit), hold exactly the concealed tiles.
pub open spec fn hand_sound(c: BitTileCounts, pair: Tile, melds: Seq<Meld>) -> bool {
    &&& !pair.spec_is_flower()
    &&& forall|t: Tile| #![trigger sets_count(melds, t)]
        !t.spec_is_flower() ==> c.spec_count(t) == sets_count(melds, t) + if t == pair {
            2nat
        } else {
            0nat
        }
    &&& forall|i: int| 0 <= i < melds.len() ==> (#[trigger] melds[i]).spec_concealed() && !(melds[i] is Kong)
        && set_ok(melds[i])
}

/// Every decomposition of the row is found in `s`.
pub open spec fn all_found(s: Seq<Vec<Meld>>, row: u64, ri: int) -> bool {
    forall|d: Seq<Meld>| #[trigger] row_sound(row, ri, d) ==> found_in(s, d)
}

/// Some decomposition in `out` has the pair and holds the sets, in some
/// order.
pub open spec fn found_std(out: Seq<ConcealedDecompStd>, pair: Tile, melds: Seq<Meld>) -> bool {
    exists|i: int|
        0 <= i < out.len() && out[i].pair_tile == pair && #[trigger] out[i].melds@.to_multiset()
            == melds.to_multiset()
}

/// The honor pungs followed by one joining of decompositions of the suit
/// rows hold the sets of a decomposition of the hand, in some order,
/// wherever each suit row's decompositions find that decomposition's sets
/// of the row.
pub proof fn lemma_join_found(
    c: BitTileCounts,
    pair: Tile,
    melds: Seq<Meld>,
    hp: Seq<Meld>,
    hpair: Option<Tile>,
    s0: Seq<Vec<Meld>>,
    s1: Seq<Vec<Meld>>,
    s2: Seq<Vec<Meld>>,
    combos: Seq<Vec<Meld>>,
) -> (j: int)
    requires
        counts_ok(c),
        hand_sound(c, pair, melds),
        honors_sound(c.rows[3], hp, hpair),
        found_in(s0, sets_of_row(melds, 0)),
        found_in(s1, sets_of_row(melds, 1)),
        found_in(s2, sets_of_row(melds, 2)),
        all_joins(combos, s0, s1, s2, s0.len() as int, s1.len() as int, s2.len() as int),
    ensures
        0 <= j < combos.len(),
        (hp + combos[j]@).to_multiset() == melds.to_multiset(),
{
    broadcast use group_multiset_axioms;

    lemma_hand_parts(c, pair, melds);
    let p0 = sets_of_row(melds, 0);
    let p1 = sets_of_row(melds, 1);
    let p2 = sets_of_row(melds, 2);
    let p3 = sets_of_row(melds, 3);
    let i0 = choose|i: int| 0 <= i < s0.len() && #[trigger] s0[i]@.to_multiset() == p0.to_multiset();
    let i1 = choose|i: int| 0 <= i < s1.len() && #[trigger] s1[i]@.to_multiset() == p1.to_multiset();
    let i2 = choose|i: int| 0 <= i < s2.len() && #[trigger] s2[i]@.to_multiset() == p2.to_multiset();
    assert(has_join(combos, s0[i0]@ + s1[i1]@ + s2[i2]@));
    let j = choose|j: int| 0 <= j < combos.len() && #[trigger] combos[j]@ == s0[i0]@ + s1[i1]@ + s2[i2]@;
    assert(hp.to_multiset() == p3.to_multiset());
    lemma_multiset_commutative(hp, combos[j]@);
    lemma_multiset_commutative(s0[i0]@ + s1[i1]@, s2[i2]@);
    lemma_multiset_commutative(s0[i0]@, s1[i1]@);
    lemma_multiset_commutative(p3, p0 + p1 + p2);
    lemma_multiset_commutative(p0 + p1, p2);
    lemma_multiset_commutative(p0, p1);
    assert((hp + combos[j]@).to_multiset() =~= (p3 + (p0 + p1 + p2)).to_multiset());
    j
}

/// Every way to split the three suit rows into pungs and chows.
pub fn decompose_all_suits(rows: &[u64; 4]) -> (r: [Vec<Vec<Meld>>; 3])
    requires
        row_ok(rows@[0], 0),
        row_ok(rows@[1], 1),
        row_ok(rows@[2], 2),
    ensures
        all_sound(r@[0]@, rows@[0], 0),
        all_sound(r@[1]@, rows@[1], 1),
        all_sound(r@[2]@, rows@[2], 2),
        all_found(r@[0]@, rows@[0], 0),
        all_found(r@[1]@, rows@[1], 1),
        all_found(r@[2]@, rows@[2], 2),
        all_distinct(r@[0]@),
        all_distinct(r@[1]@),
        all_distinct(r@[2]@),
        all_sorted(r@[0]@),
        all_sorted(r@[1]@),
        all_sorted(r@[2]@),
{
    [decompose_suit(rows[0], 0), decompose_suit(rows[1], 1), decompose_suit(rows[2], 2)]
}

/// Sets from the honors followed by sets from the suits, all concealed
/// pungs and chows, hold exactly the tiles.
pub proof fn lemma_join_sound(
    c: BitTileCounts,
    hp: Seq<Meld>,
    hpair: Option<Tile>,
    d0: Seq<Meld>,
    d1: Seq<Meld>,
    d2: Seq<Meld>,
    pair: Tile,
    pair_row: int,
)
    requires
        honors_sound(c.rows[3], hp, hpair),
        0 <= pair_row <= 3,
        !pair.spec_is_flower(),
        tile_row(pair) == pair_row,
        pair_row == 3 ==> hpair == Some(pair),
        pair_row < 3 ==> hpair == None::<Tile>,
        pair_row < 3 ==> row_count(c.rows[pair_row], tile_nib(pair)) >= 2,
        row_sound(if pair_row == 0 { row_without(c.rows[0], tile_nib(pair), 2) } else { c.rows[0] }, 0, d0),
        row_sound(if pair_row == 1 { row_without(c.rows[1], tile_nib(pair), 2) } else { c.rows[1] }, 1, d1),
        row_sound(if pair_row == 2 { row_without(c.rows[2], tile_nib(pair), 2) } else { c.rows[2] }, 2, d2),
        row_wf(c.rows[0]),
        row_wf(c.rows[1]),
        row_wf(c.rows[2]),
    ensures
        hand_sound(c, pair, hp + (d0 + d1 + d2)),
{
    let all = hp + (d0 + d1 + d2);
    lemma_tile_id_roundtrip(pair);
    assert forall|t: Tile| #![trigger sets_count(all, t)]
        !t.spec_is_flower() implies c.spec_count(t) == sets_count(all, t) + if t == pair {
            2nat
        } else {
            0nat
        } by {
        lemma_sets_count_concat(hp, d0 + d1 + d2, t);
        lemma_sets_count_concat(d0 + d1, d2, t);
        lemma_sets_count_concat(d0, d1, t);
        lemma_tile_id_roundtrip(t);
        assert(sets_count(hp, t) + pair_part(hpair, t) == if tile_row(t) == 3 {
            row_count(c.rows[3], tile_nib(t))
        } else {
            0
        });
        if pair_row < 3 && tile_row(t) == pair_row {
            let k = tile_nib(pair);
            lemma_row_without(c.rows[pair_row], k, 2);
            if tile_nib(t) != k {
                assert(nibble(row_without(c.rows[pair_row], k, 2), tile_nib(t)) == nibble(
                    c.rows[pair_row],
                    tile_nib(t),
                ));
                assert(t != pair);
            } else {
                assert(t == pair);
            }
        }
    }
    assert forall|i: int| 0 <= i < all.len() implies (#[trigger] all[i]).spec_concealed() && !(all[i] is Kong)
        && set_ok(all[i]) by {
        if i < hp.len() {
            assert(all[i] == hp[i]);
        } else if i < hp.len() + d0.len() {
            assert(all[i] == d0[i - hp.len()]);
        } else if i < hp.len() + d0.len() + d1.len() {
            assert(all[i] == d1[i - hp.len() - d0.len()]);
        } else {
            assert(all[i] == d2[i - hp.len() - d0.len() - d1.len()]);
        }
    }
}

/// Adds one decomposition for each combination: the honor pungs, then the
/// suit sets, with the pair.
pub fn emit_standard(honor_pungs: &Vec<Meld>, pair_tile: Tile, combos: Vec<Vec<Meld>>, out: &mut Vec<ConcealedDecompStd>)
    ensures
        final(out)@.len() == old(out)@.len() + combos@.len(),
        forall|i: int| 0 <= i < old(out)@.len() ==> #[trigger] final(out)@[i] == old(out)@[i],
        forall|j: int| 0 <= j < combos@.len() ==> (#[trigger] final(out)@[old(out)@.len() + j]).pair_tile == pair_tile
            && final(out)@[old(out)@.len() + j].melds@ == honor_pungs@ + combos@[j]@,
        all_distinct(combos@) ==> forall|i: int, j: int|
            old(out)@.len() <= i < j < final(out)@.len() ==> #[trigger] final(out)@[i].melds@
                != #[trigger] final(out)@[j].melds@,
        honors_sorted(honor_pungs@) && suit_lists_sorted(combos@) ==> forall|i: int|
            old(out)@.len() <= i < final(out)@.len() ==> keys_sorted(#[trigger] final(out)@[i].melds@),
{
    let ghost n0 = out@.len();
    let mut i: usize = 0;
    while i < combos.len()
        invariant
            i <= combos@.len(),
            out@.len() == n0 + i,
            forall|j: int| 0 <= j < n0 ==> #[trigger] out@[j] == old(out)@[j],
            forall|j: int| 0 <= j < i ==> (#[trigger] out@[n0 + j]).pair_tile == pair_tile
                && out@[n0 + j].melds@ == honor_pungs@ + combos@[j]@,
        decreases combos@.len() - i,
    {
        let mut sets = copy_melds(honor_pungs);
        let mut part = copy_melds(&combos[i]);
        sets.append(&mut part);
        out.push(ConcealedDecompStd { pair_tile, melds: sets });
        i = i + 1;
    }
    proof {
        if all_distinct(combos@) {
            assert forall|a: int, b: int| n0 <= a < b < out@.len() implies #[trigger] out@[a].melds@
                != #[trigger] out@[b].melds@ by {
                let x = combos@[a - n0]@;
                let y = combos@[b - n0]@;
                assert(out@[n0 + (a - n0)].melds@ == honor_pungs@ + x);
                assert(out@[n0 + (b - n0)].melds@ == honor_pungs@ + y);
                assert(combos@[a - n0]@ != combos@[b - n0]@);
                lemma_prefix_cancel(honor_pungs@, x, y);
            }
        }
        if honors_sorted(honor_pungs@) && suit_lists_sorted(combos@) {
            reveal(honors_sorted);
            reveal(suit_lists_sorted);
            assert forall|i: int| n0 <= i < out@.len() implies keys_sorted(#[trigger] out@[i].melds@) by {
                assert(out@[n0 + (i - n0)].melds@ == honor_pungs@ + combos@[i - n0]@);
                lemma_honors_then_suits(honor_pungs@, combos@[i - n0]@);
            }
        }
    }
}

/// Honor pungs, in order.
#[verifier::opaque]
pub open spec fn honors_sorted(h: Seq<Meld>) -> bool {
    &&& keys_sorted(h)
    &&& forall|k: int| 0 <= k < h.len() ==> tile_row(#[trigger] h[k].spec_tile()) == 3
}

/// The same sets before two lists leave them as different as they were.
pub proof fn lemma_prefix_cancel(h: Seq<Meld>, x: Seq<Meld>, y: Seq<Meld>)
    ensures
        h + x == h + y ==> x == y,
{
    if h + x == h + y {
        assert((h + x).skip(h.len() as int) == x);
        assert((h + y).skip(h.len() as int) == y);
    }
}

/// No two decompositions have the same pair and the same list of sets.
#[verifier::opaque]
pub open spec fn std_distinct(out: Seq<ConcealedDecompStd>, lo: int) -> bool {
    forall|i: int, j: int|
        lo <= i < j < out.len() ==> !(#[trigger] out[i].pair_tile == #[trigger] out[j].pair_tile && out[i].melds@
            == out[j].melds@)
}

/// Decompositions with a new pair, further along the row than every pair
/// before, keep the list free of repeats.
pub proof fn lemma_emit_distinct(
    old_out: Seq<ConcealedDecompStd>,
    out: Seq<ConcealedDecompStd>,
    lo: int,
    pair_tile: Tile,
    shift: int,
    prev: int,
    suit: int,
)
    requires
        0 <= lo <= old_out.len() <= out.len(),
        forall|i: int| 0 <= i < old_out.len() ==> #[trigger] out[i] == old_out[i],
        forall|j: int| 0 <= j < out.len() - old_out.len() ==> (#[trigger] out[old_out.len() + j]).pair_tile == pair_tile,
        forall|i: int, j: int|
            old_out.len() <= i < j < out.len() ==> #[trigger] out[i].melds@ != #[trigger] out[j].melds@,
        forall|j: int| lo <= j < old_out.len() ==> tile_row((#[trigger] old_out[j]).pair_tile) == suit
            && 4 * tile_nib(old_out[j].pair_tile) <= prev,
        std_distinct(old_out, lo),
        prev < shift,
        tile_row(pair_tile) == suit,
        4 * tile_nib(pair_tile) == shift,
    ensures
        forall|j: int| lo <= j < out.len() ==> tile_row((#[trigger] out[j]).pair_tile) == suit
            && 4 * tile_nib(out[j].pair_tile) <= shift,
        std_distinct(out, lo),
{
    reveal(std_distinct);
    let n0 = old_out.len() as int;
    assert forall|j: int| lo <= j < out.len() implies tile_row((#[trigger] out[j]).pair_tile) == suit
        && 4 * tile_nib(out[j].pair_tile) <= shift by {
        if j < n0 {
            assert(out[j] == old_out[j]);
        } else {
            assert(out[n0 + (j - n0)].pair_tile == pair_tile);
        }
    }
    assert forall|i: int, j: int| lo <= i < j < out.len() implies !(#[trigger] out[i].pair_tile
        == #[trigger] out[j].pair_tile && out[i].melds@ == out[j].melds@) by {
        if j < n0 {
            assert(out[i] == old_out[i] && out[j] == old_out[j]);
        } else if i < n0 {
            assert(out[i] == old_out[i]);
            assert(out[n0 + (j - n0)].pair_tile == pair_tile);
        }
    }
}

/// From `lo` on, each decomposition lists its sets in order.
#[verifier::opaque]
pub open spec fn listings_sorted(out: Seq<ConcealedDecompStd>, lo: int) -> bool {
    forall|i: int| lo <= i < out.len() ==> keys_sorted(#[trigger] out[i].melds@)
}

/// Ordered listings added after ordered ones keep the whole in order.
pub proof fn lemma_listings_extend(old_out: Seq<ConcealedDecompStd>, out: Seq<ConcealedDecompStd>, lo: int)
    requires
        listings_sorted(old_out, lo),
        0 <= lo <= old_out.len() <= out.len(),
        forall|i: int| 0 <= i < old_out.len() ==> #[trigger] out[i] == old_out[i],
        forall|i: int| old_out.len() <= i < out.len() ==> keys_sorted(#[trigger] out[i].melds@),
    ensures
        listings_sorted(out, lo),
{
    reveal(listings_sorted);
    assert forall|i: int| lo <= i < out.len() implies keys_sorted(#[trigger] out[i].melds@) by {
        if i < old_out.len() {
            assert(out[i] == old_out[i]);
        }
    }
}

/// The pair positions of a row come in increasing order.
pub proof fn lemma_pair_shifts_increase(row: u64, k: int)
    requires
        0 <= k <= 16,
    ensures
        forall|a: int, b: int|
            0 <= a < b < pair_shifts_upto(row, k).len() ==> #[trigger] pair_shifts_upto(row, k)[a]
                < #[trigger] pair_shifts_upto(row, k)[b],
    decreases k,
{
    if k > 0 {
        lemma_pair_shifts_increase(row, k - 1);
        let prev = pair_shifts_upto(row, k - 1);
        let cur = pair_shifts_upto(row, k);
        assert forall|a: int, b: int| 0 <= a < b < cur.len() implies #[trigger] cur[a] < #[trigger] cur[b] by {
            if b < prev.len() {
                assert(cur[a] == prev[a] && cur[b] == prev[b]);
            } else {
                assert(cur[a] == prev[a]);
                lemma_pair_shifts(row, k - 1, a);
                assert(cur[b] == 4 * (k - 1));
            }
        }
    }
}

/// Every way to take the concealed tiles apart into a pair and pungs and
/// chows. Each decomposition lists the honor pungs first, then the sets of
/// each suit in order, each part by rank; no listing comes twice.
#[verifier::spinoff_prover]
pub fn decompose_standard(counts: &BitTileCounts) -> (r: Vec<ConcealedDecompStd>)
    requires
        counts_ok(*counts),
    ensures
        forall|i: int| 0 <= i < r@.len() ==> hand_sound(*counts, (#[trigger] r@[i]).pair_tile, r@[i].melds@),
        forall|pair: Tile, melds: Seq<Meld>| #[trigger] hand_sound(*counts, pair, melds) ==> found_std(r@, pair, melds),
        std_distinct(r@, 0),
        listings_sorted(r@, 0),
{
    proof {
        assert(row_wf(counts.rows[3]));
        assert(std_distinct(Seq::<ConcealedDecompStd>::empty(), 0)) by {
            reveal(std_distinct);
        }
        assert(listings_sorted(Seq::<ConcealedDecompStd>::empty(), 0)) by {
            reveal(listings_sorted);
        }
    }
    let honors = match parse_honors(counts.rows[3]) {
        Some(h) => h,
        None => {
            proof {
                assert forall|pair: Tile, melds: Seq<Meld>| #[trigger] hand_sound(*counts, pair, melds) implies found_std(
                    Seq::<ConcealedDecompStd>::empty(),
                    pair,
                    melds,
                ) by {
                    lemma_hand_parts(*counts, pair, melds);
                }
            }
            return Vec::new();
        },
    };
    let suit_cache = decompose_all_suits(&counts.rows);
    proof {
        lemma_all_sound_in_row(suit_cache@[0]@, counts.rows[0], 0);
        lemma_all_sound_in_row(suit_cache@[1]@, counts.rows[1], 1);
        lemma_all_sound_in_row(suit_cache@[2]@, counts.rows[2], 2);
    }
    let mut out: Vec<ConcealedDecompStd> = Vec::new();
    // The pair is an honor.
    if let Some(pair_tile) = honors.pair {
        if counts.rows[0] != 0 && suit_cache[0].len() == 0 || counts.rows[1] != 0
            && suit_cache[1].len() == 0 || counts.rows[2] != 0 && suit_cache[2].len() == 0 {
            proof {
                assert forall|pair: Tile, melds: Seq<Meld>| #[trigger] hand_sound(*counts, pair, melds) implies found_std(
                    Seq::<ConcealedDecompStd>::empty(),
                    pair,
                    melds,
                ) by {
                    lemma_honor_pair_suits(*counts, pair, melds, honors.pungs@, honors.pair, suit_cache@[0]@, suit_cache@[1]@, suit_cache@[2]@);
                }
            }
            return Vec::new();
        }
        let combos = combine_suits(&suit_cache);
        let ghost cs = combos@;
        let ghost n0 = out@.len();
        emit_standard(&honors.pungs, pair_tile, combos, &mut out);
        proof {
            assert forall|i: int| 0 <= i < out@.len() implies hand_sound(
                *counts,
                (#[trigger] out@[i]).pair_tile,
                out@[i].melds@,
            ) by {
                assert(n0 == 0);
                assert(out@[n0 + i].pair_tile == pair_tile && out@[n0 + i].melds@ == honors.pungs@ + cs[i]@);
                let c = cs[i]@;
                assert(is_combination(c, suit_cache@[0]@, suit_cache@[1]@, suit_cache@[2]@));
                let (i0, i1, i2) = choose|i0: int, i1: int, i2: int|
                    0 <= i0 < suit_cache@[0]@.len() && 0 <= i1 < suit_cache@[1]@.len() && 0 <= i2
                        < suit_cache@[2]@.len() && c == #[trigger] suit_cache@[0]@[i0]@
                        + #[trigger] suit_cache@[1]@[i1]@ + #[trigger] suit_cache@[2]@[i2]@;
                lemma_tile_id_roundtrip(pair_tile);
                lemma_join_sound(
                    *counts,
                    honors.pungs@,
                    honors.pair,
                    suit_cache@[0]@[i0]@,
                    suit_cache@[1]@[i1]@,
                    suit_cache@[2]@[i2]@,
                    pair_tile,
                    3,
                );
            }
            assert forall|pair: Tile, melds: Seq<Meld>| #[trigger] hand_sound(*counts, pair, melds) implies found_std(
                out@,
                pair,
                melds,
            ) by {
                lemma_honor_pair_suits(*counts, pair, melds, honors.pungs@, honors.pair, suit_cache@[0]@, suit_cache@[1]@, suit_cache@[2]@);
                let j = lemma_join_found(
                    *counts,
                    pair,
                    melds,
                    honors.pungs@,
                    honors.pair,
                    suit_cache@[0]@,
                    suit_cache@[1]@,
                    suit_cache@[2]@,
                    cs,
                );
                assert(out@[n0 + j].pair_tile == pair && out@[n0 + j].melds@ == honors.pungs@ + cs[j]@);
            }
            assert(all_distinct(cs));
            assert(suit_lists_sorted(cs));
            lemma_listings_extend(Seq::<ConcealedDecompStd>::empty(), out@, 0);
            assert(std_distinct(out@, 0)) by {
                reveal(std_distinct);
                assert forall|i: int, j: int| 0 <= i < j < out@.len() implies !(#[trigger] out@[i].pair_tile
                    == #[trigger] out@[j].pair_tile && out@[i].melds@ == out@[j].melds@) by {
                    assert(out@[i].melds@ != out@[j].melds@);
                }
            }
        }
        return out;
    }
    // The pair is a suit tile.
    let mut suit: usize = 0;
    while suit < 3
        invariant
            suit <= 3,
            counts_ok(*counts),
            honors_sound(counts.rows[3], honors.pungs@, honors.pair),
            honors.pair == None::<Tile>,
            all_sound(suit_cache@[0]@, counts.rows[0], 0),
            all_sound(suit_cache@[1]@, counts.rows[1], 1),
            all_sound(suit_cache@[2]@, counts.rows[2], 2),
            all_found(suit_cache@[0]@, counts.rows[0], 0),
            all_found(suit_cache@[1]@, counts.rows[1], 1),
            all_found(suit_cache@[2]@, counts.rows[2], 2),
            forall|i: int| 0 <= i < out@.len() ==> hand_sound(*counts, (#[trigger] out@[i]).pair_tile, out@[i].melds@),
            forall|pair: Tile, melds: Seq<Meld>|
                #[trigger] hand_sound(*counts, pair, melds) && tile_row(pair) < suit ==> found_std(out@, pair, melds),
            all_distinct(suit_cache@[0]@),
            all_distinct(suit_cache@[1]@),
            all_distinct(suit_cache@[2]@),
            forall|j: int| 0 <= j < out@.len() ==> tile_row((#[trigger] out@[j]).pair_tile) < suit,
            std_distinct(out@, 0),
            listings_sorted(out@, 0),
            all_sorted(suit_cache@[0]@),
            all_sorted(suit_cache@[1]@),
            all_sorted(suit_cache@[2]@),
            honors_sorted(honors.pungs@),
        decreases 3 - suit,
    {
        let ghost before = out@;
        try_each_pair_in_suit(suit, counts, &honors, &suit_cache, &mut out);
        proof {
            assert forall|pair: Tile, melds: Seq<Meld>|
                #[trigger] hand_sound(*counts, pair, melds) && tile_row(pair) < suit + 1 implies found_std(
                out@,
                pair,
                melds,
            ) by {
                if tile_row(pair) < suit {
                    lemma_found_std_grow(before, out@, pair, melds);
                }
            }
            lemma_listings_extend(before, out@, 0);
            assert(std_distinct(out@, 0)) by {
                reveal(std_distinct);
                assert forall|i: int, j: int| 0 <= i < j < out@.len() implies !(#[trigger] out@[i].pair_tile
                    == #[trigger] out@[j].pair_tile && out@[i].melds@ == out@[j].melds@) by {
                    if j < before.len() {
                        assert(out@[i] == before[i] && out@[j] == before[j]);
                    } else if i < before.len() {
                        assert(out@[i] == before[i]);
                        assert(tile_row(out@[j].pair_tile) == suit);
                    }
                }
            }
            assert forall|j: int| 0 <= j < out@.len() implies tile_row((#[trigger] out@[j]).pair_tile) < suit + 1 by {
                if j < before.len() {
                    assert(out@[j] == before[j]);
                }
            }
        }
        suit = suit + 1;
    }
    proof {
        assert forall|pair: Tile, melds: Seq<Meld>| #[trigger] hand_sound(*counts, pair, melds) implies found_std(
            out@,
            pair,
            melds,
        ) by {
            lemma_hand_parts(*counts, pair, melds);
            if tile_row(pair) == 3 {
                assert(honors.pair == Some(pair));
            }
        }
    }
    out
}

/// With the pair an honor, a decomposition of the hand has its pair as the
/// honors' pair, and each suit row's sets found among that row's
/// decompositions.
pub proof fn lemma_honor_pair_suits(
    c: BitTileCounts,
    pair: Tile,
    melds: Seq<Meld>,
    hp: Seq<Meld>,
    hpair: Option<Tile>,
    s0: Seq<Vec<Meld>>,
    s1: Seq<Vec<Meld>>,
    s2: Seq<Vec<Meld>>,
)
    requires
        counts_ok(c),
        hand_sound(c, pair, melds),
        honors_sound(c.rows[3], hp, hpair),
        hpair is Some,
        all_found(s0, c.rows[0], 0),
        all_found(s1, c.rows[1], 1),
        all_found(s2, c.rows[2], 2),
    ensures
        hpair == Some(pair),
        tile_row(pair) == 3,
        found_in(s0, sets_of_row(melds, 0)),
        found_in(s1, sets_of_row(melds, 1)),
        found_in(s2, sets_of_row(melds, 2)),
        c.rows[0] != 0 ==> s0.len() > 0,
        c.rows[1] != 0 ==> s1.len() > 0,
        c.rows[2] != 0 ==> s2.len() > 0,
{
    lemma_hand_parts(c, pair, melds);
    assert(row_less_pair(c, pair, 0) == c.rows[0]);
    assert(row_less_pair(c, pair, 1) == c.rows[1]);
    assert(row_less_pair(c, pair, 2) == c.rows[2]);
}

/// A decomposition with its pair at `shift` of suit `suit` has that pair,
/// and each suit row's sets found among that row's decompositions, the
/// pair's suit taken from `pd`.
pub proof fn lemma_pair_here(
    c: BitTileCounts,
    suit: int,
    shift: int,
    pair_tile: Tile,
    rmp: u64,
    pd: Seq<Vec<Meld>>,
    s0: Seq<Vec<Meld>>,
    s1: Seq<Vec<Meld>>,
    s2: Seq<Vec<Meld>>,
)
    requires
        counts_ok(c),
        0 <= suit < 3,
        0 <= shift < 64,
        shift % 4 == 0,
        pair_tile == tile_of_id(suit * 64 + shift),
        rmp == row_without(c.rows[suit], shift / 4, 2),
        all_found(pd, rmp, suit),
        all_found(s0, c.rows[0], 0),
        all_found(s1, c.rows[1], 1),
        all_found(s2, c.rows[2], 2),
    ensures
        forall|pair: Tile, melds: Seq<Meld>|
            #[trigger] hand_sound(c, pair, melds) && tile_row(pair) == suit && 4 * tile_nib(pair) == shift ==> pair
                == pair_tile && found_in(if suit == 0 { pd } else { s0 }, sets_of_row(melds, 0)) && found_in(
                if suit == 1 { pd } else { s1 },
                sets_of_row(melds, 1),
            ) && found_in(if suit == 2 { pd } else { s2 }, sets_of_row(melds, 2)),
{
    assert forall|pair: Tile, melds: Seq<Meld>|
        #[trigger] hand_sound(c, pair, melds) && tile_row(pair) == suit && 4 * tile_nib(pair) == shift implies pair
            == pair_tile && found_in(if suit == 0 { pd } else { s0 }, sets_of_row(melds, 0)) && found_in(
            if suit == 1 { pd } else { s1 },
            sets_of_row(melds, 1),
        ) && found_in(if suit == 2 { pd } else { s2 }, sets_of_row(melds, 2)) by {
        lemma_hand_parts(c, pair, melds);
        lemma_tile_id_roundtrip(pair);
        assert(row_less_pair(c, pair, suit) == rmp);
    }
}

/// The decompositions added with the pair at nibble `k` of suit `suit`,
/// like those before them, decompose the tiles.
pub proof fn lemma_emit_sound(
    c: BitTileCounts,
    suit: int,
    k: int,
    hp: Seq<Meld>,
    hpair: Option<Tile>,
    pair_tile: Tile,
    sel0: Seq<Vec<Meld>>,
    sel1: Seq<Vec<Meld>>,
    sel2: Seq<Vec<Meld>>,
    cs: Seq<Vec<Meld>>,
    old_out: Seq<ConcealedDecompStd>,
    outv: Seq<ConcealedDecompStd>,
)
    requires
        counts_ok(c),
        0 <= suit < 3,
        0 <= k < 16,
        honors_sound(c.rows[3], hp, hpair),
        hpair == None::<Tile>,
        !pair_tile.spec_is_flower(),
        tile_row(pair_tile) == suit,
        tile_nib(pair_tile) == k,
        row_count(c.rows[suit], k) >= 2,
        all_sound(sel0, if suit == 0 { row_without(c.rows[0], k, 2) } else { c.rows[0] }, 0),
        all_sound(sel1, if suit == 1 { row_without(c.rows[1], k, 2) } else { c.rows[1] }, 1),
        all_sound(sel2, if suit == 2 { row_without(c.rows[2], k, 2) } else { c.rows[2] }, 2),
        forall|j: int| 0 <= j < cs.len() ==> is_combination(#[trigger] cs[j]@, sel0, sel1, sel2),
        outv.len() == old_out.len() + cs.len(),
        forall|i: int| 0 <= i < old_out.len() ==> #[trigger] outv[i] == old_out[i],
        forall|j: int|
            0 <= j < cs.len() ==> (#[trigger] outv[old_out.len() + j]).pair_tile == pair_tile && outv[old_out.len()
                + j].melds@ == hp + cs[j]@,
        forall|i: int| 0 <= i < old_out.len() ==> hand_sound(c, (#[trigger] old_out[i]).pair_tile, old_out[i].melds@),
    ensures
        forall|i: int| 0 <= i < outv.len() ==> hand_sound(c, (#[trigger] outv[i]).pair_tile, outv[i].melds@),
{
    let n0 = old_out.len();
    assert forall|i: int| 0 <= i < outv.len() implies hand_sound(c, (#[trigger] outv[i]).pair_tile, outv[i].melds@) by {
        if i < n0 {
            assert(outv[i] == old_out[i]);
        } else {
            assert(outv[n0 + (i - n0)].pair_tile == pair_tile && outv[n0 + (i - n0)].melds@ == hp + cs[i - n0]@);
            let x = cs[i - n0]@;
            assert(is_combination(x, sel0, sel1, sel2));
            let (i0, i1, i2) = choose|i0: int, i1: int, i2: int|
                0 <= i0 < sel0.len() && 0 <= i1 < sel1.len() && 0 <= i2 < sel2.len() && x == #[trigger] sel0[i0]@
                    + #[trigger] sel1[i1]@ + #[trigger] sel2[i2]@;
            lemma_join_sound(c, hp, hpair, sel0[i0]@, sel1[i1]@, sel2[i2]@, pair_tile, suit);
        }
    }
}

/// After the decompositions with the pair at `positions[p]` are added, every
/// decomposition with its pair at one of the first `p + 1` positions is
/// found.
pub proof fn lemma_emit_found(
    c: BitTileCounts,
    suit: int,
    hp: Seq<Meld>,
    hpair: Option<Tile>,
    pair_tile: Tile,
    positions: Seq<usize>,
    p: int,
    sel0: Seq<Vec<Meld>>,
    sel1: Seq<Vec<Meld>>,
    sel2: Seq<Vec<Meld>>,
    cs: Seq<Vec<Meld>>,
    old_out: Seq<ConcealedDecompStd>,
    outv: Seq<ConcealedDecompStd>,
)
    requires
        counts_ok(c),
        honors_sound(c.rows[3], hp, hpair),
        0 <= p < positions.len(),
        forall|pair: Tile, melds: Seq<Meld>|
            #[trigger] hand_sound(c, pair, melds) && tile_row(pair) == suit && 4 * tile_nib(pair) == positions[p] ==> pair
                == pair_tile && found_in(sel0, sets_of_row(melds, 0)) && found_in(sel1, sets_of_row(melds, 1))
                && found_in(sel2, sets_of_row(melds, 2)),
        all_joins(cs, sel0, sel1, sel2, sel0.len() as int, sel1.len() as int, sel2.len() as int),
        outv.len() == old_out.len() + cs.len(),
        forall|i: int| 0 <= i < old_out.len() ==> #[trigger] outv[i] == old_out[i],
        forall|j: int|
            0 <= j < cs.len() ==> (#[trigger] outv[old_out.len() + j]).pair_tile == pair_tile && outv[old_out.len()
                + j].melds@ == hp + cs[j]@,
        forall|pair: Tile, melds: Seq<Meld>|
            #[trigger] hand_sound(c, pair, melds) && tile_row(pair) == suit && listed_before(positions, p, 4 * tile_nib(pair))
                ==> found_std(old_out, pair, melds),
    ensures
        forall|pair: Tile, melds: Seq<Meld>|
            #[trigger] hand_sound(c, pair, melds) && tile_row(pair) == suit && listed_before(positions, p + 1, 4 * tile_nib(pair))
                ==> found_std(outv, pair, melds),
{
    let n0 = old_out.len();
    assert forall|pair: Tile, melds: Seq<Meld>|
        #[trigger] hand_sound(c, pair, melds) && tile_row(pair) == suit && listed_before(positions, p + 1, 4 * tile_nib(pair))
            implies found_std(outv, pair, melds) by {
        if listed_before(positions, p, 4 * tile_nib(pair)) {
            lemma_found_std_grow(old_out, outv, pair, melds);
        } else {
            assert(4 * tile_nib(pair) == positions[p]);
            let j = lemma_join_found(c, pair, melds, hp, hpair, sel0, sel1, sel2, cs);
            assert(outv[n0 + j].pair_tile == pair && outv[n0 + j].melds@ == hp + cs[j]@);
            assert(outv[n0 + j].melds@.to_multiset() == melds.to_multiset());
        }
    }
}

/// The shift is among the first `p` listed.
pub open spec fn listed_before(positions: Seq<usize>, p: int, shift: int) -> bool {
    exists|idx: int| 0 <= idx < p && #[trigger] positions[idx] == shift
}

/// Every nibble that holds two tiles or more is listed.
pub proof fn lemma_pair_shift_listed(row: u64, k: int, n: int) -> (idx: int)
    requires
        0 <= k < n <= 16,
        row_count(row, k) >= 2,
    ensures
        0 <= idx < pair_shifts_upto(row, n).len(),
        pair_shifts_upto(row, n)[idx] == 4 * k,
    decreases n,
{
    let prev = pair_shifts_upto(row, n - 1);
    if k == n - 1 {
        prev.len() as int
    } else {
        let idx = lemma_pair_shift_listed(row, k, n - 1);
        assert(pair_shifts_upto(row, n)[idx] == prev[idx]);
        idx
    }
}

/// A decomposition found stays found while outputs are only added.
pub proof fn lemma_found_std_grow(a: Seq<ConcealedDecompStd>, b: Seq<ConcealedDecompStd>, pair: Tile, melds: Seq<Meld>)
    requires
        found_std(a, pair, melds),
        a.len() <= b.len(),
        forall|i: int| 0 <= i < a.len() ==> #[trigger] b[i] == a[i],
    ensures
        found_std(b, pair, melds),
{
    let i = choose|i: int|
        0 <= i < a.len() && a[i].pair_tile == pair && #[trigger] a[i].melds@.to_multiset() == melds.to_multiset();
    assert(b[i] == a[i]);
}

/// The decompositions with the pair taken at each pair position of one suit.
#[verifier::spinoff_prover]
fn try_each_pair_in_suit(
    suit_idx: usize,
    counts: &BitTileCounts,
    honors: &HonorResult,
    suit_cache: &[Vec<Vec<Meld>>; 3],
    out: &mut Vec<ConcealedDecompStd>,
)
    requires
        suit_idx < 3,
        counts_ok(*counts),
        honors_sound(counts.rows[3], honors.pungs@, honors.pair),
        honors.pair == None::<Tile>,
        all_sound(suit_cache@[0]@, counts.rows[0], 0),
        all_sound(suit_cache@[1]@, counts.rows[1], 1),
        all_sound(suit_cache@[2]@, counts.rows[2], 2),
        all_found(suit_cache@[0]@, counts.rows[0], 0),
        all_found(suit_cache@[1]@, counts.rows[1], 1),
        all_found(suit_cache@[2]@, counts.rows[2], 2),
        forall|i: int| 0 <= i < old(out)@.len() ==> hand_sound(*counts, (#[trigger] old(out)@[i]).pair_tile, old(out)@[i].melds@),
        all_distinct(suit_cache@[0]@),
        all_distinct(suit_cache@[1]@),
        all_distinct(suit_cache@[2]@),
        all_sorted(suit_cache@[0]@),
        all_sorted(suit_cache@[1]@),
        all_sorted(suit_cache@[2]@),
        honors_sorted(honors.pungs@),
    ensures
        forall|i: int| old(out)@.len() <= i < final(out)@.len() ==> keys_sorted(#[trigger] final(out)@[i].melds@),
        forall|i: int| old(out)@.len() <= i < final(out)@.len() ==> tile_row((#[trigger] final(out)@[i]).pair_tile) == suit_idx,
        std_distinct(final(out)@, old(out)@.len() as int),
        old(out)@.len() <= final(out)@.len(),
        forall|i: int| 0 <= i < old(out)@.len() ==> #[trigger] final(out)@[i] == old(out)@[i],
        forall|i: int| 0 <= i < final(out)@.len() ==> hand_sound(*counts, (#[trigger] final(out)@[i]).pair_tile, final(out)@[i].melds@),
        forall|pair: Tile, melds: Seq<Meld>|
            #[trigger] hand_sound(*counts, pair, melds) && tile_row(pair) == suit_idx ==> found_std(final(out)@, pair, melds),
{
    let ghost out0 = out@;
    // The other suits split the same way wherever the pair is.
    let mut i: usize = 0;
    while i < 3
        invariant
            i <= 3,
            suit_idx < 3,
            out@ == out0,
            forall|j: int| 0 <= j < out@.len() ==> hand_sound(*counts, (#[trigger] out@[j]).pair_tile, out@[j].melds@),
            counts_ok(*counts),
            all_found(suit_cache@[0]@, counts.rows[0], 0),
            all_found(suit_cache@[1]@, counts.rows[1], 1),
            all_found(suit_cache@[2]@, counts.rows[2], 2),
        decreases 3 - i,
    {
        if i != suit_idx && counts.rows[i] != 0 && suit_cache[i].len() == 0 {
            proof {
                assert forall|pair: Tile, melds: Seq<Meld>|
                    #[trigger] hand_sound(*counts, pair, melds) && tile_row(pair) == suit_idx implies found_std(
                    out@,
                    pair,
                    melds,
                ) by {
                    lemma_hand_parts(*counts, pair, melds);
                    assert(row_less_pair(*counts, pair, i as int) == counts.rows[i as int]);
                    assert(found_in(suit_cache@[i as int]@, sets_of_row(melds, i as int)));
                }
                assert(std_distinct(out@, out0.len() as int)) by {
                    reveal(std_distinct);
                }
            }
            return;
        }
        i = i + 1;
    }
    let row = counts.rows[suit_idx];
    proof {
        assert(row_ok(counts.rows[suit_idx as int], suit_idx as int));
    }
    proof {
        assert(std_distinct(out@, out0.len() as int)) by {
            reveal(std_distinct);
        }
    }
    let positions = pair_positions_in_row(row);
    let mut p: usize = 0;
    while p < positions.len()
        invariant
            suit_idx < 3,
            row == counts.rows[suit_idx as int],
            row_ok(row, suit_idx as int),
            positions@ == pair_shifts_upto(row, 16),
            p <= positions@.len(),
            counts_ok(*counts),
            honors_sound(counts.rows[3], honors.pungs@, honors.pair),
            honors.pair == None::<Tile>,
            all_sound(suit_cache@[0]@, counts.rows[0], 0),
            all_sound(suit_cache@[1]@, counts.rows[1], 1),
            all_sound(suit_cache@[2]@, counts.rows[2], 2),
            all_found(suit_cache@[0]@, counts.rows[0], 0),
            all_found(suit_cache@[1]@, counts.rows[1], 1),
            all_found(suit_cache@[2]@, counts.rows[2], 2),
            forall|j: int| 0 <= j < out@.len() ==> hand_sound(*counts, (#[trigger] out@[j]).pair_tile, out@[j].melds@),
            out0.len() <= out@.len(),
            forall|j: int| 0 <= j < out0.len() ==> #[trigger] out@[j] == out0[j],
            all_distinct(suit_cache@[0]@),
            all_distinct(suit_cache@[1]@),
            all_distinct(suit_cache@[2]@),
            p == 0 ==> out@.len() == out0.len(),
            forall|j: int| out0.len() <= j < out@.len() ==> tile_row((#[trigger] out@[j]).pair_tile) == suit_idx
                && 4 * tile_nib(out@[j].pair_tile) <= positions@[p - 1],
            std_distinct(out@, out0.len() as int),
            all_sorted(suit_cache@[0]@),
            all_sorted(suit_cache@[1]@),
            all_sorted(suit_cache@[2]@),
            honors_sorted(honors.pungs@),
            forall|i: int| out0.len() <= i < out@.len() ==> keys_sorted(#[trigger] out@[i].melds@),
            forall|pair: Tile, melds: Seq<Meld>|
                #[trigger] hand_sound(*counts, pair, melds) && tile_row(pair) == suit_idx && listed_before(
                    positions@,
                    p as int,
                    4 * tile_nib(pair),
                ) ==> found_std(out@, pair, melds),
        decreases positions@.len() - p,
    {
        let shift = positions[p];
        proof {
            lemma_pair_shifts(row, 16, p as int);
            lemma_pair_shifts_increase(row, 16);
            if p > 0 {
                assert(positions@[p - 1] < positions@[p as int]);
            }
        }
        let ghost k = shift as int / 4;
        proof {
            assert(is_tile_id(suit_idx * 64 + 4 * k));
            lemma_tile_at(Tile::Character1, suit_idx as int, k);
        }
        let pair_tile = BitTileCounts::position_to_tile(suit_idx, shift);
        let mut row_minus_pair = row;
        BitTileCounts::remove_nibble(&mut row_minus_pair, shift, 2);
        proof {
            lemma_row_ok_without(row, suit_idx as int, k, 2);
            lemma_tile_id_roundtrip(pair_tile);
        }
        let pair_decomps = decompose_suit(row_minus_pair, suit_idx);
        let ghost sel0 = if suit_idx == 0 { pair_decomps@ } else { suit_cache@[0]@ };
        let ghost sel1 = if suit_idx == 1 { pair_decomps@ } else { suit_cache@[1]@ };
        let ghost sel2 = if suit_idx == 2 { pair_decomps@ } else { suit_cache@[2]@ };
        proof {
            lemma_pair_here(
                *counts,
                suit_idx as int,
                shift as int,
                pair_tile,
                row_minus_pair,
                pair_decomps@,
                suit_cache@[0]@,
                suit_cache@[1]@,
                suit_cache@[2]@,
            );
        }
        if row_minus_pair != 0 && pair_decomps.len() == 0 {
            proof {
                assert forall|pair: Tile, melds: Seq<Meld>|
                    #[trigger] hand_sound(*counts, pair, melds) && tile_row(pair) == suit_idx && listed_before(
                        positions@,
                        p + 1,
                        4 * tile_nib(pair),
                    ) implies found_std(out@, pair, melds) by {
                    if !listed_before(positions@, p as int, 4 * tile_nib(pair)) {
                        assert(4 * tile_nib(pair) == shift);
                        assert(found_in(pair_decomps@, sets_of_row(melds, suit_idx as int)));
                    }
                }
            }
            p = p + 1;
            continue;
        }
        proof {
            lemma_all_sound_in_row(pair_decomps@, row_minus_pair, suit_idx as int);
            lemma_all_sound_in_row(suit_cache@[0]@, counts.rows[0], 0);
            lemma_all_sound_in_row(suit_cache@[1]@, counts.rows[1], 1);
            lemma_all_sound_in_row(suit_cache@[2]@, counts.rows[2], 2);
            assert(suits_apart(sel0, sel1, sel2));
        }
        let combos = combine_suits_with(suit_cache, suit_idx, &pair_decomps);
        let ghost cs = combos@;
        let ghost n0 = out@.len();
        let ghost old_out = out@;
        emit_standard(&honors.pungs, pair_tile, combos, out);
        proof {
            lemma_emit_sound(
                *counts,
                suit_idx as int,
                k,
                honors.pungs@,
                honors.pair,
                pair_tile,
                sel0,
                sel1,
                sel2,
                cs,
                old_out,
                out@,
            );
            lemma_emit_found(
                *counts,
                suit_idx as int,
                honors.pungs@,
                honors.pair,
                pair_tile,
                positions@,
                p as int,
                sel0,
                sel1,
                sel2,
                cs,
                old_out,
                out@,
            );
            assert(tile_row(pair_tile) == suit_idx && 4 * tile_nib(pair_tile) == shift);
            assert(suit_lists_sorted(cs));
            assert forall|i: int| out0.len() <= i < out@.len() implies keys_sorted(#[trigger] out@[i].melds@) by {
                if i < n0 {
                    assert(out@[i] == old_out[i]);
                }
            }
            lemma_emit_distinct(
                old_out,
                out@,
                out0.len() as int,
                pair_tile,
                shift as int,
                if p > 0 { positions@[p - 1] as int } else { -1 },
                suit_idx as int,
            );
        }
        p = p + 1;
    }
    proof {
        assert forall|pair: Tile, melds: Seq<Meld>|
            #[trigger] hand_sound(*counts, pair, melds) && tile_row(pair) == suit_idx implies found_std(
            out@,
            pair,
            melds,
        ) by {
            lemma_hand_parts(*counts, pair, melds);
            lemma_tile_id_roundtrip(pair);
            let idx = lemma_pair_shift_listed(row, tile_nib(pair), 16);
            assert(listed_before(positions@, p as int, 4 * tile_nib(pair)));
        }
    }
}

} // verus!
