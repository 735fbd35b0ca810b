//! Why the search finds every decomposition: the lowest tile of a row is
//! covered by a pung of it or by a chow starting at it, and taking that set
//! out leaves a decomposition of the rest.

use vstd::prelude::*;
use vstd::multiset::*;
use vstd::seq_lib::*;

use crate::solver::decompose_standard::{
    counts_ok, hand_sound, honor_pairs_upto, honors_sound, honors_valid, lemma_tile_at, pair_part, row_ok,
    row_sound, tile_at,
};
use crate::solver::decomposition::{
    lemma_meld_tiles_count, lemma_sets_count_concat, lemma_sets_count_one, set_ok, sets_count,
    tiles_count,
};
use crate::structs::hand::{
    is_fill, lemma_row_without, nibble, row_count, row_without, row_wf, tile_nib, tile_row,
};
use crate::structs::tiles::{is_tile_id, lemma_id_tile_roundtrip, lemma_tile_id_roundtrip};
use crate::structs::sets::lemma_meld_eq;
use crate::structs::{BitTileCounts, Meld, Tile};

verus! {

/// Counting over the sets with one of them taken out.
pub proof fn lemma_sets_count_remove(d: Seq<Meld>, j: int, t: Tile)
    requires
        0 <= j < d.len(),
    ensures
        sets_count(d.remove(j), t) + tiles_count(d[j].spec_tiles(), t) == sets_count(d, t),
{
    let a = d.take(j);
    let b = d.skip(j + 1);
    assert(d == a + seq![d[j]] + b);
    assert(d.remove(j) == a + b);
    lemma_sets_count_concat(a, b, t);
    lemma_sets_count_concat(a + seq![d[j]], b, t);
    lemma_sets_count_concat(a, seq![d[j]], t);
    lemma_sets_count_one(d[j], t);
}

/// A tile that the sets hold is held by one of them.
pub proof fn lemma_sets_count_holder(d: Seq<Meld>, t: Tile) -> (j: int)
    requires
        sets_count(d, t) > 0,
    ensures
        0 <= j < d.len(),
        tiles_count(d[j].spec_tiles(), t) > 0,
    decreases d.len(),
{
    if tiles_count(d.last().spec_tiles(), t) > 0 {
        d.len() - 1
    } else {
        let j = lemma_sets_count_holder(d.drop_last(), t);
        assert(d.drop_last()[j] == d[j]);
        j
    }
}

/// In a decomposition of a row whose lowest tile is at nibble `k`, some set
/// is a pung of that tile or a chow starting at it.
pub proof fn lemma_lowest_set(row: u64, ri: int, d: Seq<Meld>, k: int) -> (j: int)
    requires
        row_ok(row, ri),
        0 <= ri < 3,
        row_sound(row, ri, d),
        0 <= k < 16,
        row_count(row, k) > 0,
        forall|i: int| 0 <= i < k ==> #[trigger] row_count(row, i) == 0,
    ensures
        0 <= j < d.len(),
        d[j] is Pung || d[j] is Chow,
        d[j].spec_tile() == tile_at(ri, k),
{
    assert(is_tile_id(ri * 64 + 4 * k));
    lemma_tile_at(Tile::Character1, ri, k);
    let t = tile_at(ri, k);
    assert(sets_count(d, t) == row_count(row, k));
    let j = lemma_sets_count_holder(d, t);
    let m = d[j];
    lemma_meld_tiles_count(m, t);
    lemma_sets_count_remove(d, j, t);
    assert(set_ok(m));
    if let Meld::Chow(c) = m {
        let s = c.spec_start();
        if s != t {
            lemma_tile_id_roundtrip(s);
            lemma_id_tile_roundtrip(s.spec_id() + 4);
            lemma_id_tile_roundtrip(s.spec_id() + 8);
            let b = if t == s.spec_next() { 1int } else { 2int };
            assert(s.spec_id() == t.spec_id() - 4 * b);
            assert(tile_row(s) == ri && tile_nib(s) == k - b);
            lemma_meld_tiles_count(m, s);
            lemma_sets_count_remove(d, j, s);
            assert(row_count(row, k - b) > 0);
            assert(false);
        }
    }
    j
}

/// A pung of the tile at nibble `k` can be taken out of a decomposition of
/// the row: what is left decomposes the row without those three tiles.
pub proof fn lemma_remove_pung(row: u64, ri: int, d: Seq<Meld>, j: int, k: int)
    requires
        row_ok(row, ri),
        0 <= ri < 3,
        row_sound(row, ri, d),
        0 <= j < d.len(),
        d[j] is Pung,
        0 <= k < 16,
        is_tile_id(ri * 64 + 4 * k),
        d[j].spec_tile() == tile_at(ri, k),
    ensures
        row_count(row, k) >= 3,
        row_sound(row_without(row, k, 3), ri, d.remove(j)),
{
    lemma_tile_at(Tile::Character1, ri, k);
    let t = tile_at(ri, k);
    lemma_sets_count_remove(d, j, t);
    lemma_meld_tiles_count(d[j], t);
    let next = row_without(row, k, 3);
    lemma_row_without(row, k, 3);
    let e = d.remove(j);
    assert forall|u: Tile| #![trigger sets_count(e, u)]
        !u.spec_is_flower() implies sets_count(e, u) == if tile_row(u) == ri {
            row_count(next, tile_nib(u))
        } else {
            0
        } by {
        lemma_sets_count_remove(d, j, u);
        lemma_meld_tiles_count(d[j], u);
        lemma_tile_at(u, ri, k);
        assert(sets_count(d, u) == if tile_row(u) == ri {
            row_count(row, tile_nib(u))
        } else {
            0
        });
        if tile_row(u) == ri && tile_nib(u) != k {
            lemma_tile_id_roundtrip(u);
            assert(0 <= tile_nib(u) < 16);
            assert(nibble(next, tile_nib(u)) == nibble(row, tile_nib(u)));
        }
    }
    assert forall|i: int| 0 <= i < e.len() implies (#[trigger] e[i]).spec_concealed() && !(e[i] is Kong)
        && set_ok(e[i]) by {
        if i < j {
            assert(e[i] == d[i]);
        } else {
            assert(e[i] == d[i + 1]);
        }
    }
}

/// A chow starting at the tile at nibble `k` can be taken out of a
/// decomposition of the row: the next two tiles are there, and what is left
/// decomposes the row without the three tiles.
pub proof fn lemma_remove_chow(row: u64, ri: int, d: Seq<Meld>, j: int, k: int)
    requires
        row_ok(row, ri),
        0 <= ri < 3,
        row_sound(row, ri, d),
        0 <= j < d.len(),
        d[j] is Chow,
        0 <= k < 16,
        is_tile_id(ri * 64 + 4 * k),
        d[j].spec_tile() == tile_at(ri, k),
    ensures
        k + 2 < 16,
        is_tile_id(ri * 64 + 4 * (k + 1)),
        is_tile_id(ri * 64 + 4 * (k + 2)),
        row_count(row, k) >= 1,
        row_count(row, k + 1) >= 1,
        row_count(row, k + 2) >= 1,
        row_sound(
            row_without(row_without(row_without(row, k, 1), k + 1, 1), k + 2, 1),
            ri,
            d.remove(j),
        ),
{
    lemma_tile_at(Tile::Character1, ri, k);
    assert(set_ok(d[j]));
    assert(k <= 6);
    lemma_tile_at(Tile::Character1, ri, k + 1);
    lemma_tile_at(Tile::Character1, ri, k + 2);
    let t0 = tile_at(ri, k);
    let t1 = tile_at(ri, k + 1);
    let t2 = tile_at(ri, k + 2);
    assert(t0.spec_next() == t1);
    assert(t1.spec_next() == t2);
    lemma_sets_count_remove(d, j, t0);
    lemma_sets_count_remove(d, j, t1);
    lemma_sets_count_remove(d, j, t2);
    lemma_meld_tiles_count(d[j], t0);
    lemma_meld_tiles_count(d[j], t1);
    lemma_meld_tiles_count(d[j], t2);
    let r1 = row_without(row, k, 1);
    let r2 = row_without(r1, k + 1, 1);
    let r3 = row_without(r2, k + 2, 1);
    lemma_row_without(row, k, 1);
    assert(nibble(r1, k + 1) == nibble(row, k + 1));
    assert(nibble(r1, k + 2) == nibble(row, k + 2));
    lemma_row_without(r1, k + 1, 1);
    assert(nibble(r2, k + 2) == nibble(r1, k + 2));
    lemma_row_without(r2, k + 2, 1);
    let e = d.remove(j);
    assert forall|u: Tile| #![trigger sets_count(e, u)]
        !u.spec_is_flower() implies sets_count(e, u) == if tile_row(u) == ri {
            row_count(r3, tile_nib(u))
        } else {
            0
        } by {
        lemma_sets_count_remove(d, j, u);
        lemma_meld_tiles_count(d[j], u);
        lemma_tile_at(u, ri, k);
        lemma_tile_at(u, ri, k + 1);
        lemma_tile_at(u, ri, k + 2);
        lemma_tile_id_roundtrip(u);
        assert(sets_count(d, u) == if tile_row(u) == ri {
            row_count(row, tile_nib(u))
        } else {
            0
        });
        if tile_row(u) == ri {
            let i = tile_nib(u);
            assert(0 <= i < 16);
            if i != k && i != k + 1 && i != k + 2 {
                assert(nibble(r3, i) == nibble(r2, i));
                assert(nibble(r2, i) == nibble(r1, i));
                assert(nibble(r1, i) == nibble(row, i));
            } else if i == k {
                assert(nibble(r3, i) == nibble(r2, i));
                assert(nibble(r2, i) == nibble(r1, i));
            } else if i == k + 1 {
                assert(nibble(r3, i) == nibble(r2, i));
            }
        }
    }
    assert forall|i: int| 0 <= i < e.len() implies (#[trigger] e[i]).spec_concealed() && !(e[i] is Kong)
        && set_ok(e[i]) by {
        if i < j {
            assert(e[i] == d[i]);
        } else {
            assert(e[i] == d[i + 1]);
        }
    }
}

/// Putting a set back in front of the others gives the sets of `d` again,
/// in some order.
pub proof fn lemma_put_back(m: Meld, rest: Seq<Meld>, d: Seq<Meld>, j: int)
    requires
        0 <= j < d.len(),
        d[j] == m,
        rest.to_multiset() == d.remove(j).to_multiset(),
    ensures
        (seq![m] + rest).to_multiset() == d.to_multiset(),
{
    broadcast use group_to_multiset_ensures, group_multiset_axioms;

    lemma_multiset_commutative(seq![m], rest);
    assert(seq![m].to_multiset() =~= Multiset::empty().insert(m)) by {
        assert(seq![m] == Seq::<Meld>::empty().push(m));
    }
    assert(d.contains(d[j]));
    assert(d.remove(j).to_multiset() == d.to_multiset().remove(m));
    assert((seq![m] + rest).to_multiset() =~= d.to_multiset());
}

// ── Taking a decomposition of the hand apart by rows ─────────────

/// The sets are concealed pungs and chows, each chow inside its suit.
pub open spec fn sets_ok(ms: Seq<Meld>) -> bool {
    forall|i: int| 0 <= i < ms.len() ==> (#[trigger] ms[i]).spec_concealed() && !(ms[i] is Kong) && set_ok(ms[i])
}

/// The sets whose tile lies in row `ri`, in order.
pub open spec fn sets_of_row(ms: Seq<Meld>, ri: int) -> Seq<Meld>
    decreases ms.len(),
{
    if ms.len() == 0 {
        Seq::empty()
    } else {
        sets_of_row(ms.drop_last(), ri) + if tile_row(ms.last().spec_tile()) == ri {
            seq![ms.last()]
        } else {
            Seq::empty()
        }
    }
}

/// The row of `t` after the pair is taken out of it.
pub open spec fn row_less_pair(c: BitTileCounts, pair: Tile, ri: int) -> u64 {
    if tile_row(pair) == ri {
        row_without(c.rows[ri], tile_nib(pair), 2)
    } else {
        c.rows[ri]
    }
}

/// Every tile of a set lies in the row of the set.
proof fn lemma_set_row(m: Meld, t: Tile)
    requires
        set_ok(m),
        tiles_count(m.spec_tiles(), t) > 0,
    ensures
        tile_row(t) == tile_row(m.spec_tile()),
{
    lemma_meld_tiles_count(m, t);
    if let Meld::Chow(c) = m {
        let s = c.spec_start();
        lemma_tile_id_roundtrip(s);
        lemma_id_tile_roundtrip(s.spec_id() + 4);
        lemma_id_tile_roundtrip(s.spec_id() + 8);
    }
}

/// The sets of one row hold the tiles of that row and no other.
pub proof fn lemma_row_part_count(ms: Seq<Meld>, ri: int, t: Tile)
    requires
        forall|i: int| 0 <= i < ms.len() ==> set_ok(#[trigger] ms[i]),
    ensures
        sets_count(sets_of_row(ms, ri), t) == if tile_row(t) == ri {
            sets_count(ms, t)
        } else {
            0
        },
    decreases ms.len(),
{
    if ms.len() > 0 {
        let m = ms.last();
        let rest = ms.drop_last();
        assert forall|i: int| 0 <= i < rest.len() implies set_ok(#[trigger] rest[i]) by {
            assert(rest[i] == ms[i]);
        }
        lemma_row_part_count(rest, ri, t);
        let tail = if tile_row(m.spec_tile()) == ri {
            seq![m]
        } else {
            Seq::<Meld>::empty()
        };
        lemma_sets_count_concat(sets_of_row(rest, ri), tail, t);
        lemma_sets_count_one(m, t);
        assert(sets_count(Seq::<Meld>::empty(), t) == 0);
        assert(set_ok(m));
        if tiles_count(m.spec_tiles(), t) > 0 {
            lemma_set_row(m, t);
        }
    }
}

/// The sets of one row are sets of the whole list, all in that row.
pub proof fn lemma_row_part_sets(ms: Seq<Meld>, ri: int)
    requires
        sets_ok(ms),
    ensures
        sets_ok(sets_of_row(ms, ri)),
        forall|i: int| 0 <= i < sets_of_row(ms, ri).len() ==> tile_row(#[trigger] sets_of_row(ms, ri)[i].spec_tile()) == ri,
    decreases ms.len(),
{
    if ms.len() > 0 {
        let m = ms.last();
        let rest = ms.drop_last();
        assert forall|i: int| 0 <= i < rest.len() implies (#[trigger] rest[i]).spec_concealed() && !(rest[i] is Kong)
            && set_ok(rest[i]) by {
            assert(rest[i] == ms[i]);
        }
        lemma_row_part_sets(rest, ri);
        let part = sets_of_row(ms, ri);
        let prev = sets_of_row(rest, ri);
        assert(ms[ms.len() - 1] == m);
        assert forall|i: int| 0 <= i < part.len() implies (#[trigger] part[i]).spec_concealed() && !(part[i] is Kong)
            && set_ok(part[i]) && tile_row(part[i].spec_tile()) == ri by {
            if i < prev.len() {
                assert(part[i] == prev[i]);
            } else {
                assert(part[i] == m);
            }
        }
    }
}

/// The sets of the four rows together are the sets of the list.
pub proof fn lemma_parts_multiset(ms: Seq<Meld>)
    requires
        forall|i: int| 0 <= i < ms.len() ==> !(#[trigger] ms[i]).spec_tile().spec_is_flower(),
    ensures
        (sets_of_row(ms, 3) + (sets_of_row(ms, 0) + sets_of_row(ms, 1) + sets_of_row(ms, 2))).to_multiset()
            == ms.to_multiset(),
    decreases ms.len(),
{
    broadcast use group_to_multiset_ensures, group_multiset_axioms;

    let p3 = sets_of_row(ms, 3);
    let p0 = sets_of_row(ms, 0);
    let p1 = sets_of_row(ms, 1);
    let p2 = sets_of_row(ms, 2);
    lemma_multiset_commutative(p3, p0 + p1 + p2);
    lemma_multiset_commutative(p0 + p1, p2);
    lemma_multiset_commutative(p0, p1);
    if ms.len() == 0 {
        assert(ms.to_multiset() =~= Multiset::empty());
        assert((p3 + (p0 + p1 + p2)).to_multiset() =~= Multiset::empty());
    } else {
        let m = ms.last();
        let rest = ms.drop_last();
        assert forall|i: int| 0 <= i < rest.len() implies !(#[trigger] rest[i]).spec_tile().spec_is_flower() by {
            assert(rest[i] == ms[i]);
        }
        lemma_parts_multiset(rest);
        let q3 = sets_of_row(rest, 3);
        let q0 = sets_of_row(rest, 0);
        let q1 = sets_of_row(rest, 1);
        let q2 = sets_of_row(rest, 2);
        lemma_multiset_commutative(q3, q0 + q1 + q2);
        lemma_multiset_commutative(q0 + q1, q2);
        lemma_multiset_commutative(q0, q1);
        assert(ms == rest.push(m));
        assert(ms.to_multiset() == rest.to_multiset().insert(m));
        assert(!m.spec_tile().spec_is_flower());
        let r = tile_row(m.spec_tile());
        assert(0 <= r <= 3);
        assert(seq![m] == Seq::<Meld>::empty().push(m));
        assert(seq![m].to_multiset() =~= Multiset::empty().insert(m));
        lemma_multiset_commutative(q0, seq![m]);
        lemma_multiset_commutative(q1, seq![m]);
        lemma_multiset_commutative(q2, seq![m]);
        lemma_multiset_commutative(q3, seq![m]);
        assert(q0 + Seq::<Meld>::empty() == q0);
        assert(q1 + Seq::<Meld>::empty() == q1);
        assert(q2 + Seq::<Meld>::empty() == q2);
        assert(q3 + Seq::<Meld>::empty() == q3);
        assert((p3 + (p0 + p1 + p2)).to_multiset() =~= ms.to_multiset());
    }
}

/// Pungs hold each tile a multiple of three times.
proof fn lemma_pungs_mod3(ms: Seq<Meld>, t: Tile)
    requires
        forall|i: int| 0 <= i < ms.len() ==> #[trigger] ms[i] is Pung,
    ensures
        sets_count(ms, t) % 3 == 0,
    decreases ms.len(),
{
    if ms.len() > 0 {
        let rest = ms.drop_last();
        assert forall|i: int| 0 <= i < rest.len() implies #[trigger] rest[i] is Pung by {
            assert(rest[i] == ms[i]);
        }
        lemma_pungs_mod3(rest, t);
        assert(ms[ms.len() - 1] is Pung);
        lemma_meld_tiles_count(ms.last(), t);
    }
}

/// Among concealed pungs, a concealed pung is held a third as often as its
/// tile.
proof fn lemma_pung_count(ms: Seq<Meld>, x: Meld)
    requires
        forall|i: int| 0 <= i < ms.len() ==> #[trigger] ms[i] is Pung && ms[i].spec_concealed(),
        x is Pung,
        x.spec_concealed(),
    ensures
        3 * ms.to_multiset().count(x) == sets_count(ms, x.spec_tile()),
    decreases ms.len(),
{
    broadcast use group_to_multiset_ensures, group_multiset_axioms;

    if ms.len() == 0 {
        assert(ms.to_multiset() =~= Multiset::empty());
    } else {
        let m = ms.last();
        let rest = ms.drop_last();
        assert forall|i: int| 0 <= i < rest.len() implies #[trigger] rest[i] is Pung && rest[i].spec_concealed() by {
            assert(rest[i] == ms[i]);
        }
        lemma_pung_count(rest, x);
        assert(ms == rest.push(m));
        assert(ms[ms.len() - 1] is Pung && ms[ms.len() - 1].spec_concealed());
        lemma_meld_tiles_count(m, x.spec_tile());
        if m.spec_tile() == x.spec_tile() {
            lemma_meld_eq(m, x);
        }
    }
}

/// Two lists of concealed pungs of tiles that are no flowers, holding every
/// tile equally often, hold the same pungs.
proof fn lemma_pungs_multiset(a: Seq<Meld>, b: Seq<Meld>)
    requires
        forall|i: int| 0 <= i < a.len() ==> #[trigger] a[i] is Pung && a[i].spec_concealed() && set_ok(a[i]),
        forall|i: int| 0 <= i < b.len() ==> #[trigger] b[i] is Pung && b[i].spec_concealed() && set_ok(b[i]),
        forall|t: Tile| !t.spec_is_flower() ==> #[trigger] sets_count(a, t) == sets_count(b, t),
    ensures
        a.to_multiset() == b.to_multiset(),
{
    broadcast use group_to_multiset_ensures;

    assert forall|x: Meld| #[trigger] a.to_multiset().count(x) == b.to_multiset().count(x) by {
        if x is Pung && x.spec_concealed() && !x.spec_tile().spec_is_flower() {
            lemma_pung_count(a, x);
            lemma_pung_count(b, x);
            assert(sets_count(a, x.spec_tile()) == sets_count(b, x.spec_tile()));
        } else {
            if a.to_multiset().count(x) > 0 {
                let i = choose|i: int| 0 <= i < a.len() && a[i] == x;
                assert(set_ok(a[i]));
            }
            if b.to_multiset().count(x) > 0 {
                let i = choose|i: int| 0 <= i < b.len() && b[i] == x;
                assert(set_ok(b[i]));
            }
        }
    }
    assert(a.to_multiset() =~= b.to_multiset());
}

/// The number of honors held twice among the first `k` is whether the pair
/// is one of them.
proof fn lemma_honor_pairs(row: u64, k: int, jp: int, has_pair: bool)
    requires
        0 <= k <= 7,
        forall|j: int| 0 <= j < 7 ==> (#[trigger] row_count(row, j) == 2 <==> has_pair && j == jp),
    ensures
        honor_pairs_upto(row, k) == if has_pair && 0 <= jp < k { 1nat } else { 0nat },
    decreases k,
{
    if k > 0 {
        lemma_honor_pairs(row, k - 1, jp, has_pair);
    }
}


/// A suit row, less the pair where the pair is of that suit, is decomposed
/// by the sets of that row.
proof fn lemma_suit_part(c: BitTileCounts, pair: Tile, melds: Seq<Meld>, ri: int)
    requires
        counts_ok(c),
        hand_sound(c, pair, melds),
        0 <= ri < 3,
    ensures
        row_sound(row_less_pair(c, pair, ri), ri, sets_of_row(melds, ri)),
        tile_row(pair) == ri ==> row_count(c.rows[ri], tile_nib(pair)) >= 2,
{
    lemma_tile_id_roundtrip(pair);
    assert(sets_ok(melds));
    lemma_row_part_sets(melds, ri);
    let part = sets_of_row(melds, ri);
    let row = c.rows[ri];
    let r2 = row_less_pair(c, pair, ri);
    let pk = tile_nib(pair);
    assert(row_wf(row));
    if tile_row(pair) == ri {
        assert(c.spec_count(pair) == row_count(row, pk));
        assert(c.spec_count(pair) == sets_count(melds, pair) + 2);
        lemma_row_without(row, pk, 2);
        lemma_tile_at(pair, ri, pk);
    }
    assert forall|t: Tile| #![trigger sets_count(part, t)]
        !t.spec_is_flower() implies sets_count(part, t) == if tile_row(t) == ri {
            row_count(r2, tile_nib(t))
        } else {
            0
        } by {
        lemma_row_part_count(melds, ri, t);
        if tile_row(t) == ri {
            assert(c.spec_count(t) == row_count(row, tile_nib(t)));
            if tile_row(pair) == ri && t != pair {
                lemma_tile_id_roundtrip(t);
                lemma_tile_at(t, ri, pk);
                assert(0 <= tile_nib(t) < 16);
                assert(nibble(r2, tile_nib(t)) == nibble(row, tile_nib(t)));
            }
        }
    }
}

/// The honor sets of a decomposition are pungs; the honors row can be
/// parsed, and every parse of it gives those pungs, and the pair where the
/// pair is an honor.
proof fn lemma_honor_part(c: BitTileCounts, pair: Tile, melds: Seq<Meld>)
    requires
        counts_ok(c),
        hand_sound(c, pair, melds),
    ensures
        honors_valid(c.rows[3]),
        forall|pungs: Seq<Meld>, hp: Option<Tile>|
            #[trigger] honors_sound(c.rows[3], pungs, hp) ==> pungs.to_multiset() == sets_of_row(melds, 3).to_multiset()
                && hp == (if tile_row(pair) == 3 { Some(pair) } else { None::<Tile> }),
{
    lemma_tile_id_roundtrip(pair);
    assert(sets_ok(melds));
    lemma_row_part_sets(melds, 3);
    let part = sets_of_row(melds, 3);
    let row3 = c.rows[3];
    assert(row_wf(row3));
    assert forall|i: int| 0 <= i < part.len() implies #[trigger] part[i] is Pung && part[i].spec_concealed()
        && set_ok(part[i]) by {
        assert(tile_row(part[i].spec_tile()) == 3);
    }
    let pr = tile_row(pair);
    let pk = tile_nib(pair);
    // What the honors row holds, nibble by nibble.
    assert forall|j: int| 0 <= j < 7 implies #[trigger] row_count(row3, j) == sets_count(part, tile_at(3, j)) + (
    if pr == 3 && j == pk {
        2nat
    } else {
        0nat
    }) && sets_count(part, tile_at(3, j)) % 3 == 0 && row_count(row3, j) <= 4 by {
        assert(is_tile_id(3 * 64 + 4 * j));
        lemma_tile_at(Tile::Character1, 3, j);
        let h = tile_at(3, j);
        lemma_row_part_count(melds, 3, h);
        lemma_pungs_mod3(part, h);
        assert(c.spec_count(h) == row_count(row3, j));
        lemma_tile_at(pair, 3, j);
        assert(is_fill(nibble(row3, j)));
    }
    assert forall|j: int| 0 <= j < 7 implies (#[trigger] row_count(row3, j) == 2 <==> pr == 3 && j == pk) by {
        assert(row_count(row3, j) == sets_count(part, tile_at(3, j)) + (if pr == 3 && j == pk {
            2nat
        } else {
            0nat
        }));
    }
    lemma_honor_pairs(row3, 7, pk, pr == 3);
    assert forall|j: int| 0 <= j < 7 implies #[trigger] row_count(row3, j) != 1 && row_count(row3, j) != 4 by {
        assert(row_count(row3, j) == sets_count(part, tile_at(3, j)) + (if pr == 3 && j == pk {
            2nat
        } else {
            0nat
        }));
    }
    assert forall|pungs: Seq<Meld>, hp: Option<Tile>| #[trigger] honors_sound(row3, pungs, hp) implies pungs.to_multiset()
        == part.to_multiset() && hp == (if pr == 3 { Some(pair) } else { None::<Tile> }) by {
        assert forall|t: Tile| !t.spec_is_flower() && tile_row(t) == 3 implies #[trigger] pair_part(hp, t) == (if t == pair {
            2nat
        } else {
            0nat
        }) && sets_count(pungs, t) == sets_count(part, t) by {
            lemma_tile_id_roundtrip(t);
            let j = tile_nib(t);
            assert(0 <= j < 7);
            lemma_tile_at(t, 3, j);
            lemma_tile_at(pair, 3, j);
            lemma_pungs_mod3(pungs, t);
            assert(sets_count(pungs, t) + pair_part(hp, t) == row_count(row3, j));
            assert(row_count(row3, j) == sets_count(part, tile_at(3, j)) + (if pr == 3 && j == pk {
                2nat
            } else {
                0nat
            }));
        }
        if pr == 3 {
            assert(pair_part(hp, pair) == 2);
        } else if hp is Some {
            let p = hp->0;
            assert(pair_part(hp, p) == 2);
        }
        assert forall|t: Tile| !t.spec_is_flower() implies #[trigger] sets_count(pungs, t) == sets_count(part, t) by {
            lemma_row_part_count(melds, 3, t);
            if tile_row(t) != 3 {
                assert(sets_count(pungs, t) + pair_part(hp, t) == 0);
            }
        }
        lemma_pungs_multiset(pungs, part);
    }
}

/// A decomposition of the concealed tiles, taken apart by rows: each suit
/// row, less the pair where the pair is of that suit, is decomposed by its
/// own sets; the honors row can be parsed, and any parse of it gives the
/// honor pungs of the decomposition and its pair where the pair is an
/// honor; and the sets of the rows together are all the sets.
pub proof fn lemma_hand_parts(c: BitTileCounts, pair: Tile, melds: Seq<Meld>)
    requires
        counts_ok(c),
        hand_sound(c, pair, melds),
    ensures
        0 <= tile_row(pair) <= 3,
        tile_row(pair) < 3 ==> row_count(c.rows[tile_row(pair)], tile_nib(pair)) >= 2,
        row_sound(row_less_pair(c, pair, 0), 0, sets_of_row(melds, 0)),
        row_sound(row_less_pair(c, pair, 1), 1, sets_of_row(melds, 1)),
        row_sound(row_less_pair(c, pair, 2), 2, sets_of_row(melds, 2)),
        honors_valid(c.rows[3]),
        forall|pungs: Seq<Meld>, hp: Option<Tile>|
            #[trigger] honors_sound(c.rows[3], pungs, hp) ==> pungs.to_multiset() == sets_of_row(melds, 3).to_multiset()
                && hp == (if tile_row(pair) == 3 { Some(pair) } else { None::<Tile> }),
        (sets_of_row(melds, 3) + (sets_of_row(melds, 0) + sets_of_row(melds, 1) + sets_of_row(melds, 2))).to_multiset()
            == melds.to_multiset(),
{
    lemma_tile_id_roundtrip(pair);
    lemma_suit_part(c, pair, melds, 0);
    lemma_suit_part(c, pair, melds, 1);
    lemma_suit_part(c, pair, melds, 2);
    lemma_honor_part(c, pair, melds);
    assert(sets_ok(melds));
    assert forall|i: int| 0 <= i < melds.len() implies !(#[trigger] melds[i]).spec_tile().spec_is_flower() by {
        assert(set_ok(melds[i]));
    }
    lemma_parts_multiset(melds);
}

} // verus!
