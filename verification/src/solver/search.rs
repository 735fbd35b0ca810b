//! The search for the best compatible selection of fan candidates.
//!
//! Candidates are taken in descending order of score (ties in input order),
//! so the scores along a selection never increase. A selection is built one
//! candidate at a time; a candidate can join when no earlier one excludes
//! it, when no earlier one has the same identity (the non-repeat
//! principle), and, where the account-once principle is asked for, when it
//! does not bridge used sets a second time.

use vstd::prelude::*;

use crate::solver::types::{has_bit, lemma_union_bit};

verus! {

/// A candidate as the search sees it.
#[derive(Clone, Copy, Debug)]
pub struct SearchItem {
    /// The bit of the candidate's fan in exclusion masks.
    pub bit: u16,
    pub score: u8,
    /// The sets the candidate uses, bit `i` for set `i`.
    pub mask: u64,
    /// The identity of the candidate: two candidates with the same identity
    /// are the same fan counted twice.
    pub key: (u16, bool, u64),
    /// The fans the candidate excludes, as a mask over their bits.
    pub excludes: u128,
}

/// What a selection has fixed: the excluded fans, the identities taken, the
/// sets used by fans over several sets, and how often each of the four sets
/// has bridged.
pub type ChainState = (u128, Seq<(u16, bool, u64)>, u64, Seq<u8>);

/// The number of bits set in `m`.
pub open spec fn bit_count(m: u64) -> nat
    decreases m,
{
    if m == 0 {
        0
    } else {
        (m % 2) as nat + bit_count(m / 2)
    }
}

/// Bit `i` of `x` is set.
pub open spec fn bit_of(x: u64, i: int) -> bool {
    (x >> (i as u64)) & 1 == 1
}

/// A fan over the sets of `m` joins sets already used to sets not yet used.
pub open spec fn bridges(m: u64, used: u64) -> bool {
    &&& bit_count(m) >= 2
    &&& used != 0
    &&& m & used != 0
    &&& m & !used != 0
}

pub open spec fn initial_state() -> ChainState {
    (0u128, Seq::empty(), 0u64, seq![0u8, 0u8, 0u8, 0u8])
}

/// The candidate `it` can join a selection in state `st`.
pub open spec fn eligible(it: SearchItem, st: ChainState, once: bool) -> bool {
    &&& !has_bit(st.0, it.bit as int)
    &&& !st.1.contains(it.key)
    &&& once && bridges(it.mask, st.2) ==> forall|s: int|
        0 <= s < 4 && bit_of(it.mask & st.2, s) ==> #[trigger] st.3[s] < 1
}

/// The state after `it` joins.
pub open spec fn step(st: ChainState, it: SearchItem, once: bool) -> ChainState {
    let excluded = st.0 | it.excludes;
    let keys = st.1.push(it.key);
    if once && bit_count(it.mask) >= 2 {
        let inter = it.mask & st.2;
        let rest = it.mask & !st.2;
        let bridge = if inter != 0 && rest != 0 {
            Seq::new(4, |s: int| if bit_of(inter, s) { (st.3[s] + 1) as u8 } else { st.3[s] })
        } else {
            st.3
        };
        (excluded, keys, st.2 | it.mask, bridge)
    } else {
        (excluded, keys, st.2, st.3)
    }
}

/// The positions `0..n` whose candidate has score `v`, in increasing order.
pub open spec fn bucket(items: Seq<SearchItem>, v: int, k: int) -> Seq<int>
    decreases k,
{
    if k <= 0 {
        Seq::empty()
    } else {
        bucket(items, v, k - 1) + if items[k - 1].score == v {
            seq![k - 1]
        } else {
            Seq::empty()
        }
    }
}

/// The candidates of score `lo` or more, from the highest score down, ties in
/// input order.
pub open spec fn order_from(items: Seq<SearchItem>, lo: int) -> Seq<int>
    decreases 256 - lo,
{
    if lo > 255 || lo < 0 {
        Seq::empty()
    } else {
        order_from(items, lo + 1) + bucket(items, lo, items.len() as int)
    }
}

/// The search order: every candidate, from the highest score down, ties in
/// input order.
pub open spec fn search_order(items: Seq<SearchItem>) -> Seq<int> {
    order_from(items, 0)
}

/// A selection, as increasing positions in the search order: each joins the
/// state left by those before it.
pub open spec fn chain_ok(items: Seq<SearchItem>, order: Seq<int>, once: bool, c: Seq<int>) -> bool
    decreases c.len(),
{
    if c.len() == 0 {
        true
    } else {
        let p = c.drop_last();
        &&& chain_ok(items, order, once, p)
        &&& 0 <= c.last() < order.len()
        &&& p.len() > 0 ==> p.last() < c.last()
        &&& eligible(items[order[c.last()]], chain_state(items, order, once, p), once)
    }
}

/// The state a selection leaves.
pub open spec fn chain_state(items: Seq<SearchItem>, order: Seq<int>, once: bool, c: Seq<int>) -> ChainState
    decreases c.len(),
{
    if c.len() == 0 {
        initial_state()
    } else {
        step(chain_state(items, order, once, c.drop_last()), items[order[c.last()]], once)
    }
}

/// The total score of a selection.
pub open spec fn chain_score(items: Seq<SearchItem>, order: Seq<int>, c: Seq<int>) -> int
    decreases c.len(),
{
    if c.len() == 0 {
        0
    } else {
        chain_score(items, order, c.drop_last()) + items[order[c.last()]].score
    }
}

/// No candidate after the last of the selection can join it.
pub open spec fn is_leaf(items: Seq<SearchItem>, order: Seq<int>, once: bool, c: Seq<int>) -> bool {
    forall|j: int|
        (if c.len() == 0 { 0 } else { c.last() + 1 }) <= j < order.len() ==> !eligible(
            items[#[trigger] order[j]],
            chain_state(items, order, once, c),
            once,
        )
}

/// `q` extends `p` with positions from `pos` on.
pub open spec fn in_subtree(items: Seq<SearchItem>, order: Seq<int>, once: bool, p: Seq<int>, pos: int, q: Seq<int>) -> bool {
    &&& chain_ok(items, order, once, q)
    &&& q.len() >= p.len()
    &&& q.subrange(0, p.len() as int) == p
    &&& q.len() > p.len() ==> q[p.len() as int] >= pos
}

/// `a` comes before `b` in depth-first order: at the first position where
/// they differ, `a` holds the earlier candidate.
pub open spec fn dfs_before(a: Seq<int>, b: Seq<int>) -> bool {
    exists|n: int| 0 <= n < a.len() && n < b.len() && a.take(n) == b.take(n) && #[trigger] a[n] < b[n]
}

/// The selections are listed in depth-first order, so no two are the same.
pub open spec fn in_dfs_order(found: Seq<Seq<int>>) -> bool {
    forall|i: int, k: int| 0 <= i < k < found.len() ==> dfs_before(#[trigger] found[i], #[trigger] found[k])
}

/// The best selections: valid, leaves, and of the highest total; `best` is
/// that total, which no valid selection exceeds. They are listed in
/// depth-first order, each once.
pub open spec fn best_selections(items: Seq<SearchItem>, order: Seq<int>, once: bool, best: int, found: Seq<Seq<int>>) -> bool {
    &&& forall|q: Seq<int>| chain_ok(items, order, once, q) ==> #[trigger] chain_score(items, order, q) <= best
    &&& forall|i: int| 0 <= i < found.len() ==> {
        &&& chain_ok(items, order, once, #[trigger] found[i])
        &&& is_leaf(items, order, once, found[i])
        &&& chain_score(items, order, found[i]) == best
    }
    &&& forall|q: Seq<int>|
        chain_ok(items, order, once, q) && is_leaf(items, order, once, q) && chain_score(items, order, q)
            == best ==> exists|i: int| 0 <= i < found.len() && #[trigger] found[i] == q
    &&& in_dfs_order(found)
    &&& forall|i: int, k: int| 0 <= i < k < found.len() ==> #[trigger] found[i] != #[trigger] found[k]
}

// ── Facts about selections ───────────────────────────────────────

/// The state after the first `k` candidates of a selection holds the
/// exclusions and the identities of each of them.
proof fn lemma_state_holds(items: Seq<SearchItem>, order: Seq<int>, once: bool, c: Seq<int>, k: int)
    requires
        chain_ok(items, order, once, c),
        0 <= k <= c.len(),
    ensures
        forall|a: int, x: int|
            #![trigger has_bit(items[order[c[a]]].excludes, x)]
            0 <= a < k && 0 <= x < 128 && has_bit(items[order[c[a]]].excludes, x) ==> has_bit(
                chain_state(items, order, once, c.take(k)).0,
                x,
            ),
        forall|a: int| 0 <= a < k ==> chain_state(items, order, once, c.take(k)).1.contains(#[trigger] items[order[c[a]]].key),
    decreases k,
{
    if k > 0 {
        lemma_state_holds(items, order, once, c, k - 1);
        lemma_chain_prefix(items, order, once, c, k - 1);
        let prev = chain_state(items, order, once, c.take(k - 1));
        let it = items[order[c[k - 1]]];
        assert(c.take(k).drop_last() == c.take(k - 1));
        assert(c.take(k).last() == c[k - 1]);
        let st = chain_state(items, order, once, c.take(k));
        assert(st.0 == prev.0 | it.excludes);
        assert(st.1 == prev.1.push(it.key));
        assert forall|a: int, x: int|
            #![trigger has_bit(items[order[c[a]]].excludes, x)]
            0 <= a < k && 0 <= x < 128 && has_bit(items[order[c[a]]].excludes, x) implies has_bit(st.0, x) by {
            lemma_union_bit(prev.0, it.excludes, x as u128);
            if a < k - 1 {
                assert(has_bit(prev.0, x));
            }
        }
        assert forall|a: int| 0 <= a < k implies st.1.contains(#[trigger] items[order[c[a]]].key) by {
            if a < k - 1 {
                let j = choose|j: int| 0 <= j < prev.1.len() && prev.1[j] == items[order[c[a]]].key;
                assert(st.1[j] == prev.1[j]);
            } else {
                assert(st.1[prev.1.len() as int] == it.key);
            }
        }
    }
}

/// The candidate taken `b`-th is not excluded by the one taken `a`-th, and
/// the two have different identities.
pub open spec fn compatible(items: Seq<SearchItem>, order: Seq<int>, c: Seq<int>, a: int, b: int) -> bool {
    &&& !has_bit(items[order[c[a]]].excludes, items[order[c[b]]].bit as int)
    &&& items[order[c[a]]].key != items[order[c[b]]].key
}

/// In a selection no candidate is one that a candidate taken before it
/// excludes, and no two candidates have the same identity.
pub proof fn lemma_selection_compatible(items: Seq<SearchItem>, order: Seq<int>, once: bool, c: Seq<int>)
    requires
        chain_ok(items, order, once, c),
        forall|i: int| 0 <= i < items.len() ==> (#[trigger] items[i]).bit < 128,
        forall|j: int| 0 <= j < order.len() ==> 0 <= #[trigger] order[j] < items.len(),
    ensures
        forall|a: int, b: int| 0 <= a < b < c.len() ==> #[trigger] compatible(items, order, c, a, b),
{
    assert forall|a: int, b: int| 0 <= a < b < c.len() implies #[trigger] compatible(items, order, c, a, b) by {
        lemma_chain_prefix(items, order, once, c, b);
        lemma_chain_prefix(items, order, once, c, a);
        lemma_state_holds(items, order, once, c, b);
        let st = chain_state(items, order, once, c.take(b));
        let x = items[order[c[b]]].bit as int;
        assert(0 <= x < 128);
        if has_bit(items[order[c[a]]].excludes, x) {
            assert(has_bit(st.0, x));
        }
        assert(st.1.contains(items[order[c[a]]].key));
    }
}

/// A prefix of a selection is a selection.
pub proof fn lemma_chain_prefix(items: Seq<SearchItem>, order: Seq<int>, once: bool, c: Seq<int>, k: int)
    requires
        chain_ok(items, order, once, c),
        0 <= k <= c.len(),
    ensures
        chain_ok(items, order, once, c.take(k)),
        k < c.len() ==> c.take(k + 1) == c.take(k).push(c[k]),
        k < c.len() ==> 0 <= c[k] < order.len(),
        k < c.len() ==> eligible(items[order[c[k]]], chain_state(items, order, once, c.take(k)), once),
        k < c.len() && k > 0 ==> c[k - 1] < c[k],
        forall|a: int, b: int| 0 <= a < b < c.len() ==> c[a] < c[b],
    decreases c.len(),
{
    if c.len() > 0 {
        let p = c.drop_last();
        if k < c.len() {
            lemma_chain_prefix(items, order, once, p, k);
            if k + 1 < c.len() {
                assert(p.take(k + 1) == c.take(k + 1));
            }
            assert(p.take(k) == c.take(k));
            if k == c.len() - 1 {
                assert(c.take(k) == p);
                assert(c.take(k + 1) == c);
            }
        } else {
            assert(c.take(k) == c);
            lemma_chain_prefix(items, order, once, p, p.len() as int);
        }
        assert forall|a: int, b: int| 0 <= a < b < c.len() implies c[a] < c[b] by {
            lemma_chain_prefix(items, order, once, p, p.len() as int);
            if b < c.len() - 1 {
                assert(p[a] < p[b]);
            } else if a < c.len() - 1 {
                if a < b - 1 {
                    assert(p[a] < p[b - 1]);
                }
            }
        }
    }
}

proof fn lemma_score_nonneg(items: Seq<SearchItem>, order: Seq<int>, c: Seq<int>)
    ensures
        chain_score(items, order, c) >= 0,
    decreases c.len(),
{
    if c.len() > 0 {
        lemma_score_nonneg(items, order, c.drop_last());
    }
}

/// The positions of a selection, as integers.
pub open spec fn ints(v: Seq<usize>) -> Seq<int> {
    v.map_values(|x: usize| x as int)
}

/// Every candidate has its bit within an exclusion mask.
pub open spec fn items_wf(items: Seq<SearchItem>) -> bool {
    forall|i: int| 0 <= i < items.len() ==> (#[trigger] items[i]).bit < 128
}

/// The positions of a selection never decrease below their index.
proof fn lemma_positions_grow(items: Seq<SearchItem>, order: Seq<int>, once: bool, c: Seq<int>)
    requires
        chain_ok(items, order, once, c),
    ensures
        forall|k: int| 0 <= k < c.len() ==> #[trigger] c[k] >= k,
        c.len() <= order.len(),
{
    lemma_chain_prefix(items, order, once, c, c.len() as int);
    assert forall|k: int| 0 <= k < c.len() implies #[trigger] c[k] >= k by {
        lemma_grow_at(items, order, once, c, k);
    }
    if c.len() > 0 {
        lemma_chain_prefix(items, order, once, c, c.len() - 1);
        lemma_grow_at(items, order, once, c, c.len() - 1);
    }
}

proof fn lemma_grow_at(items: Seq<SearchItem>, order: Seq<int>, once: bool, c: Seq<int>, k: int)
    requires
        chain_ok(items, order, once, c),
        0 <= k < c.len(),
    ensures
        c[k] >= k,
    decreases k,
{
    lemma_chain_prefix(items, order, once, c, k);
    if k > 0 {
        lemma_grow_at(items, order, once, c, k - 1);
    }
}

/// Extending a selection never lowers its score.
proof fn lemma_score_prefix(items: Seq<SearchItem>, order: Seq<int>, c: Seq<int>, k: int)
    requires
        0 <= k <= c.len(),
    ensures
        chain_score(items, order, c.take(k)) <= chain_score(items, order, c),
    decreases c.len() - k,
{
    if k < c.len() {
        lemma_score_prefix(items, order, c, k + 1);
        assert(c.take(k + 1).drop_last() == c.take(k));
    } else {
        assert(c.take(k) == c);
    }
}

// ── Executable pieces ────────────────────────────────────────────

/// The state of a selection under construction.
pub struct SearchState {
    pub excluded: u128,
    pub keys: Vec<(u16, bool, u64)>,
    pub used_sets: u64,
    pub bridge: [u8; 4],
}

impl SearchState {
    pub open spec fn view_state(&self) -> ChainState {
        (self.excluded, self.keys@, self.used_sets, self.bridge@)
    }

    pub fn new() -> (r: Self)
        ensures
            r.view_state() == initial_state(),
    {
        let r = SearchState { excluded: 0, keys: Vec::new(), used_sets: 0, bridge: [0, 0, 0, 0] };
        assert(r.bridge@ =~= seq![0u8, 0u8, 0u8, 0u8]);
        r
    }
}

/// A number has no more bits set than its value.
proof fn lemma_bit_count_le(x: u64)
    ensures
        bit_count(x) <= x,
    decreases x,
{
    if x > 0 {
        lemma_bit_count_le(x / 2);
    }
}

pub fn bit_count_exec(m: u64) -> (r: u64)
    ensures
        r == bit_count(m),
{
    let mut x = m;
    let mut c: u64 = 0;
    proof {
        lemma_bit_count_le(m);
    }
    while x > 0
        invariant
            c + bit_count(x) == bit_count(m),
            bit_count(m) <= m,
        decreases x,
    {
        c = c + x % 2;
        x = x / 2;
    }
    c
}

/// The key `key` is among `keys`.
fn key_taken(keys: &Vec<(u16, bool, u64)>, key: (u16, bool, u64)) -> (r: bool)
    ensures
        r == keys@.contains(key),
{
    let mut i: usize = 0;
    while i < keys.len()
        invariant
            i <= keys@.len(),
            forall|j: int| 0 <= j < i ==> keys@[j] != key,
        decreases keys@.len() - i,
    {
        let k = keys[i];
        if k.0 == key.0 && k.1 == key.1 && k.2 == key.2 {
            assert(keys@[i as int] == key);
            return true;
        }
        i = i + 1;
    }
    false
}

/// The candidate `it` can join the selection in state `st`.
pub fn is_eligible(it: &SearchItem, st: &SearchState, once: bool) -> (r: bool)
    requires
        it.bit < 128,
        st.bridge@.len() == 4,
    ensures
        r == eligible(*it, st.view_state(), once),
{
    if (st.excluded >> (it.bit as u128)) & 1 == 1 {
        return false;
    }
    if key_taken(&st.keys, it.key) {
        return false;
    }
    if once {
        let m = it.mask;
        let used = st.used_sets;
        if bit_count_exec(m) >= 2 && used != 0 {
            let inter = m & used;
            let rest = m & !used;
            if inter != 0 && rest != 0 {
                let mut s: u64 = 0;
                while s < 4
                    invariant
                        s <= 4,
                        once,
                        m == it.mask,
                        used == st.used_sets,
                        inter == m & used,
                        rest == m & !used,
                        inter != 0 && rest != 0,
                        bit_count(m) >= 2,
                        used != 0,
                        !has_bit(st.excluded, it.bit as int),
                        !st.keys@.contains(it.key),
                        st.bridge@.len() == 4,
                        forall|q: int| 0 <= q < s && bit_of(inter, q) ==> #[trigger] st.bridge@[q] < 1,
                    decreases 4 - s,
                {
                    if (inter >> s) & 1 == 1 && st.bridge[s as usize] >= 1 {
                        let ghost sv = st.view_state();
                        assert(sv.3[s as int] >= 1 && bit_of(it.mask & sv.2, s as int));
                        assert(bridges(it.mask, sv.2));
                        return false;
                    }
                    s = s + 1;
                }
            }
        }
    }
    true
}

/// The state after `it` joins.
pub fn apply_step(st: &SearchState, it: &SearchItem, once: bool) -> (r: SearchState)
    requires
        it.bit < 128,
        st.bridge@.len() == 4,
        eligible(*it, st.view_state(), once),
    ensures
        r.view_state() == step(st.view_state(), *it, once),
{
    let mut keys: Vec<(u16, bool, u64)> = Vec::new();
    let mut i: usize = 0;
    while i < st.keys.len()
        invariant
            i <= st.keys@.len(),
            keys@ == st.keys@.subrange(0, i as int),
        decreases st.keys@.len() - i,
    {
        keys.push(st.keys[i]);
        i = i + 1;
    }
    keys.push(it.key);
    assert(keys@ == st.keys@.push(it.key));
    let excluded = st.excluded | it.excludes;
    let m = it.mask;
    if once && bit_count_exec(m) >= 2 {
        let inter = m & st.used_sets;
        let rest = m & !st.used_sets;
        let mut bridge = st.bridge;
        if inter != 0 && rest != 0 {
            let mut s: u64 = 0;
            while s < 4
                invariant
                    s <= 4,
                    inter == m & st.used_sets,
                    rest == m & !st.used_sets,
                    inter != 0 && rest != 0,
                    bit_count(m) >= 2,
                    once,
                    eligible(*it, st.view_state(), once),
                    it.mask == m,
                    bridge@.len() == 4,
                    st.bridge@.len() == 4,
                    forall|q: int| 0 <= q < s ==> #[trigger] bridge@[q] == if bit_of(inter, q) {
                        (st.bridge@[q] + 1) as u8
                    } else {
                        st.bridge@[q]
                    },
                    forall|q: int| s <= q < 4 ==> #[trigger] bridge@[q] == st.bridge@[q],
                decreases 4 - s,
            {
                if (inter >> s) & 1 == 1 {
                    proof {
                        assert(st.used_sets != 0) by {
                            if st.used_sets == 0 {
                                assert(m & 0u64 == 0) by (bit_vector);
                            }
                        }
                        assert(bit_of(inter, s as int));
                        let sv = st.view_state();
                        assert(bridges(m, sv.2));
                        assert(bit_of(m & sv.2, s as int) ==> sv.3[s as int] < 1);
                        assert(st.bridge@[s as int] < 1);
                    }
                    bridge[s as usize] = st.bridge[s as usize] + 1;
                }
                s = s + 1;
            }
            assert(bridge@ =~= Seq::new(4, |q: int| if bit_of(inter, q) {
                (st.bridge@[q] + 1) as u8
            } else {
                st.bridge@[q]
            }));
        }
        SearchState { excluded, keys, used_sets: st.used_sets | m, bridge }
    } else {
        SearchState { excluded, keys, used_sets: st.used_sets, bridge: st.bridge }
    }
}

/// The positions of the candidates with score `v`, appended to `order`.
fn push_bucket(items: &Vec<SearchItem>, v: u8, order: &mut Vec<usize>)
    ensures
        ints(final(order)@) == ints(old(order)@) + bucket(items@, v as int, items@.len() as int),
{
    let mut i: usize = 0;
    let ghost start = ints(order@);
    while i < items.len()
        invariant
            i <= items@.len(),
            ints(order@) == start + bucket(items@, v as int, i as int),
        decreases items@.len() - i,
    {
        if items[i].score == v {
            let ghost before = order@;
            order.push(i);
            assert(ints(order@) =~= ints(before).push(i as int));
            assert(bucket(items@, v as int, i as int + 1) == bucket(items@, v as int, i as int) + seq![i as int]);
            assert(ints(order@) =~= start + bucket(items@, v as int, i as int + 1));
        } else {
            assert(bucket(items@, v as int, i as int + 1) == bucket(items@, v as int, i as int));
        }
        i = i + 1;
    }
}

/// The search order: every candidate, from the highest score down, ties in
/// input order.
pub fn build_order(items: &Vec<SearchItem>) -> (r: Vec<usize>)
    ensures
        ints(r@) == search_order(items@),
{
    let mut order: Vec<usize> = Vec::new();
    let mut v: u16 = 256;
    assert(ints(order@) =~= order_from(items@, 256));
    while v > 0
        invariant
            v <= 256,
            ints(order@) == order_from(items@, v as int),
        decreases v,
    {
        v = v - 1;
        push_bucket(items, v as u8, &mut order);
    }
    order
}

/// The number of the first `k` candidates with score `lo` or more.
pub open spec fn count_ge(items: Seq<SearchItem>, lo: int, k: int) -> nat
    decreases k,
{
    if k <= 0 {
        0
    } else {
        count_ge(items, lo, k - 1) + if items[k - 1].score >= lo {
            1nat
        } else {
            0nat
        }
    }
}

proof fn lemma_bucket_count(items: Seq<SearchItem>, lo: int, k: int)
    requires
        0 <= k <= items.len(),
    ensures
        count_ge(items, lo, k) == count_ge(items, lo + 1, k) + bucket(items, lo, k).len(),
    decreases k,
{
    if k > 0 {
        lemma_bucket_count(items, lo, k - 1);
    }
}

proof fn lemma_count_ge_le(items: Seq<SearchItem>, lo: int, k: int)
    requires
        0 <= k,
    ensures
        count_ge(items, lo, k) <= k,
        lo > 255 ==> count_ge(items, lo, k) == 0,
    decreases k,
{
    if k > 0 {
        lemma_count_ge_le(items, lo, k - 1);
    }
}

/// The search order holds exactly the candidates of score `lo` or more.
pub proof fn lemma_order_count(items: Seq<SearchItem>, lo: int)
    requires
        0 <= lo <= 256,
    ensures
        order_from(items, lo).len() == count_ge(items, lo, items.len() as int),
        order_from(items, lo).len() <= items.len(),
    decreases 256 - lo,
{
    lemma_count_ge_le(items, lo, items.len() as int);
    if lo <= 255 {
        lemma_order_count(items, lo + 1);
        lemma_bucket_count(items, lo, items.len() as int);
    }
}

/// A selection is no longer than the candidates.
pub proof fn lemma_selection_len(items: Seq<SearchItem>, once: bool, c: Seq<int>)
    requires
        chain_ok(items, search_order(items), once, c),
    ensures
        c.len() <= items.len(),
{
    lemma_positions_grow(items, search_order(items), once, c);
    lemma_order_count(items, 0);
}

/// Every candidate in a bucket has the bucket's score.
proof fn lemma_bucket_scores(items: Seq<SearchItem>, v: int, k: int)
    requires
        k <= items.len(),
    ensures
        forall|q: int| 0 <= q < bucket(items, v, k).len() ==> items[#[trigger] bucket(items, v, k)[q]].score == v,
    decreases k,
{
    if k > 0 {
        lemma_bucket_scores(items, v, k - 1);
        lemma_bucket_in_range(items, v, k - 1);
        let a = bucket(items, v, k - 1);
        let b: Seq<int> = if items[k - 1].score == v { seq![k - 1] } else { Seq::empty() };
        assert(bucket(items, v, k) == a + b);
        assert forall|q: int| 0 <= q < (a + b).len() implies items[#[trigger] (a + b)[q]].score == v by {
            if q < a.len() {
                assert((a + b)[q] == a[q]);
            } else {
                assert((a + b)[q] == b[q - a.len()]);
            }
        }
    }
}

/// The candidates of the order from `lo` score at least `lo`, and come from
/// the highest score down.
pub proof fn lemma_order_scores(items: Seq<SearchItem>, lo: int)
    requires
        0 <= lo <= 256,
    ensures
        forall|q: int| 0 <= q < order_from(items, lo).len() ==> items[#[trigger] order_from(items, lo)[q]].score >= lo,
        forall|a: int, b: int|
            0 <= a < b < order_from(items, lo).len() ==> items[#[trigger] order_from(items, lo)[a]].score
                >= items[#[trigger] order_from(items, lo)[b]].score,
    decreases 256 - lo,
{
    if lo <= 255 {
        lemma_order_scores(items, lo + 1);
        lemma_bucket_scores(items, lo, items.len() as int);
        let x = order_from(items, lo + 1);
        let y = bucket(items, lo, items.len() as int);
        assert(order_from(items, lo) == x + y);
        assert forall|q: int| 0 <= q < (x + y).len() implies items[#[trigger] (x + y)[q]].score >= lo by {
            if q < x.len() {
                assert((x + y)[q] == x[q]);
            } else {
                assert((x + y)[q] == y[q - x.len()]);
            }
        }
        assert forall|a: int, b: int| 0 <= a < b < (x + y).len() implies items[#[trigger] (x + y)[a]].score
            >= items[#[trigger] (x + y)[b]].score by {
            if b < x.len() {
                assert((x + y)[a] == x[a] && (x + y)[b] == x[b]);
            } else if a >= x.len() {
                assert((x + y)[a] == y[a - x.len()] && (x + y)[b] == y[b - x.len()]);
            } else {
                assert((x + y)[a] == x[a] && (x + y)[b] == y[b - x.len()]);
            }
        }
    }
}

/// Along a selection the scores never increase.
pub proof fn lemma_selection_descends(items: Seq<SearchItem>, once: bool, c: Seq<int>)
    requires
        chain_ok(items, search_order(items), once, c),
    ensures
        forall|a: int, b: int|
            0 <= a < b < c.len() ==> items[search_order(items)[c[a]]].score >= items[search_order(
                items,
            )[c[b]]].score,
{
    let order = search_order(items);
    lemma_order_scores(items, 0);
    lemma_chain_prefix(items, order, once, c, c.len() as int);
    assert forall|a: int, b: int| 0 <= a < b < c.len() implies items[order[c[a]]].score >= items[order[c[b]]].score by {
        lemma_chain_prefix(items, order, once, c, a);
        lemma_chain_prefix(items, order, once, c, b);
        assert(c[a] < c[b]);
    }
}

/// Every position in the search order names a candidate.
pub proof fn lemma_order_in_range(items: Seq<SearchItem>, lo: int)
    ensures
        forall|k: int| 0 <= k < order_from(items, lo).len() ==> 0 <= #[trigger] order_from(items, lo)[k] < items.len(),
    decreases 256 - lo,
{
    if !(lo > 255 || lo < 0) {
        lemma_order_in_range(items, lo + 1);
        lemma_bucket_in_range(items, lo, items.len() as int);
        let a = order_from(items, lo + 1);
        let b = bucket(items, lo, items.len() as int);
        assert forall|k: int| 0 <= k < (a + b).len() implies 0 <= #[trigger] (a + b)[k] < items.len() by {
            if k >= a.len() {
                assert((a + b)[k] == b[k - a.len()]);
            }
        }
    }
}

proof fn lemma_bucket_in_range(items: Seq<SearchItem>, v: int, k: int)
    requires
        k <= items.len(),
    ensures
        forall|i: int| 0 <= i < bucket(items, v, k).len() ==> 0 <= #[trigger] bucket(items, v, k)[i] < k,
    decreases k,
{
    if k > 0 {
        lemma_bucket_in_range(items, v, k - 1);
        let a = bucket(items, v, k - 1);
        let b: Seq<int> = if items[k - 1].score == v { seq![k - 1] } else { Seq::empty() };
        assert(bucket(items, v, k) == a + b);
        assert forall|i: int| 0 <= i < (a + b).len() implies 0 <= #[trigger] (a + b)[i] < k by {
            if i >= a.len() {
                assert((a + b)[i] == b[i - a.len()]);
            }
        }
    }
}

// ── The search ───────────────────────────────────────────────────

/// The selections found, as position lists.
pub open spec fn found_view(v: Seq<Vec<usize>>) -> Seq<Seq<int>> {
    v.map_values(|x: Vec<usize>| ints(x@))
}

/// Among the selections that extend `p` with positions from `pos` on, `best`
/// is the highest total, and `found` lists exactly the leaves that reach it.
pub open spec fn subtree_best(
    items: Seq<SearchItem>,
    order: Seq<int>,
    once: bool,
    p: Seq<int>,
    pos: int,
    best: int,
    found: Seq<Seq<int>>,
) -> bool {
    &&& found.len() >= 1
    &&& forall|q: Seq<int>| in_subtree(items, order, once, p, pos, q) ==> #[trigger] chain_score(items, order, q) <= best
    &&& forall|i: int| 0 <= i < found.len() ==> {
        &&& in_subtree(items, order, once, p, pos, #[trigger] found[i])
        &&& is_leaf(items, order, once, found[i])
        &&& chain_score(items, order, found[i]) == best
    }
    &&& forall|q: Seq<int>|
        in_subtree(items, order, once, p, pos, q) && is_leaf(items, order, once, q) && chain_score(items, order, q)
            == best ==> exists|i: int| 0 <= i < found.len() && #[trigger] found[i] == q
    &&& in_dfs_order(found)
}

/// The same, over the selections whose first new position is before `j`.
pub open spec fn partial_best(
    items: Seq<SearchItem>,
    order: Seq<int>,
    once: bool,
    p: Seq<int>,
    pos: int,
    j: int,
    best: int,
    found: Seq<Seq<int>>,
) -> bool {
    &&& found.len() >= 1
    &&& forall|q: Seq<int>|
        in_subtree(items, order, once, p, pos, q) && q.len() > p.len() && q[p.len() as int] < j
            ==> #[trigger] chain_score(items, order, q) <= best
    &&& forall|i: int| 0 <= i < found.len() ==> {
        &&& in_subtree(items, order, once, p, pos, #[trigger] found[i])
        &&& found[i].len() > p.len()
        &&& found[i][p.len() as int] < j
        &&& is_leaf(items, order, once, found[i])
        &&& chain_score(items, order, found[i]) == best
    }
    &&& forall|q: Seq<int>|
        in_subtree(items, order, once, p, pos, q) && q.len() > p.len() && q[p.len() as int] < j
            && is_leaf(items, order, once, q) && chain_score(items, order, q) == best ==> exists|i: int|
            0 <= i < found.len() && #[trigger] found[i] == q
    &&& in_dfs_order(found)
}

/// A chain state always tracks four sets.
proof fn lemma_bridge_len(items: Seq<SearchItem>, order: Seq<int>, once: bool, c: Seq<int>)
    ensures
        chain_state(items, order, once, c).3.len() == 4,
    decreases c.len(),
{
    if c.len() > 0 {
        lemma_bridge_len(items, order, once, c.drop_last());
    }
}

/// A selection scores at most 255 per candidate.
pub proof fn lemma_score_bound(items: Seq<SearchItem>, order: Seq<int>, c: Seq<int>)
    ensures
        chain_score(items, order, c) <= 255 * c.len(),
    decreases c.len(),
{
    if c.len() > 0 {
        lemma_score_bound(items, order, c.drop_last());
    }
}

/// The selections through child `j` of `p` are those of the subtree of
/// `p + [j]`.
proof fn lemma_child_subtree(
    items: Seq<SearchItem>,
    order: Seq<int>,
    once: bool,
    p: Seq<int>,
    pos: int,
    j: int,
    q: Seq<int>,
)
    requires
        pos <= j,
    ensures
        in_subtree(items, order, once, p.push(j), j + 1, q) <==> (in_subtree(items, order, once, p, pos, q)
            && q.len() > p.len() && q[p.len() as int] == j),
{
    if in_subtree(items, order, once, p.push(j), j + 1, q) {
        let s1 = q.subrange(0, p.len() + 1int);
        assert(s1 == p.push(j));
        assert(s1[p.len() as int] == q[p.len() as int]);
        assert(q[p.len() as int] == j);
        assert(q.subrange(0, p.len() as int) =~= p) by {
            assert forall|i: int| 0 <= i < p.len() implies q.subrange(0, p.len() as int)[i] == p[i] by {
                assert(s1[i] == q[i]);
                assert(p.push(j)[i] == p[i]);
            }
        }
    }
    if in_subtree(items, order, once, p, pos, q) && q.len() > p.len() && q[p.len() as int] == j {
        lemma_chain_prefix(items, order, once, q, q.len() as int);
        assert(q.subrange(0, p.len() + 1int) =~= p.push(j)) by {
            assert forall|i: int| 0 <= i < p.len() implies q.subrange(0, p.len() + 1int)[i] == p[i] by {
                assert(q.subrange(0, p.len() as int)[i] == p[i]);
            }
        }
        if q.len() > p.len() + 1 {
            assert(q[p.len() as int] < q[p.len() + 1int]);
        }
    }
}

/// The element after `p` in a selection of its subtree can join `p`.
proof fn lemma_first_new(items: Seq<SearchItem>, order: Seq<int>, once: bool, p: Seq<int>, pos: int, q: Seq<int>)
    requires
        in_subtree(items, order, once, p, pos, q),
        q.len() > p.len(),
    ensures
        0 <= q[p.len() as int] < order.len(),
        eligible(items[order[q[p.len() as int]]], chain_state(items, order, once, p), once),
{
    lemma_chain_prefix(items, order, once, q, p.len() as int);
    assert(q.take(p.len() as int) == q.subrange(0, p.len() as int));
}

/// Selections that share `p` and continue before `j`, followed by selections
/// that continue at `j`, are still in depth-first order.
proof fn lemma_join_order(fv: Seq<Seq<int>>, lv: Seq<Seq<int>>, p: Seq<int>, j: int)
    requires
        in_dfs_order(fv),
        in_dfs_order(lv),
        forall|i: int| 0 <= i < fv.len() ==> (#[trigger] fv[i]).len() > p.len() && fv[i].subrange(0, p.len() as int) == p
            && fv[i][p.len() as int] < j,
        forall|i: int| 0 <= i < lv.len() ==> (#[trigger] lv[i]).len() > p.len() && lv[i].subrange(0, p.len() as int) == p
            && lv[i][p.len() as int] == j,
    ensures
        in_dfs_order(fv + lv),
{
    let nv = fv + lv;
    assert forall|i: int, k: int| 0 <= i < k < nv.len() implies dfs_before(#[trigger] nv[i], #[trigger] nv[k]) by {
        if k < fv.len() {
            assert(nv[i] == fv[i] && nv[k] == fv[k]);
            assert(dfs_before(fv[i], fv[k]));
        } else if i >= fv.len() {
            assert(nv[i] == lv[i - fv.len()] && nv[k] == lv[k - fv.len()]);
            assert(dfs_before(lv[i - fv.len()], lv[k - fv.len()]));
        } else {
            let a = fv[i];
            let b = lv[k - fv.len()];
            assert(nv[i] == a && nv[k] == b);
            let n = p.len() as int;
            assert(a.take(n) == b.take(n));
            assert(a[n] < b[n]);
        }
    }
}

/// No valid selection of the candidates scores more than `limit`.
pub open spec fn scores_fit(items: Seq<SearchItem>, once: bool, limit: int) -> bool {
    forall|q: Seq<int>|
        chain_ok(items, search_order(items), once, q) ==> #[trigger] chain_score(items, search_order(items), q) <= limit
}

/// A selection scores at most 255 for each candidate there is.
pub proof fn lemma_scores_fit(items: Seq<SearchItem>, once: bool)
    ensures
        scores_fit(items, once, 255 * (items.len() as int)),
{
    assert forall|q: Seq<int>| chain_ok(items, search_order(items), once, q) implies #[trigger] chain_score(
        items,
        search_order(items),
        q,
    ) <= 255 * items.len() by {
        lemma_selection_len(items, once, q);
        lemma_score_bound(items, search_order(items), q);
        assert(255 * q.len() <= 255 * items.len()) by (nonlinear_arith)
            requires
                q.len() <= items.len(),
        ;
    }
}

/// Search of the subtree of `path`: the best total and every leaf that
/// reaches it, in depth-first order.
fn search(
    items: &Vec<SearchItem>,
    order: &Vec<usize>,
    once: bool,
    pos: usize,
    path: &mut Vec<usize>,
    st: &SearchState,
    total: u128,
) -> (r: (u128, Vec<Vec<usize>>))
    requires
        items_wf(items@),
        ints(order@) == search_order(items@),
        pos <= order@.len(),
        chain_ok(items@, ints(order@), once, ints(old(path)@)),
        st.view_state() == chain_state(items@, ints(order@), once, ints(old(path)@)),
        total == chain_score(items@, ints(order@), ints(old(path)@)),
        old(path)@.len() == 0 ==> pos == 0,
        old(path)@.len() > 0 ==> pos == old(path)@.last() + 1,
    ensures
        final(path)@ == old(path)@,
        subtree_best(
            items@,
            ints(order@),
            once,
            ints(old(path)@),
            pos as int,
            r.0 as int,
            found_view(r.1@),
        ),
    decreases order@.len() - pos,
{
    let ghost ord = ints(order@);
    let ghost p = ints(path@);
    let ghost p_exec = path@;
    proof {
        lemma_order_in_range(items@, 0);
        lemma_bridge_len(items@, ord, once, p);
        lemma_positions_grow(items@, ord, once, p);
        lemma_score_bound(items@, ord, p);
        if p.len() > 0 {
            assert(p.last() == p_exec.last() as int);
            assert(p[p.len() - 1] >= p.len() - 1);
        }
        assert(search_order(items@).len() == order@.len());
    }
    let n_order = order.len();
    let mut best: u128 = 0;
    let mut found: Vec<Vec<usize>> = Vec::new();
    let mut any_child = false;
    let mut j: usize = pos;
    while j < order.len()
        invariant
            items_wf(items@),
            n_order == order@.len(),
            ord == ints(order@),
            ord == search_order(items@),
            forall|k: int| 0 <= k < ord.len() ==> 0 <= #[trigger] ord[k] < items@.len(),
            path@ == p_exec,
            p == ints(p_exec),
            pos <= j <= order@.len(),
            chain_ok(items@, ord, once, p),
            st.view_state() == chain_state(items@, ord, once, p),
            st.bridge@.len() == 4,
            total == chain_score(items@, ord, p),
            total <= 255 * p.len(),
            p.len() <= pos,
            p.len() == 0 ==> pos == 0,
            p.len() > 0 ==> pos == p.last() + 1,
            any_child <==> exists|k: int|
                pos <= k < j && eligible(items@[ord[k]], chain_state(items@, ord, once, p), once),
            any_child ==> partial_best(items@, ord, once, p, pos as int, j as int, best as int, found_view(found@)),
        decreases order@.len() - j,
    {
        let idx = order[j];
        proof {
            assert(ord[j as int] == idx as int);
        }
        let it = &items[idx];
        if is_eligible(it, st, once) {
            let next = apply_step(st, it, once);
            path.push(j);
            proof {
                assert(ints(path@) =~= p.push(j as int));
                assert(p.push(j as int).drop_last() == p);
            }
            proof {
                assert(total + 255 <= 255 * (p.len() + 1)) by (nonlinear_arith)
                    requires
                        total <= 255 * p.len(),
                ;
                assert(255 * (p.len() + 1) <= 255 * (n_order as int)) by (nonlinear_arith)
                    requires
                        p.len() + 1 <= n_order,
                ;
            }
            let (b, l) = search(items, order, once, j + 1, path, &next, total + it.score as u128);
            path.pop();
            proof {
                assert(path@ =~= p_exec);
            }
            let ghost fv = found_view(found@);
            let ghost lv = found_view(l@);
            let ghost pj = p.push(j as int);
            if !any_child || b > best {
                proof {
                    assert forall|q: Seq<int>|
                        in_subtree(items@, ord, once, p, pos as int, q) && q.len() > p.len() && q[p.len() as int] < j + 1
                            implies #[trigger] chain_score(items@, ord, q) <= b by {
                        lemma_child_subtree(items@, ord, once, p, pos as int, j as int, q);
                        if q[p.len() as int] < j {
                            lemma_first_new(items@, ord, once, p, pos as int, q);
                        }
                    }
                    assert forall|i: int| 0 <= i < lv.len() implies {
                        &&& in_subtree(items@, ord, once, p, pos as int, #[trigger] lv[i])
                        &&& lv[i].len() > p.len()
                        &&& lv[i][p.len() as int] < j + 1
                        &&& is_leaf(items@, ord, once, lv[i])
                        &&& chain_score(items@, ord, lv[i]) == b
                    } by {
                        lemma_child_subtree(items@, ord, once, p, pos as int, j as int, lv[i]);
                    }
                    assert forall|q: Seq<int>|
                        in_subtree(items@, ord, once, p, pos as int, q) && q.len() > p.len() && q[p.len() as int] < j + 1
                            && is_leaf(items@, ord, once, q) && chain_score(items@, ord, q) == b implies exists|i: int|
                        0 <= i < lv.len() && #[trigger] lv[i] == q by {
                        lemma_child_subtree(items@, ord, once, p, pos as int, j as int, q);
                        if q[p.len() as int] < j {
                            lemma_first_new(items@, ord, once, p, pos as int, q);
                        }
                    }
                }
                best = b;
                found = l;
            } else if b == best {
                let mut l2 = l;
                found.append(&mut l2);
                proof {
                    let nv = found_view(found@);
                    assert(nv =~= fv + lv);
                    assert forall|i: int| 0 <= i < lv.len() implies (#[trigger] lv[i]).len() > p.len()
                        && lv[i].subrange(0, p.len() as int) == p && lv[i][p.len() as int] == j by {
                        lemma_child_subtree(items@, ord, once, p, pos as int, j as int, lv[i]);
                    }
                    lemma_join_order(fv, lv, p, j as int);
                    assert forall|q: Seq<int>|
                        in_subtree(items@, ord, once, p, pos as int, q) && q.len() > p.len() && q[p.len() as int] < j + 1
                            implies #[trigger] chain_score(items@, ord, q) <= best by {
                        lemma_child_subtree(items@, ord, once, p, pos as int, j as int, q);
                    }
                    assert forall|i: int| 0 <= i < nv.len() implies {
                        &&& in_subtree(items@, ord, once, p, pos as int, #[trigger] nv[i])
                        &&& nv[i].len() > p.len()
                        &&& nv[i][p.len() as int] < j + 1
                        &&& is_leaf(items@, ord, once, nv[i])
                        &&& chain_score(items@, ord, nv[i]) == best
                    } by {
                        if i < fv.len() {
                            assert(nv[i] == fv[i]);
                        } else {
                            assert(nv[i] == lv[i - fv.len()]);
                            lemma_child_subtree(items@, ord, once, p, pos as int, j as int, nv[i]);
                        }
                    }
                    assert forall|q: Seq<int>|
                        in_subtree(items@, ord, once, p, pos as int, q) && q.len() > p.len() && q[p.len() as int] < j + 1
                            && is_leaf(items@, ord, once, q) && chain_score(items@, ord, q) == best implies exists|i: int|
                        0 <= i < nv.len() && #[trigger] nv[i] == q by {
                        lemma_child_subtree(items@, ord, once, p, pos as int, j as int, q);
                        if q[p.len() as int] < j {
                            let i0 = choose|i: int| 0 <= i < fv.len() && #[trigger] fv[i] == q;
                            assert(nv[i0] == q);
                        } else {
                            let i0 = choose|i: int| 0 <= i < lv.len() && #[trigger] lv[i] == q;
                            assert(nv[fv.len() + i0] == q);
                        }
                    }
                }
            } else {
                proof {
                    assert forall|q: Seq<int>|
                        in_subtree(items@, ord, once, p, pos as int, q) && q.len() > p.len() && q[p.len() as int] < j + 1
                            implies #[trigger] chain_score(items@, ord, q) <= best by {
                        lemma_child_subtree(items@, ord, once, p, pos as int, j as int, q);
                    }
                    assert forall|i: int| 0 <= i < fv.len() implies #[trigger] fv[i][p.len() as int] < j + 1 by {}
                    assert forall|q: Seq<int>|
                        in_subtree(items@, ord, once, p, pos as int, q) && q.len() > p.len() && q[p.len() as int] < j + 1
                            && is_leaf(items@, ord, once, q) && chain_score(items@, ord, q) == best implies exists|i: int|
                        0 <= i < fv.len() && #[trigger] fv[i] == q by {
                        lemma_child_subtree(items@, ord, once, p, pos as int, j as int, q);
                    }
                }
            }
            any_child = true;
        } else {
            proof {
                if any_child {
                    let fv = found_view(found@);
                    assert forall|q: Seq<int>|
                        in_subtree(items@, ord, once, p, pos as int, q) && q.len() > p.len() && q[p.len() as int] < j + 1
                            implies #[trigger] chain_score(items@, ord, q) <= best by {
                        lemma_first_new(items@, ord, once, p, pos as int, q);
                    }
                    assert forall|i: int| 0 <= i < fv.len() implies #[trigger] fv[i][p.len() as int] < j + 1 by {}
                    assert forall|q: Seq<int>|
                        in_subtree(items@, ord, once, p, pos as int, q) && q.len() > p.len() && q[p.len() as int] < j + 1
                            && is_leaf(items@, ord, once, q) && chain_score(items@, ord, q) == best implies exists|i: int|
                        0 <= i < fv.len() && #[trigger] fv[i] == q by {
                        lemma_first_new(items@, ord, once, p, pos as int, q);
                    }
                }
            }
        }
        j = j + 1;
    }
    if !any_child {
        let mut copy: Vec<usize> = Vec::new();
        let mut i: usize = 0;
        while i < path.len()
            invariant
                i <= path@.len(),
                copy@ == path@.subrange(0, i as int),
            decreases path@.len() - i,
        {
            copy.push(path[i]);
            i = i + 1;
        }
        assert(copy@ == path@);
        let mut out: Vec<Vec<usize>> = Vec::new();
        out.push(copy);
        proof {
            let fv = found_view(out@);
            assert(fv[0] == p);
            assert(p.subrange(0, p.len() as int) == p);
            assert forall|q: Seq<int>| in_subtree(items@, ord, once, p, pos as int, q) implies q == p by {
                if q.len() > p.len() {
                    lemma_first_new(items@, ord, once, p, pos as int, q);
                }
                assert(q =~= p);
            }
            assert(is_leaf(items@, ord, once, p));
        }
        return (total, out);
    }
    proof {
        let fv = found_view(found@);
        assert(in_subtree(items@, ord, once, p, pos as int, fv[0]));
        lemma_score_prefix(items@, ord, fv[0], p.len() as int);
        assert(fv[0].take(p.len() as int) == p);
        assert forall|q: Seq<int>| in_subtree(items@, ord, once, p, pos as int, q) implies #[trigger] chain_score(
            items@,
            ord,
            q,
        ) <= best by {
            if q.len() == p.len() {
                assert(q =~= p);
            } else {
                lemma_first_new(items@, ord, once, p, pos as int, q);
            }
        }
        assert forall|q: Seq<int>|
            in_subtree(items@, ord, once, p, pos as int, q) && is_leaf(items@, ord, once, q) && chain_score(
                items@,
                ord,
                q,
            ) == best implies exists|i: int| 0 <= i < fv.len() && #[trigger] fv[i] == q by {
            if q.len() == p.len() {
                assert(q =~= p);
                let k = choose|k: int| pos <= k < j && eligible(items@[ord[k]], chain_state(items@, ord, once, p), once);
                assert(!eligible(items@[ord[k]], chain_state(items@, ord, once, q), once));
            } else {
                lemma_first_new(items@, ord, once, p, pos as int, q);
            }
        }
    }
    (best, found)
}

/// Every best selection of the candidates, in depth-first order, with the
/// search order and the best total.
pub fn best_selections_exec(items: &Vec<SearchItem>, once: bool) -> (r: (Vec<usize>, u128, Vec<Vec<usize>>))
    requires
        items_wf(items@),
    ensures
        ints(r.0@) == search_order(items@),
        best_selections(items@, ints(r.0@), once, r.1 as int, found_view(r.2@)),
        found_view(r.2@).len() >= 1,
{
    let order = build_order(items);
    let st = SearchState::new();
    let mut path: Vec<usize> = Vec::new();
    proof {
        assert(ints(path@) =~= Seq::<int>::empty());
    }
    let (best, found) = search(items, &order, once, 0, &mut path, &st, 0);
    proof {
        let ord = ints(order@);
        let fv = found_view(found@);
        assert forall|i: int, k: int| 0 <= i < k < fv.len() implies #[trigger] fv[i] != #[trigger] fv[k] by {
            assert(dfs_before(fv[i], fv[k]));
        }
        let e = Seq::<int>::empty();
        assert(ints(path@) == e);
        assert forall|q: Seq<int>| chain_ok(items@, ord, once, q) implies in_subtree(items@, ord, once, e, 0, q) by {
            assert(q.subrange(0, 0) =~= e);
            if q.len() > 0 {
                lemma_chain_prefix(items@, ord, once, q, 0);
            }
        }
    }
    (order, best, found)
}

} // verus!
