use vstd::prelude::*;

use super::tiles::Tile;

verus! {

/// `t` can start a chow: a suit tile of rank 1 to 7, so that the two tiles
/// after it stay in the same suit.
pub open spec fn is_chow_start(t: Tile) -> bool {
    t.spec_id() <= 152 && t.spec_id() % 64 <= 24
}

/// A chow: three consecutive tiles of one suit, named by its lowest tile.
#[derive(Clone, Copy, Debug)]
pub struct Sequence {
    start: Tile,
    is_concealed: bool,
}

impl Sequence {
    #[verifier::type_invariant]
    spec fn inv(self) -> bool {
        is_chow_start(self.start)
    }

    pub closed spec fn spec_start(self) -> Tile {
        self.start
    }

    pub closed spec fn spec_concealed(self) -> bool {
        self.is_concealed
    }

    /// Builds a chow starting at `start`; `start` must have rank 1 to 7.
    pub fn new(start: Tile, is_concealed: bool) -> (r: Self)
        requires
            is_chow_start(start),
        ensures
            r.spec_start() == start,
            r.spec_concealed() == is_concealed,
    {
        Self { start, is_concealed }
    }

    /// Builds a chow starting at `start` where `start` has rank 1 to 7 in a
    /// suit; `None` for any other tile.
    pub fn try_new(start: Tile, is_concealed: bool) -> (r: Option<Self>)
        ensures
            r is Some <==> is_chow_start(start),
            r matches Some(q) ==> q.spec_start() == start && q.spec_concealed() == is_concealed,
    {
        let id = start.id();
        if id <= 152 && id % 64 <= 24 {
            Some(Self::new(start, is_concealed))
        } else {
            None
        }
    }

    pub fn start(&self) -> (r: Tile)
        ensures
            r == self.spec_start(),
            is_chow_start(r),
    {
        proof {
            use_type_invariant(self);
        }
        self.start
    }

    /// The three tiles of the chow, lowest first.
    pub fn tiles(&self) -> (r: [Tile; 3])
        ensures
            r@ == seq![
                self.spec_start(),
                self.spec_start().spec_next(),
                self.spec_start().spec_next().spec_next(),
            ],
            r[1].spec_id() == self.spec_start().spec_id() + 4,
            r[2].spec_id() == self.spec_start().spec_id() + 8,
    {
        let s = self.start();
        let n1 = s.next();
        let n2 = n1.next();
        let r = [s, n1, n2];
        assert(r@ =~= seq![s, n1, n2]);
        r
    }

    pub fn is_concealed(&self) -> (r: bool)
        ensures
            r == self.spec_concealed(),
    {
        self.is_concealed
    }
}

/// A pung: three identical tiles.
#[derive(Clone, Copy, Debug)]
pub struct Triplet {
    tile: Tile,
    is_concealed: bool,
}

impl Triplet {
    #[verifier::type_invariant]
    spec fn inv(self) -> bool {
        !self.tile.spec_is_flower()
    }

    pub closed spec fn spec_tile(self) -> Tile {
        self.tile
    }

    pub closed spec fn spec_concealed(self) -> bool {
        self.is_concealed
    }

    /// Builds a pung of `tile`, which must not be a flower.
    pub fn new(tile: Tile, is_concealed: bool) -> (r: Self)
        requires
            !tile.spec_is_flower(),
        ensures
            r.spec_tile() == tile,
            r.spec_concealed() == is_concealed,
    {
        Self { tile, is_concealed }
    }

    /// Builds a pung of `tile`; `None` for a flower.
    pub fn try_new(tile: Tile, is_concealed: bool) -> (r: Option<Self>)
        ensures
            r is Some <==> !tile.spec_is_flower(),
            r matches Some(q) ==> q.spec_tile() == tile && q.spec_concealed() == is_concealed,
    {
        if tile.is_flower() {
            None
        } else {
            Some(Self::new(tile, is_concealed))
        }
    }

    pub fn tile(&self) -> (r: Tile)
        ensures
            r == self.spec_tile(),
            !r.spec_is_flower(),
    {
        proof {
            use_type_invariant(self);
        }
        self.tile
    }

    pub fn tiles(&self) -> (r: [Tile; 3])
        ensures
            r@ == seq![self.spec_tile(), self.spec_tile(), self.spec_tile()],
    {
        let r = [self.tile, self.tile, self.tile];
        assert(r@ =~= seq![self.tile, self.tile, self.tile]);
        r
    }

    pub fn is_concealed(&self) -> (r: bool)
        ensures
            r == self.spec_concealed(),
    {
        self.is_concealed
    }
}

/// A kong: four identical tiles.
#[derive(Clone, Copy, Debug)]
pub struct Quad {
    tile: Tile,
    is_concealed: bool,
}

impl Quad {
    #[verifier::type_invariant]
    spec fn inv(self) -> bool {
        !self.tile.spec_is_flower()
    }

    pub closed spec fn spec_tile(self) -> Tile {
        self.tile
    }

    pub closed spec fn spec_concealed(self) -> bool {
        self.is_concealed
    }

    /// Builds a kong of `tile`, which must not be a flower.
    pub fn new(tile: Tile, is_concealed: bool) -> (r: Self)
        requires
            !tile.spec_is_flower(),
        ensures
            r.spec_tile() == tile,
            r.spec_concealed() == is_concealed,
    {
        Self { tile, is_concealed }
    }

    /// Builds a kong of `tile`; `None` for a flower.
    pub fn try_new(tile: Tile, is_concealed: bool) -> (r: Option<Self>)
        ensures
            r is Some <==> !tile.spec_is_flower(),
            r matches Some(q) ==> q.spec_tile() == tile && q.spec_concealed() == is_concealed,
    {
        if tile.is_flower() {
            None
        } else {
            Some(Self::new(tile, is_concealed))
        }
    }

    pub fn tile(&self) -> (r: Tile)
        ensures
            r == self.spec_tile(),
            !r.spec_is_flower(),
    {
        proof {
            use_type_invariant(self);
        }
        self.tile
    }

    pub fn tiles(&self) -> (r: [Tile; 4])
        ensures
            r@ == seq![self.spec_tile(), self.spec_tile(), self.spec_tile(), self.spec_tile()],
    {
        let r = [self.tile, self.tile, self.tile, self.tile];
        assert(r@ =~= seq![self.tile, self.tile, self.tile, self.tile]);
        r
    }

    pub fn is_concealed(&self) -> (r: bool)
        ensures
            r == self.spec_concealed(),
    {
        self.is_concealed
    }
}

/// A set: chow, pung or kong.
#[derive(Clone, Copy, Debug)]
pub enum Meld {
    Chow(Sequence),
    Pung(Triplet),
    Kong(Quad),
}

impl Meld {
    /// The tile that names the set: the lowest tile of a chow, the repeated
    /// tile of a pung or kong.
    pub open spec fn spec_tile(self) -> Tile {
        match self {
            Meld::Chow(s) => s.spec_start(),
            Meld::Pung(t) => t.spec_tile(),
            Meld::Kong(q) => q.spec_tile(),
        }
    }

    pub open spec fn spec_concealed(self) -> bool {
        match self {
            Meld::Chow(s) => s.spec_concealed(),
            Meld::Pung(t) => t.spec_concealed(),
            Meld::Kong(q) => q.spec_concealed(),
        }
    }

    /// The tiles that make up the set.
    pub open spec fn spec_tiles(self) -> Seq<Tile> {
        match self {
            Meld::Chow(s) => seq![
                s.spec_start(),
                s.spec_start().spec_next(),
                s.spec_start().spec_next().spec_next(),
            ],
            Meld::Pung(t) => seq![t.spec_tile(), t.spec_tile(), t.spec_tile()],
            Meld::Kong(q) => seq![q.spec_tile(), q.spec_tile(), q.spec_tile(), q.spec_tile()],
        }
    }

    pub fn tiles(&self) -> (r: Vec<Tile>)
        ensures
            r@ == self.spec_tiles(),
    {
        match self {
            Meld::Chow(s) => {
                let a = s.tiles();
                let r = vec![a[0], a[1], a[2]];
                r
            },
            Meld::Pung(t) => {
                let a = t.tiles();
                let r = vec![a[0], a[1], a[2]];
                r
            },
            Meld::Kong(q) => {
                let a = q.tiles();
                let r = vec![a[0], a[1], a[2], a[3]];
                r
            },
        }
    }
}

/// A pair: two identical tiles.
#[derive(Clone, Copy, Debug)]
pub struct Pair {
    tile: Tile,
}

impl Pair {
    #[verifier::type_invariant]
    spec fn inv(self) -> bool {
        !self.tile.spec_is_flower()
    }

    pub closed spec fn spec_tile(self) -> Tile {
        self.tile
    }

    /// Builds a pair of `tile`, which must not be a flower.
    pub fn new(tile: Tile) -> (r: Self)
        requires
            !tile.spec_is_flower(),
        ensures
            r.spec_tile() == tile,
    {
        Self { tile }
    }

    /// Builds a pair of `tile`; `None` for a flower.
    pub fn try_new(tile: Tile) -> (r: Option<Self>)
        ensures
            r is Some <==> !tile.spec_is_flower(),
            r matches Some(q) ==> q.spec_tile() == tile,
    {
        if tile.is_flower() {
            None
        } else {
            Some(Self::new(tile))
        }
    }

    pub fn tile(&self) -> (r: Tile)
        ensures
            r == self.spec_tile(),
            !r.spec_is_flower(),
    {
        proof {
            use_type_invariant(self);
        }
        self.tile
    }

    pub fn tiles(&self) -> (r: [Tile; 2])
        ensures
            r@ == seq![self.spec_tile(), self.spec_tile()],
    {
        let r = [self.tile, self.tile];
        assert(r@ =~= seq![self.tile, self.tile]);
        r
    }
}

/// Two sets of one kind, on one tile, both concealed or both exposed, are
/// the same set.
pub proof fn lemma_meld_eq(a: Meld, b: Meld)
    requires
        a is Pung && b is Pung || a is Chow && b is Chow || a is Kong && b is Kong,
        a.spec_tile() == b.spec_tile(),
        a.spec_concealed() == b.spec_concealed(),
    ensures
        a == b,
{
    match (a, b) {
        (Meld::Chow(x), Meld::Chow(y)) => {
            assert(x == y);
        },
        (Meld::Pung(x), Meld::Pung(y)) => {
            assert(x == y);
        },
        (Meld::Kong(x), Meld::Kong(y)) => {
            assert(x == y);
        },
        _ => {},
    }
}

} // verus!
