//! Axial hex coordinates.

use vstd::prelude::*;
use crate::hex_grid::PositionId;

verus! {

/// A cell of the hex lattice in cube form; `s` is redundant and kept equal to `-q - r`.
#[derive(Debug, Clone, Copy, Hash, PartialEq, Eq, Structural)]
pub struct HexCoord {
    pub q: i32,
    pub r: i32,
    pub s: i32,
}

/// The six axial directions, in the order in which neighbors are listed.
pub open spec fn direction(i: int) -> (int, int) {
    if i == 0 {
        (1, 0)
    } else if i == 1 {
        (1, -1)
    } else if i == 2 {
        (0, -1)
    } else if i == 3 {
        (-1, 0)
    } else if i == 4 {
        (-1, 1)
    } else {
        (0, 1)
    }
}

/// The integer under which the cell `(q, r)` is filed in a map: both components
/// shifted to be non-negative, `q` in the high half.
pub open spec fn spec_key(q: int, r: int) -> int {
    (q + 0x8000_0000) * 0x1_0000_0000 + (r + 0x8000_0000)
}

/// The `q` of the cell filed under `k`.
pub open spec fn key_q(k: int) -> int {
    k / 0x1_0000_0000 - 0x8000_0000
}

/// The `r` of the cell filed under `k`.
pub open spec fn key_r(k: int) -> int {
    k % 0x1_0000_0000 - 0x8000_0000
}

/// Keys and cells correspond one to one: a key decodes to the cell it was made of.
pub proof fn lemma_key_decodes(q: int, r: int)
    requires
        i32::MIN <= q <= i32::MAX,
        i32::MIN <= r <= i32::MAX,
    ensures
        0 <= spec_key(q, r) <= u64::MAX,
        key_q(spec_key(q, r)) == q,
        key_r(spec_key(q, r)) == r,
{
}

/// Every key is the key of the cell it decodes to.
pub proof fn lemma_key_encodes(k: u64)
    ensures
        spec_key(key_q(k as int), key_r(k as int)) == k,
        i32::MIN <= key_q(k as int) <= i32::MAX,
        i32::MIN <= key_r(k as int) <= i32::MAX,
{
}

impl HexCoord {
    /// The three components sum to zero.
    pub open spec fn wf(&self) -> bool {
        self.q + self.r + self.s == 0
    }

    /// Whether all six neighbors can be represented: none of `q`, `r` and `-q - r`
    /// is at either end of `i32`.
    pub open spec fn has_neighbors(&self) -> bool {
        &&& i32::MIN < self.q < i32::MAX
        &&& i32::MIN < self.r < i32::MAX
        &&& i32::MIN < -self.q - self.r < i32::MAX
    }

    /// The neighbor in direction `i`.
    pub open spec fn spec_neighbor(&self, i: int) -> HexCoord {
        let d = direction(i);
        HexCoord {
            q: (self.q + d.0) as i32,
            r: (self.r + d.1) as i32,
            s: (-self.q - self.r - d.0 - d.1) as i32,
        }
    }

    /// The six neighbors, in the order of `direction`.
    pub open spec fn spec_neighbors(&self) -> Seq<HexCoord> {
        Seq::new(6, |i: int| self.spec_neighbor(i))
    }

    /// The map key of this cell.
    pub open spec fn spec_key(&self) -> int {
        spec_key(self.q as int, self.r as int)
    }

    /// The cell at `(q, r)`.
    pub fn new(q: i32, r: i32) -> (c: HexCoord)
        requires
            i32::MIN <= -q - r <= i32::MAX,
        ensures
            c.q == q,
            c.r == r,
            c.s == -q - r,
            c.wf(),
    {
        let s: i64 = 0i64 - (q as i64) - (r as i64);
        HexCoord { q, r, s: s as i32 }
    }

    /// The six adjacent cells, in the fixed order
    /// `(1,0) (1,-1) (0,-1) (-1,0) (-1,1) (0,1)`.
    pub fn neighbors(&self) -> (out: Vec<HexCoord>)
        requires
            self.has_neighbors(),
        ensures
            out@ == self.spec_neighbors(),
            out@.len() == 6,
            forall|i: int| 0 <= i < 6 ==> (#[trigger] out@[i]).wf(),
    {
        let mut out: Vec<HexCoord> = Vec::new();
        out.push(HexCoord::new(self.q + 1, self.r));
        out.push(HexCoord::new(self.q + 1, self.r - 1));
        out.push(HexCoord::new(self.q, self.r - 1));
        out.push(HexCoord::new(self.q - 1, self.r));
        out.push(HexCoord::new(self.q - 1, self.r + 1));
        out.push(HexCoord::new(self.q, self.r + 1));
        assert(out@ =~= self.spec_neighbors());
        out
    }

    /// The integer under which this cell is filed in a map.
    pub fn key(&self) -> (k: u64)
        ensures
            k == self.spec_key(),
            key_q(k as int) == self.q,
            key_r(k as int) == self.r,
    {
        let hi: u64 = (self.q as i64 + 0x8000_0000i64) as u64;
        let lo: u64 = (self.r as i64 + 0x8000_0000i64) as u64;
        proof {
            lemma_key_decodes(self.q as int, self.r as int);
        }
        hi * 0x1_0000_0000u64 + lo
    }

    /// The cell filed under `k`, where `k` is the key of a cell.
    pub fn from_key(k: u64) -> (c: Option<HexCoord>)
        ensures
            c.is_some() <==> i32::MIN <= -key_q(k as int) - key_r(k as int) <= i32::MAX,
            c.is_some() ==> c.unwrap().q == key_q(k as int) && c.unwrap().r == key_r(k as int)
                && c.unwrap().wf() && c.unwrap().spec_key() == k,
    {
        let q: i64 = (k / 0x1_0000_0000u64) as i64 - 0x8000_0000i64;
        let r: i64 = (k % 0x1_0000_0000u64) as i64 - 0x8000_0000i64;
        let s: i64 = 0i64 - q - r;
        if s < -0x8000_0000i64 || s > 0x7fff_ffffi64 {
            None
        } else {
            Some(HexCoord::new(q as i32, r as i32))
        }
    }
}

/// One tile of the finished grid: its cell, the name of its position on the sphere,
/// and the tiles next to it, by their numbers in the grid's list of tiles.
#[derive(Debug)]
pub struct HexTile {
    coord: HexCoord,
    world_pos: PositionId,
    neighbors: Vec<usize>,
}

impl HexTile {
    /// The tile's cell.
    pub closed spec fn coordinate(&self) -> HexCoord {
        self.coord
    }

    /// The name of the tile's position.
    pub closed spec fn position(&self) -> PositionId {
        self.world_pos
    }

    /// The tiles next to this one.
    pub closed spec fn adjacent(&self) -> Seq<usize> {
        self.neighbors@
    }

    /// Whether every neighbor is one of the first `n` tiles.
    pub open spec fn linked_within(&self, n: int) -> bool {
        forall|j: int| 0 <= j < self.adjacent().len() ==> #[trigger] self.adjacent()[j] < n
    }

    /// A tile at `coord` with no neighbors yet.
    pub fn new(coord: HexCoord, world_pos: PositionId) -> (t: HexTile)
        ensures
            t.coordinate() == coord,
            t.position() == world_pos,
            t.adjacent() == Seq::<usize>::empty(),
    {
        HexTile { coord, world_pos, neighbors: Vec::new() }
    }

    /// The tiles next to this one.
    pub fn get_neighbors(&self) -> (out: Vec<usize>)
        ensures
            out@ == self.adjacent(),
    {
        let mut out: Vec<usize> = Vec::new();
        let mut i: usize = 0;
        while i < self.neighbors.len()
            invariant
                i <= self.neighbors@.len(),
                out@ == self.neighbors@.take(i as int),
            decreases self.neighbors@.len() - i,
        {
            out.push(self.neighbors[i]);
            assert(self.neighbors@.take(i + 1) =~= self.neighbors@.take(i as int).push(
                self.neighbors@[i as int],
            ));
            i = i + 1;
        }
        assert(self.neighbors@.take(self.neighbors@.len() as int) =~= self.neighbors@);
        out
    }

    /// The tile's cell as `(q, r, s)`.
    pub fn get_coordinate(&self) -> (c: (i32, i32, i32))
        ensures
            c == (self.coordinate().q, self.coordinate().r, self.coordinate().s),
    {
        (self.coord.q, self.coord.r, self.coord.s)
    }

    /// The tile's cell.
    pub fn coord(&self) -> (c: HexCoord)
        ensures
            c == self.coordinate(),
    {
        self.coord
    }

    /// The name of the tile's position.
    pub fn world_pos(&self) -> (p: PositionId)
        ensures
            p == self.position(),
    {
        self.world_pos
    }

    /// Moves the tile to the cell `(q, r)`.
    pub fn set_coordinate(&mut self, q: i32, r: i32)
        requires
            i32::MIN <= -q - r <= i32::MAX,
        ensures
            final(self).coordinate() == (HexCoord { q, r, s: (-q - r) as i32 }),
            final(self).position() == old(self).position(),
            final(self).adjacent() == old(self).adjacent(),
    {
        self.coord = HexCoord::new(q, r);
    }

    /// Replaces the tile's neighbors.
    pub fn connect_neighbors(&mut self, neighbors: Vec<usize>)
        ensures
            final(self).adjacent() == neighbors@,
            final(self).coordinate() == old(self).coordinate(),
            final(self).position() == old(self).position(),
    {
        self.neighbors = neighbors;
    }
}

} // verus!
