//! The whole grid: the refined icosahedron, a patch on every face, and the tiles.

use vstd::prelude::*;
use crate::disk::{disk_index, disk_size, in_disk, lists_disk};
use crate::hex::HexTile;
use crate::search::{first_least, is_first_least, lemma_first_least_is_one};
use crate::hex_grid::{
    found_positions, lemma_found_at_most, lemma_last_patch_wins, lemma_neighbor_is_not_self, HexGrid,
    HexGridSettings, PositionId,
};
use crate::math::projection::{
    base_faces, generate_icosahedron, pow4, spec_subdivide_all,
    subdivide_all, IcosahedronFace, VertexSource, VertexTable, BASE_VERTICES,
};

verus! {

/// The finest refinement whose patch radius is still an `i32`.
pub const MAX_RESOLUTION: i32 = 28;

/// Why a grid could not be generated.
#[derive(Debug, Clone, Copy, PartialEq, Eq, Structural)]
pub enum GridError {
    /// The patch radius of this resolution is beyond `i32`.
    ResolutionTooLarge,
}

/// Two to the power `n`.
pub open spec fn pow2(n: nat) -> nat
    decreases n,
{
    if n == 0 {
        1
    } else {
        2 * pow2((n - 1) as nat)
    }
}

/// The radius of the patch laid on each face at the given resolution: six cells
/// on the bare icosahedron, and twice as many with each refinement.
pub open spec fn spec_grid_radius(resolution: int) -> int {
    6 * (pow2(resolution as nat) as int)
}

/// The table of the first `n` given points.
pub open spec fn given_vertices(n: int) -> Seq<VertexSource> {
    Seq::new(n as nat, |i: int| VertexSource::Given(i as usize))
}

/// The powers of two rise.
pub proof fn lemma_pow2_rises(a: nat, b: nat)
    requires
        a <= b,
    ensures
        pow2(a) <= pow2(b),
    decreases b,
{
    if a < b {
        lemma_pow2_rises(a, (b - 1) as nat);
    }
}

/// The powers of four are positive.
pub proof fn lemma_pow4_positive(d: nat)
    ensures
        pow4(d) >= 1,
    decreases d,
{
    if d > 0 {
        lemma_pow4_positive((d - 1) as nat);
    }
}

/// The patch radius of a resolution, where the resolution is not negative and the
/// radius is an `i32`.
pub fn grid_radius_for(resolution: i32) -> (radius: Option<i32>)
    ensures
        radius.is_some() <==> 0 <= resolution <= MAX_RESOLUTION,
        radius.is_some() ==> radius.unwrap() == spec_grid_radius(resolution as int),
        radius.is_some() ==> 6 <= radius.unwrap() < i32::MAX,
{
    if resolution < 0 || resolution > MAX_RESOLUTION {
        return None;
    }
    let mut radius: i32 = 6;
    let mut i: i32 = 0;
    while i < resolution
        invariant
            0 <= i <= resolution <= MAX_RESOLUTION,
            radius == 6 * pow2(i as nat),
            radius >= 6,
        decreases resolution - i,
    {
        proof {
            lemma_pow2_rises((i + 1) as nat, 28);
            assert(pow2(28) == 268435456) by {
                reveal_with_fuel(pow2, 29);
            }
        }
        radius = radius * 2;
        i = i + 1;
    }
    proof {
        lemma_pow2_rises(resolution as nat, 28);
        assert(pow2(28) == 268435456) by {
            reveal_with_fuel(pow2, 29);
        }
    }
    Some(radius)
}

/// A grid of hex tiles over the sphere.
pub struct SphericalHexGrid {
    resolution: i32,
    vertices: VertexTable,
    faces: Vec<IcosahedronFace>,
    grid: HexGrid,
    tiles: Vec<HexTile>,
}

impl SphericalHexGrid {
    /// How often each face of the icosahedron is refined.
    pub closed spec fn depth(&self) -> int {
        self.resolution as int
    }

    /// The vertices of the triangulation.
    pub closed spec fn vertex_sources(&self) -> Seq<VertexSource> {
        self.vertices@
    }

    /// The faces of the triangulation.
    pub closed spec fn face_list(&self) -> Seq<IcosahedronFace> {
        self.faces@
    }

    /// The patches and the positions on file.
    pub closed spec fn patches(&self) -> HexGrid {
        self.grid
    }

    /// The tiles.
    pub closed spec fn tile_list(&self) -> Seq<HexTile> {
        self.tiles@
    }

    /// The resolution is not negative, the faces are over the vertices, each tile
    /// has six neighbors at most and they are tiles, the six cells round each
    /// tile's cell can be named, and each tile's cell is on file with the tile's
    /// position.
    pub open spec fn wf(&self) -> bool {
        &&& self.depth() >= 0
        &&& crate::math::projection::well_founded(self.vertex_sources())
        &&& self.patches().wf()
        &&& forall|i: int|
            0 <= i < self.face_list().len() ==> (#[trigger] self.face_list()[i]).within(
                self.vertex_sources().len() as int,
            )
        &&& forall|i: int|
            0 <= i < self.tile_list().len() ==> (#[trigger] self.tile_list()[i]).linked_within(
                self.tile_list().len() as int,
            )
        &&& forall|i: int|
            0 <= i < self.tile_list().len() ==> (#[trigger] self.tile_list()[i]).coordinate().has_neighbors()
        &&& forall|i: int| 0 <= i < self.tile_list().len() ==> self.on_file(#[trigger] self.tile_list()[i])
        &&& forall|i: int|
            0 <= i < self.tile_list().len() ==> (#[trigger] self.tile_list()[i]).adjacent().len() <= 6
    }

    /// The positions next to a tile: those on file for the six neighbors of its
    /// cell, in the neighbors' order.
    pub open spec fn positions_next_to(&self, tile: int) -> Seq<PositionId> {
        found_positions(
            self.patches().positions(),
            self.tile_list()[tile].coordinate().spec_neighbors(),
        )
    }

    /// Whether a tile is wired: it has one neighbor for each position next to it.
    pub open spec fn wired(&self, tile: int) -> bool {
        self.tile_list()[tile].adjacent().len() == self.positions_next_to(tile).len()
    }

    /// Whether the tile's cell is on file with the tile's position.
    pub open spec fn on_file(&self, t: HexTile) -> bool {
        &&& self.patches().patches().len() > 0
        &&& in_disk(t.coordinate().q as int, t.coordinate().r as int, self.patches().radius())
        &&& self.patches().positions().contains_key(t.coordinate().spec_key() as u64)
        &&& self.patches().positions()[t.coordinate().spec_key() as u64] == t.position()
    }

    /// Whether this is the grid of its resolution as `lay_out_tiles` leaves it,
    /// before any tile is wired: the icosahedron refined face by face, one patch on
    /// each face in the faces' order, and one tile for each cell of the disk, in the
    /// disk's order, at the position that the last patch filed for it, with no
    /// neighbors yet.
    pub open spec fn laid_out(&self) -> bool {
        let refined = spec_subdivide_all(base_faces(), self.depth() as nat, BASE_VERTICES as int);
        let radius = spec_grid_radius(self.depth());
        &&& self.vertex_sources() == given_vertices(BASE_VERTICES as int) + refined.0
        &&& self.face_list() == refined.1
        &&& self.face_list().len() == 20 * pow4(self.depth() as nat)
        &&& self.patches().radius() == radius
        &&& self.patches().patches().len() == self.face_list().len()
        &&& forall|i: int|
            0 <= i < self.face_list().len() ==> (#[trigger] self.patches().patches()[i]).face
                == self.face_list()[i]
        &&& self.tile_list().len() == disk_size(radius)
        &&& forall|i: int|
            0 <= i < self.tile_list().len() ==> {
                let t = #[trigger] self.tile_list()[i];
                &&& t.coordinate() == self.patches().patches().last().local_coords@[i]
                &&& t.position() == (PositionId {
                    patch: (self.face_list().len() - 1) as usize,
                    slot: i as usize,
                })
                &&& t.adjacent() == Seq::<usize>::empty()
            }
    }

    /// A grid of resolution 1 with nothing generated yet.
    pub fn new() -> (g: SphericalHexGrid)
        ensures
            g.wf(),
            g.depth() == 1,
            g.face_list().len() == 0,
            g.tile_list().len() == 0,
            g.patches().patches().len() == 0,
    {
        SphericalHexGrid {
            resolution: 1,
            vertices: VertexTable::with_given(0),
            faces: Vec::new(),
            grid: HexGrid::new(HexGridSettings { grid_radius: 0 }),
            tiles: Vec::new(),
        }
    }

    /// Sets the resolution for the next generation; a negative one counts as 0.
    pub fn set_resolution(&mut self, resolution: i32)
        requires
            old(self).wf(),
        ensures
            final(self).wf(),
            final(self).depth() == if resolution < 0 {
                0
            } else {
                resolution as int
            },
            final(self).vertex_sources() == old(self).vertex_sources(),
            final(self).face_list() == old(self).face_list(),
            final(self).patches() == old(self).patches(),
            final(self).tile_list() == old(self).tile_list(),
    {
        if resolution < 0 {
            self.resolution = 0;
        } else {
            self.resolution = resolution;
        }
        proof {
            assert(self.face_list() == old(self).face_list());
            assert(self.tile_list() == old(self).tile_list());
            assert(self.vertex_sources() == old(self).vertex_sources());
            assert(self.patches() == old(self).patches());
        }
    }

    /// The resolution.
    pub fn resolution(&self) -> (r: i32)
        ensures
            r == self.depth(),
    {
        self.resolution
    }

    /// The vertices of the triangulation.
    pub fn vertices(&self) -> (v: &VertexTable)
        ensures
            v@ == self.vertex_sources(),
    {
        &self.vertices
    }

    /// The faces of the triangulation.
    pub fn faces(&self) -> (f: &Vec<IcosahedronFace>)
        ensures
            f@ == self.face_list(),
    {
        &self.faces
    }

    /// The patches and the positions on file.
    pub fn hex_grid(&self) -> (g: &HexGrid)
        ensures
            *g == self.patches(),
    {
        &self.grid
    }

    /// The tiles.
    pub fn tiles(&self) -> (t: &Vec<HexTile>)
        ensures
            t@ == self.tile_list(),
    {
        &self.tiles
    }

    /// The first pass of a generation. Discards what was generated, tiles and
    /// wiring, and lays the grid of the current resolution out anew: refines the
    /// icosahedron, lays a patch on every face, and makes a tile for each cell on
    /// file. No tile is wired by it: once all tiles exist, the second pass wires
    /// them one by one, with `connect_nearest`. Where the resolution is too large,
    /// nothing changes.
    pub fn lay_out_tiles(&mut self) -> (done: Result<(), GridError>)
        requires
            old(self).wf(),
        ensures
            final(self).wf(),
            final(self).depth() == old(self).depth(),
            done.is_ok() <==> old(self).depth() <= MAX_RESOLUTION,
            done.is_ok() ==> final(self).laid_out(),
            done.is_err() ==> *final(self) == *old(self),
    {
        let radius = match grid_radius_for(self.resolution) {
            Some(radius) => radius,
            None => {
                return Err(GridError::ResolutionTooLarge);
            },
        };
        let base = generate_icosahedron();
        let mut vertices = VertexTable::with_given(BASE_VERTICES);
        let ghost given = vertices@;
        let faces = subdivide_all(&base, self.resolution, &mut vertices);
        proof {
            assert(given =~= given_vertices(BASE_VERTICES as int));
            lemma_pow4_positive(self.resolution as nat);
            assert(faces@.len() >= 20) by (nonlinear_arith)
                requires
                    faces@.len() == 20 * pow4(self.resolution as nat),
                    pow4(self.resolution as nat) >= 1,
            ;
        }
        let mut grid = HexGrid::new(HexGridSettings { grid_radius: radius });
        let mut i: usize = 0;
        while i < faces.len()
            invariant
                i <= faces@.len(),
                grid.wf(),
                grid.radius() == radius,
                grid.patches().len() == i,
                forall|j: int| 0 <= j < i ==> (#[trigger] grid.patches()[j]).face == faces@[j],
            decreases faces@.len() - i,
        {
            let ghost prior = grid.patches();
            grid.generate_on_face(faces[i]);
            proof {
                assert forall|j: int| 0 <= j < i + 1 implies (#[trigger] grid.patches()[j]).face
                    == faces@[j] by {
                    if j < i {
                        assert(grid.patches().drop_last()[j] == prior[j]);
                    }
                }
            }
            i = i + 1;
        }
        let last = faces.len() - 1;
        let mut tiles: Vec<HexTile> = Vec::new();
        let patches = grid.face_grids();
        let cells = &patches[last].local_coords;
        assert(lists_disk(cells@, radius as int));
        let mut k: usize = 0;
        while k < cells.len()
            invariant
                k <= cells@.len(),
                tiles@.len() == k,
                forall|j: int|
                    0 <= j < k ==> {
                        let t = #[trigger] tiles@[j];
                        &&& t.coordinate() == cells@[j]
                        &&& t.position() == (PositionId { patch: last, slot: j as usize })
                        &&& t.adjacent() == Seq::<usize>::empty()
                        &&& t.coordinate().has_neighbors()
                        &&& in_disk(t.coordinate().q as int, t.coordinate().r as int, radius as int)
                        &&& grid.positions().contains_key(t.coordinate().spec_key() as u64)
                        &&& grid.positions()[t.coordinate().spec_key() as u64] == t.position()
                    },
                lists_disk(cells@, radius as int),
                radius < i32::MAX,
                grid.wf(),
                grid.radius() == radius,
                grid.patches().len() == last + 1,
            decreases cells@.len() - k,
        {
            let c = cells[k];
            proof {
                lemma_last_patch_wins(&grid, c.q as int, c.r as int);
                assert(disk_index(c.q as int, c.r as int, radius as int) == k);
            }
            tiles.push(HexTile::new(c, PositionId { patch: last, slot: k }));
            k = k + 1;
        }
        self.vertices = vertices;
        self.faces = faces;
        self.grid = grid;
        self.tiles = tiles;
        Ok(())
    }

    /// The positions on file for the six neighbors of a tile's cell, in the
    /// neighbors' order; a neighbor without a position is left out.
    pub fn neighbor_positions(&self, tile: usize) -> (out: Vec<PositionId>)
        requires
            self.wf(),
            tile < self.tile_list().len(),
        ensures
            out@ == self.positions_next_to(tile as int),
            out@.len() <= 6,
            forall|j: int| 0 <= j < out@.len() ==> #[trigger] out@[j] != self.tile_list()[tile as int].position(),
    {
        let c = self.tiles[tile].coord();
        let out = self.grid.get_neighbor_positions(&c);
        proof {
            assert(self.on_file(self.tile_list()[tile as int]));
            assert forall|j: int| 0 <= j < out@.len() implies #[trigger] out@[j] != self.tile_list()[tile as int].position() by {
                lemma_neighbor_is_not_self(&self.grid, c, j);
            }
        }
        out
    }

    /// Records the tiles next to a tile.
    fn connect(&mut self, tile: usize, neighbors: Vec<usize>)
        requires
            old(self).wf(),
            tile < old(self).tile_list().len(),
            neighbors@.len() <= 6,
            forall|j: int| 0 <= j < neighbors@.len() ==> #[trigger] neighbors@[j] < old(self).tile_list().len(),
        ensures
            final(self).wf(),
            final(self).depth() == old(self).depth(),
            final(self).vertex_sources() == old(self).vertex_sources(),
            final(self).face_list() == old(self).face_list(),
            final(self).patches() == old(self).patches(),
            final(self).tile_list().len() == old(self).tile_list().len(),
            final(self).tile_list()[tile as int].adjacent() == neighbors@,
            final(self).tile_list()[tile as int].coordinate() == old(self).tile_list()[tile as int].coordinate(),
            final(self).tile_list()[tile as int].position() == old(self).tile_list()[tile as int].position(),
            forall|i: int|
                0 <= i < old(self).tile_list().len() && i != tile ==> #[trigger] final(self).tile_list()[i]
                    == old(self).tile_list()[i],
    {
        let c = self.tiles[tile].coord();
        let p = self.tiles[tile].world_pos();
        let mut t = HexTile::new(c, p);
        t.connect_neighbors(neighbors);
        self.tiles.set(tile, t);
        proof {
            assert(self.face_list() == old(self).face_list());
            assert(self.vertex_sources() == old(self).vertex_sources());
            assert(self.patches() == old(self).patches());
            assert forall|i: int| 0 <= i < self.tile_list().len() && i != tile implies #[trigger] self.tile_list()[i]
                == old(self).tile_list()[i] by {}
        }
    }

    /// The second pass of a generation, for one tile. `ranks` holds one list for
    /// each position next to the tile, in their order: the ranks of all tiles by
    /// their distance from that position. The tile's neighbors become, for each
    /// such position, the first tile of least rank: the tile nearest to it. What the
    /// tile had for neighbors is discarded.
    pub fn connect_nearest(&mut self, tile: usize, ranks: &Vec<Vec<u32>>)
        requires
            old(self).wf(),
            tile < old(self).tile_list().len(),
            ranks@.len() == old(self).positions_next_to(tile as int).len(),
            forall|j: int|
                0 <= j < ranks@.len() ==> (#[trigger] ranks@[j])@.len() == old(self).tile_list().len(),
        ensures
            final(self).wf(),
            final(self).depth() == old(self).depth(),
            final(self).vertex_sources() == old(self).vertex_sources(),
            final(self).face_list() == old(self).face_list(),
            final(self).patches() == old(self).patches(),
            final(self).tile_list().len() == old(self).tile_list().len(),
            final(self).tile_list()[tile as int].coordinate() == old(self).tile_list()[tile as int].coordinate(),
            final(self).tile_list()[tile as int].position() == old(self).tile_list()[tile as int].position(),
            forall|i: int|
                0 <= i < old(self).tile_list().len() && i != tile ==> #[trigger] final(self).tile_list()[i]
                    == old(self).tile_list()[i],
            final(self).wired(tile as int),
            final(self).tile_list()[tile as int].adjacent().len() == ranks@.len(),
            final(self).tile_list()[tile as int].adjacent().len() <= 6,
            forall|j: int|
                0 <= j < ranks@.len() ==> is_first_least(
                    (#[trigger] ranks@[j])@,
                    final(self).tile_list()[tile as int].adjacent()[j] as int,
                ),
            forall|j: int|
                0 <= j < ranks@.len() ==> (final(self).tile_list()[tile as int].adjacent()[j] == tile
                    <==> is_first_least((#[trigger] ranks@[j])@, tile as int)),
    {
        proof {
            lemma_found_at_most(
                self.patches().positions(),
                self.tile_list()[tile as int].coordinate().spec_neighbors(),
            );
        }
        let mut near: Vec<usize> = Vec::new();
        let mut j: usize = 0;
        while j < ranks.len()
            invariant
                j <= ranks@.len(),
                near@.len() == j,
                tile < self.tiles@.len(),
                forall|i: int| 0 <= i < ranks@.len() ==> (#[trigger] ranks@[i])@.len() == self.tiles@.len(),
                forall|i: int| 0 <= i < j ==> is_first_least((#[trigger] ranks@[i])@, near@[i] as int),
                forall|i: int| 0 <= i < j ==> #[trigger] near@[i] < self.tiles@.len(),
            decreases ranks@.len() - j,
        {
            assert(ranks@[j as int]@.len() == self.tiles@.len());
            match first_least(&ranks[j]) {
                Some(b) => {
                    near.push(b);
                },
                None => {},
            }
            j = j + 1;
        }
        self.connect(tile, near);
        proof {
            assert forall|j: int| 0 <= j < ranks@.len() implies (self.tile_list()[tile as int].adjacent()[j]
                == tile <==> is_first_least((#[trigger] ranks@[j])@, tile as int)) by {
                let b = self.tile_list()[tile as int].adjacent()[j] as int;
                assert(is_first_least(ranks@[j]@, b));
                if is_first_least(ranks@[j]@, tile as int) {
                    lemma_first_least_is_one(ranks@[j]@, b, tile as int);
                }
            }
        }
    }

    /// The tile nearest to a point, where `ranks` ranks the tiles by their distance
    /// from it: the first tile of least rank, or nothing where no face was generated.
    pub fn get_tile_at_position(&self, ranks: &Vec<u32>) -> (hit: Option<usize>)
        requires
            ranks@.len() == self.tile_list().len(),
        ensures
            hit.is_none() <==> self.face_list().len() == 0 || self.tile_list().len() == 0,
            hit.is_some() ==> is_first_least(ranks@, hit.unwrap() as int),
    {
        if self.faces.len() == 0 {
            None
        } else {
            first_least(ranks)
        }
    }
}

} // verus!
