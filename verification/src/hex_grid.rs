//! The hex patches laid on the faces, and the map from cell to position.

use std::collections::HashMap;
use vstd::prelude::*;
use crate::disk::{disk_index, disk_size, hex_disk, in_disk, interior, lists_disk};
use crate::disk::lemma_interior_neighbors_in_disk;
use crate::axial::{round_to_hex, rounded};
use crate::hex::{key_q, key_r, lemma_key_decodes, lemma_key_encodes, spec_key, HexCoord};
use crate::search::{first_least, is_first_least};
use crate::math::projection::IcosahedronFace;

verus! {

/// The shape of every patch.
#[derive(Debug, Clone, Copy)]
pub struct HexGridSettings {
    /// The radius of the hex disk laid on each face, in cells.
    pub grid_radius: i32,
}

/// Names one position on the sphere: that of cell number `slot` of patch number `patch`.
#[derive(Debug, Clone, Copy, PartialEq, Eq, Structural)]
pub struct PositionId {
    pub patch: usize,
    pub slot: usize,
}

/// The record of one patch: the face it lies on and its cells, in the order of their slots.
#[derive(Debug)]
pub struct FaceGrid {
    pub face: IcosahedronFace,
    pub local_coords: Vec<HexCoord>,
}

/// All patches, and for each cell the position that was generated for it last.
pub struct HexGrid {
    settings: HexGridSettings,
    hex_positions: HashMap<u64, PositionId>,
    face_grids: Vec<FaceGrid>,
}

/// What one patch of the given radius files: each cell of the disk, under its key,
/// with the position named by the patch and the cell's place in the disk.
pub open spec fn patch_positions(radius: int, patch: usize) -> Map<u64, PositionId> {
    Map::new(
        |k: u64| in_disk(key_q(k as int), key_r(k as int), radius),
        |k: u64|
            PositionId {
                patch,
                slot: disk_index(key_q(k as int), key_r(k as int), radius) as usize,
            },
    )
}

/// The positions on file for the given cells, in their order, leaving out the cells
/// that have none.
pub open spec fn found_positions(positions: Map<u64, PositionId>, cells: Seq<HexCoord>) -> Seq<
    PositionId,
>
    decreases cells.len(),
{
    if cells.len() == 0 {
        Seq::empty()
    } else {
        let rest = found_positions(positions, cells.drop_last());
        let k = cells.last().spec_key() as u64;
        if positions.contains_key(k) {
            rest.push(positions[k])
        } else {
            rest
        }
    }
}

/// Those of the given cells that have a position on file, in their order.
pub open spec fn found_cells(positions: Map<u64, PositionId>, cells: Seq<HexCoord>) -> Seq<HexCoord>
    decreases cells.len(),
{
    if cells.len() == 0 {
        Seq::empty()
    } else {
        let rest = found_cells(positions, cells.drop_last());
        if positions.contains_key(cells.last().spec_key() as u64) {
            rest.push(cells.last())
        } else {
            rest
        }
    }
}

/// As many cells are found as positions, and each position found is that of the
/// cell found at the same place.
pub proof fn lemma_found_cells_match(positions: Map<u64, PositionId>, cells: Seq<HexCoord>)
    ensures
        found_cells(positions, cells).len() == found_positions(positions, cells).len(),
        forall|i: int|
            0 <= i < found_cells(positions, cells).len() ==> {
                let c = #[trigger] found_cells(positions, cells)[i];
                positions.contains_key(c.spec_key() as u64) && positions[c.spec_key() as u64]
                    == found_positions(positions, cells)[i]
            },
    decreases cells.len(),
{
    if cells.len() > 0 {
        lemma_found_cells_match(positions, cells.drop_last());
    }
}

/// No more positions are found than cells are asked for.
pub proof fn lemma_found_at_most(positions: Map<u64, PositionId>, cells: Seq<HexCoord>)
    ensures
        found_positions(positions, cells).len() <= cells.len(),
    decreases cells.len(),
{
    if cells.len() > 0 {
        lemma_found_at_most(positions, cells.drop_last());
    }
}

/// Where every cell asked for is on file, as many positions are found as cells are asked for.
pub proof fn lemma_found_all(positions: Map<u64, PositionId>, cells: Seq<HexCoord>)
    requires
        forall|i: int|
            0 <= i < cells.len() ==> positions.contains_key((#[trigger] cells[i]).spec_key() as u64),
    ensures
        found_positions(positions, cells).len() == cells.len(),
    decreases cells.len(),
{
    if cells.len() > 0 {
        let front = cells.drop_last();
        assert forall|i: int| 0 <= i < front.len() implies positions.contains_key(
            (#[trigger] front[i]).spec_key() as u64,
        ) by {
            assert(front[i] == cells[i]);
        }
        lemma_found_all(positions, front);
        assert(positions.contains_key(cells[cells.len() - 1].spec_key() as u64));
    }
}

/// Every position found is the one on file for one of the cells asked for.
pub proof fn lemma_found_from_cells(positions: Map<u64, PositionId>, cells: Seq<HexCoord>, i: int)
    requires
        0 <= i < found_positions(positions, cells).len(),
    ensures
        exists|j: int|
            0 <= j < cells.len() && positions.contains_key((#[trigger] cells[j]).spec_key() as u64)
                && found_positions(positions, cells)[i] == positions[cells[j].spec_key() as u64],
    decreases cells.len(),
{
    let front = cells.drop_last();
    let rest = found_positions(positions, front);
    if i < rest.len() {
        lemma_found_from_cells(positions, front, i);
        let j = choose|j: int|
            0 <= j < front.len() && positions.contains_key((#[trigger] front[j]).spec_key() as u64)
                && rest[i] == positions[front[j].spec_key() as u64];
        assert(cells[j] == front[j]);
    } else {
        let j = cells.len() - 1;
        assert(positions.contains_key(cells[j].spec_key() as u64));
    }
}

/// A patch files exactly as many cells as the disk has: `3R² + 3R + 1` for a
/// radius `R` that is not negative.
pub proof fn lemma_patch_files_disk(cells: Seq<HexCoord>, radius: int, patch: usize)
    requires
        lists_disk(cells, radius),
    ensures
        patch_positions(radius, patch).dom().finite(),
        patch_positions(radius, patch).dom().len() == disk_size(radius),
{
    let keys = Seq::new(cells.len(), |i: int| cells[i].spec_key() as u64);
    assert forall|i: int, j: int|
        0 <= i < keys.len() && 0 <= j < keys.len() && i != j implies keys[i] != keys[j] by {
        lemma_key_decodes(cells[i].q as int, cells[i].r as int);
        lemma_key_decodes(cells[j].q as int, cells[j].r as int);
    }
    keys.unique_seq_to_set();
    vstd::seq_lib::seq_to_set_is_finite(keys);
    assert forall|k: u64| keys.to_set().contains(k) == patch_positions(
        radius,
        patch,
    ).dom().contains(k) by {
        lemma_key_encodes(k);
        let q = key_q(k as int);
        let r = key_r(k as int);
        if in_disk(q, r, radius) {
            let i = disk_index(q, r, radius);
            assert(keys[i] == k);
        }
        if keys.contains(k) {
            let i = choose|i: int| 0 <= i < keys.len() && keys[i] == k;
            lemma_key_decodes(cells[i].q as int, cells[i].r as int);
        }
    }
    assert(keys.to_set() =~= patch_positions(radius, patch).dom());
}

impl HexGrid {
    /// The radius of each patch.
    pub closed spec fn radius(&self) -> int {
        self.settings.grid_radius as int
    }

    /// The position on file for each cell, by the cell's key.
    pub closed spec fn positions(&self) -> Map<u64, PositionId> {
        self.hex_positions@
    }

    /// The patches, in the order in which they were generated.
    pub closed spec fn patches(&self) -> Seq<FaceGrid> {
        self.face_grids@
    }

    /// Every patch lists the disk, and the cells on file are those of the disk, each
    /// with its position in the patch generated last.
    pub open spec fn wf(&self) -> bool {
        &&& forall|i: int|
            0 <= i < self.patches().len() ==> lists_disk(
                (#[trigger] self.patches()[i]).local_coords@,
                self.radius(),
            )
        &&& self.patches().len() == 0 ==> self.positions() == Map::<u64, PositionId>::empty()
        &&& self.patches().len() > 0 ==> self.positions() == patch_positions(
            self.radius(),
            (self.patches().len() - 1) as usize,
        )
    }

    /// A grid without patches.
    pub fn new(settings: HexGridSettings) -> (grid: HexGrid)
        ensures
            grid.wf(),
            grid.radius() == settings.grid_radius,
            grid.patches().len() == 0,
            grid.positions() == Map::<u64, PositionId>::empty(),
    {
        HexGrid { settings, hex_positions: HashMap::new(), face_grids: Vec::new() }
    }

    /// The radius of each patch.
    pub fn grid_radius(&self) -> (r: i32)
        ensures
            r == self.radius(),
    {
        self.settings.grid_radius
    }

    /// Lays a patch on `face`: lists the disk of the grid's radius as the patch's
    /// cells and files each of them with its position in this patch, in place of
    /// whatever was on file for that cell.
    pub fn generate_on_face(&mut self, face: IcosahedronFace)
        requires
            old(self).wf(),
        ensures
            final(self).wf(),
            final(self).radius() == old(self).radius(),
            final(self).patches().len() == old(self).patches().len() + 1,
            final(self).patches().drop_last() == old(self).patches(),
            final(self).patches().last().face == face,
            lists_disk(final(self).patches().last().local_coords@, old(self).radius()),
            final(self).positions() == old(self).positions().union_prefer_right(
                patch_positions(old(self).radius(), old(self).patches().len() as usize),
            ),
            final(self).positions().dom().finite(),
            final(self).positions().dom().len() == disk_size(old(self).radius()),
    {
        let radius = self.settings.grid_radius;
        let cells = hex_disk(radius);
        let patch = self.face_grids.len();
        let ghost before = self.hex_positions@;
        let mut i: usize = 0;
        while i < cells.len()
            invariant
                0 <= i <= cells@.len(),
                lists_disk(cells@, radius as int),
                self.settings == old(self).settings,
                self.face_grids == old(self).face_grids,
                forall|k: u64|
                    {
                        let q = key_q(k as int);
                        let r = key_r(k as int);
                        if in_disk(q, r, radius as int) && disk_index(q, r, radius as int) < i {
                            #[trigger] self.hex_positions@.contains_key(k)
                                && self.hex_positions@[k] == (PositionId {
                                patch,
                                slot: disk_index(q, r, radius as int) as usize,
                            })
                        } else {
                            self.hex_positions@.contains_key(k) == before.contains_key(k) && (
                            before.contains_key(k) ==> self.hex_positions@[k] == before[k])
                        }
                    },
            decreases cells@.len() - i,
        {
            let c = cells[i];
            self.hex_positions.insert(c.key(), PositionId { patch, slot: i });
            proof {
                let kc = c.spec_key() as u64;
                assert(cells@[i as int] == c);
                assert forall|k: u64|
                    {
                        let q = key_q(k as int);
                        let r = key_r(k as int);
                        if in_disk(q, r, radius as int) && disk_index(q, r, radius as int) < i + 1 {
                            #[trigger] self.hex_positions@.contains_key(k)
                                && self.hex_positions@[k] == (PositionId {
                                patch,
                                slot: disk_index(q, r, radius as int) as usize,
                            })
                        } else {
                            self.hex_positions@.contains_key(k) == before.contains_key(k) && (
                            before.contains_key(k) ==> self.hex_positions@[k] == before[k])
                        }
                    } by {
                    lemma_key_encodes(k);
                    let q = key_q(k as int);
                    let r = key_r(k as int);
                    if in_disk(q, r, radius as int) && disk_index(q, r, radius as int) == i {
                        assert(cells@[i as int].q == q && cells@[i as int].r == r);
                        assert(k == kc);
                    } else if k == kc {
                        assert(in_disk(c.q as int, c.r as int, radius as int));
                    }
                }
            }
            i = i + 1;
        }
        self.face_grids.push(FaceGrid { face, local_coords: cells });
        proof {
            let added = patch_positions(radius as int, patch);
            assert forall|k: u64|
                self.hex_positions@.contains_key(k) == before.union_prefer_right(
                    added,
                ).contains_key(k) && (self.hex_positions@.contains_key(k)
                    ==> self.hex_positions@[k] == before.union_prefer_right(added)[k]) by {
                let q = key_q(k as int);
                let r = key_r(k as int);
                if in_disk(q, r, radius as int) {
                    assert(0 <= disk_index(q, r, radius as int) < cells@.len());
                }
            }
            assert(self.hex_positions@ =~= before.union_prefer_right(added));
            assert(self.face_grids@.drop_last() =~= old(self).face_grids@);
            assert(before.union_prefer_right(added) =~= added);
            lemma_patch_files_disk(self.face_grids@.last().local_coords@, radius as int, patch);
            assert forall|j: int| 0 <= j < self.face_grids@.len() implies lists_disk(
                (#[trigger] self.face_grids@[j]).local_coords@,
                radius as int,
            ) by {
                if j < old(self).face_grids@.len() {
                    assert(self.face_grids@[j] == old(self).face_grids@[j]);
                }
            }
        }
    }

    /// The positions on file for the six neighbors of `coord`, in the neighbors'
    /// order; a neighbor without a position is left out.
    pub fn get_neighbor_positions(&self, coord: &HexCoord) -> (out: Vec<PositionId>)
        requires
            coord.has_neighbors(),
        ensures
            out@ == found_positions(self.positions(), coord.spec_neighbors()),
            out@.len() <= 6,
            self.wf() && self.patches().len() > 0 && interior(
                coord.q as int,
                coord.r as int,
                self.radius(),
            ) ==> out@.len() == 6,
    {
        let around = coord.neighbors();
        let mut out: Vec<PositionId> = Vec::new();
        let mut i: usize = 0;
        while i < around.len()
            invariant
                0 <= i <= around@.len(),
                around@ == coord.spec_neighbors(),
                out@ == found_positions(self.hex_positions@, around@.take(i as int)),
            decreases around@.len() - i,
        {
            let k = around[i].key();
            let found = self.hex_positions.get(&k);
            proof {
                assert(around@.take(i + 1).drop_last() =~= around@.take(i as int));
                assert(around@.take(i + 1).last() == around@[i as int]);
            }
            match found {
                Some(id) => {
                    out.push(*id);
                },
                None => {},
            }
            i = i + 1;
        }
        proof {
            assert(around@.take(around@.len() as int) =~= around@);
            lemma_found_at_most(self.hex_positions@, around@);
            if self.wf() && self.patches().len() > 0 && interior(
                coord.q as int,
                coord.r as int,
                self.radius(),
            ) {
                lemma_interior_has_six_neighbors(self, *coord);
            }
        }
        out
    }

    /// Those of the six neighbors of `coord` that have a position on file, in the
    /// neighbors' order.
    pub fn neighbors_of(&self, coord: &HexCoord) -> (out: Vec<HexCoord>)
        requires
            coord.has_neighbors(),
        ensures
            out@ == found_cells(self.positions(), coord.spec_neighbors()),
            out@.len() == found_positions(self.positions(), coord.spec_neighbors()).len(),
            out@.len() <= 6,
    {
        let around = coord.neighbors();
        let mut out: Vec<HexCoord> = Vec::new();
        let mut i: usize = 0;
        while i < around.len()
            invariant
                0 <= i <= around@.len(),
                around@ == coord.spec_neighbors(),
                out@ == found_cells(self.hex_positions@, around@.take(i as int)),
            decreases around@.len() - i,
        {
            let k = around[i].key();
            proof {
                assert(around@.take(i + 1).drop_last() =~= around@.take(i as int));
                assert(around@.take(i + 1).last() == around@[i as int]);
            }
            if self.hex_positions.contains_key(&k) {
                out.push(around[i]);
            }
            i = i + 1;
        }
        proof {
            assert(around@.take(around@.len() as int) =~= around@);
            lemma_found_cells_match(self.hex_positions@, around@);
            lemma_found_at_most(self.hex_positions@, around@);
        }
        out
    }

    /// The position on file for each cell, by the cell's key.
    pub fn get_all_positions(&self) -> (all: &HashMap<u64, PositionId>)
        ensures
            all@ == self.positions(),
    {
        &self.hex_positions
    }

    /// The patches, in the order in which they were generated.
    pub fn face_grids(&self) -> (all: &Vec<FaceGrid>)
        ensures
            all@ == self.patches(),
    {
        &self.face_grids
    }

    /// The position on file for `coord`, if there is one.
    pub fn position_of(&self, coord: &HexCoord) -> (id: Option<PositionId>)
        ensures
            id.is_some() <==> self.positions().contains_key(coord.spec_key() as u64),
            id.is_some() ==> id.unwrap() == self.positions()[coord.spec_key() as u64],
    {
        let k = coord.key();
        match self.hex_positions.get(&k) {
            Some(id) => Some(*id),
            None => None,
        }
    }

    /// The patch whose center is nearest to a point, where `ranks` ranks the
    /// patches by the distance of their centers from it: the first patch of least
    /// rank, or nothing where there is no patch.
    pub fn nearest_face(&self, ranks: &Vec<u32>) -> (best: Option<usize>)
        requires
            ranks@.len() == self.patches().len(),
        ensures
            best.is_none() <==> self.patches().len() == 0,
            best.is_some() ==> is_first_least(ranks@, best.unwrap() as int),
    {
        first_least(ranks)
    }

    /// Answers a pick. The picked point is given in the frame of its patch, as
    /// `round_to_hex` takes it: the cell it rounds to is returned where a position
    /// is on file for it, and nothing where the point fell outside the disk.
    pub fn find_hex_at_point(
        &self,
        rq: i32,
        rr: i32,
        rs: i32,
        q_err: u32,
        r_err: u32,
        s_err: u32,
    ) -> (hit: Option<HexCoord>)
        ensures
            hit == match rounded(rq as int, rr as int, rs as int, q_err as int, r_err as int, s_err as int) {
                Some(c) => if self.positions().contains_key(c.spec_key() as u64) {
                    Some(c)
                } else {
                    None
                },
                None => None,
            },
    {
        match round_to_hex(rq, rr, rs, q_err, r_err, s_err) {
            Some(c) => {
                let k = c.key();
                if self.hex_positions.contains_key(&k) {
                    Some(c)
                } else {
                    None
                }
            },
            None => None,
        }
    }
}

/// In a grid with a patch, the cells on file are those of the disk, each with its
/// position in the patch generated last: a later patch replaces every entry of an
/// earlier one.
pub proof fn lemma_last_patch_wins(grid: &HexGrid, q: int, r: int)
    requires
        grid.wf(),
        grid.patches().len() > 0,
        i32::MIN <= q <= i32::MAX,
        i32::MIN <= r <= i32::MAX,
    ensures
        grid.positions().contains_key(spec_key(q, r) as u64) <==> in_disk(q, r, grid.radius()),
        in_disk(q, r, grid.radius()) ==> grid.positions()[spec_key(q, r) as u64] == (PositionId {
            patch: (grid.patches().len() - 1) as usize,
            slot: disk_index(q, r, grid.radius()) as usize,
        }),
{
    lemma_key_decodes(q, r);
}

/// A cell strictly inside the disk of a grid with a patch has a position on file
/// for each of its six neighbors.
pub proof fn lemma_interior_has_six_neighbors(grid: &HexGrid, c: HexCoord)
    requires
        grid.wf(),
        grid.patches().len() > 0,
        interior(c.q as int, c.r as int, grid.radius()),
    ensures
        c.has_neighbors(),
        found_positions(grid.positions(), c.spec_neighbors()).len() == 6,
{
    let around = c.spec_neighbors();
    assert forall|i: int| 0 <= i < around.len() implies grid.positions().contains_key(
        (#[trigger] around[i]).spec_key() as u64,
    ) by {
        lemma_interior_neighbors_in_disk(c, grid.radius(), i);
        lemma_last_patch_wins(grid, around[i].q as int, around[i].r as int);
    }
    lemma_interior_neighbors_in_disk(c, grid.radius(), 0);
    lemma_found_all(grid.positions(), around);
}

/// No position found for a neighbor of a cell of the disk is the cell's own.
pub proof fn lemma_neighbor_is_not_self(grid: &HexGrid, c: HexCoord, i: int)
    requires
        grid.wf(),
        grid.patches().len() > 0,
        c.has_neighbors(),
        in_disk(c.q as int, c.r as int, grid.radius()),
        0 <= i < found_positions(grid.positions(), c.spec_neighbors()).len(),
    ensures
        grid.positions().contains_key(c.spec_key() as u64),
        found_positions(grid.positions(), c.spec_neighbors())[i] != grid.positions()[c.spec_key() as u64],
{
    let around = c.spec_neighbors();
    let cells = grid.patches().last().local_coords@;
    let radius = grid.radius();
    lemma_found_from_cells(grid.positions(), around, i);
    let j = choose|j: int|
        0 <= j < around.len() && grid.positions().contains_key(
            (#[trigger] around[j]).spec_key() as u64,
        ) && found_positions(grid.positions(), around)[i] == grid.positions()[around[j].spec_key() as u64];
    let n = around[j];
    assert(n == c.spec_neighbor(j));
    lemma_last_patch_wins(grid, n.q as int, n.r as int);
    lemma_last_patch_wins(grid, c.q as int, c.r as int);
    assert(lists_disk(cells, radius));
    let a = disk_index(n.q as int, n.r as int, radius);
    let b = disk_index(c.q as int, c.r as int, radius);
    assert(cells[a].q == n.q && cells[a].r == n.r);
    assert(cells[b].q == c.q && cells[b].r == c.r);
    assert(n.q != c.q || n.r != c.r);
    assert(a != b);
    assert(0 <= a < cells.len() && 0 <= b < cells.len());
    assert(cells.len() == grid.patches().last().local_coords.len());
    assert(a as usize != b as usize);
}

} // verus!
