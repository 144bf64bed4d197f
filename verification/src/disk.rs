//! The hex disk: every cell within a given number of steps of the origin.

use vstd::prelude::*;
use crate::hex::HexCoord;

verus! {

/// Whether `(q, r)` lies in the disk: `|q|`, `|r|` and `|s|` are all at most `radius`.
pub open spec fn in_disk(q: int, r: int, radius: int) -> bool {
    &&& -radius <= q <= radius
    &&& -radius <= r <= radius
    &&& -radius <= q + r <= radius
}

/// Whether `(q, r)` lies strictly inside the disk.
pub open spec fn interior(q: int, r: int, radius: int) -> bool {
    &&& -radius < q < radius
    &&& -radius < r < radius
    &&& -radius < q + r < radius
}

/// The number of cells in the disk.
pub open spec fn disk_size(radius: int) -> int {
    if radius < 0 {
        0
    } else {
        3 * radius * radius + 3 * radius + 1
    }
}

/// The least `r` of the disk's cells in column `q`.
pub open spec fn row_start(q: int, radius: int) -> int {
    if q < 0 {
        -radius - q
    } else {
        -radius
    }
}

/// The number of the disk's cells in column `q`.
pub open spec fn row_len(q: int, radius: int) -> int {
    if q < 0 {
        2 * radius + 1 + q
    } else {
        2 * radius + 1 - q
    }
}

/// The number of the disk's cells in the columns before `q`.
pub open spec fn rows_before(q: int, radius: int) -> int
    decreases q + radius,
{
    if q <= -radius {
        0
    } else {
        rows_before(q - 1, radius) + row_len(q - 1, radius)
    }
}

/// The place of `(q, r)` when the disk is listed column by column, each by rising `r`.
pub open spec fn disk_index(q: int, r: int, radius: int) -> int {
    rows_before(q, radius) + r - row_start(q, radius)
}

/// Of column `q`, the number of the disk's cells with an `r` below the given one.
pub open spec fn kept_before(q: int, r: int, radius: int) -> int {
    let d = r - row_start(q, radius);
    if d < 0 {
        0
    } else if d > row_len(q, radius) {
        row_len(q, radius)
    } else {
        d
    }
}

/// The columns up to the middle one hold `(q + R)(q + 3R + 1) / 2` cells.
pub proof fn lemma_rows_before_left(q: int, radius: int)
    requires
        -radius <= q <= 0,
    ensures
        2 * rows_before(q, radius) == (q + radius) * (q + 3 * radius + 1),
    decreases q + radius,
{
    if q > -radius {
        lemma_rows_before_left(q - 1, radius);
        assert((q + radius) * (q + 3 * radius + 1) == (q - 1 + radius) * (q - 1 + 3 * radius + 1)
            + 2 * (2 * radius + 1 + (q - 1))) by (nonlinear_arith);
    } else {
        assert((q + radius) * (q + 3 * radius + 1) == 0) by (nonlinear_arith)
            requires
                q + radius == 0,
        ;
    }
}

/// From the middle column on, the columns before `q` hold `(R(3R + 1) + q(4R + 3 - q)) / 2` cells.
pub proof fn lemma_rows_before_right(q: int, radius: int)
    requires
        0 <= radius,
        0 <= q <= radius + 1,
    ensures
        2 * rows_before(q, radius) == radius * (3 * radius + 1) + q * (4 * radius + 3 - q),
    decreases q,
{
    if q > 0 {
        lemma_rows_before_right(q - 1, radius);
        assert(q * (4 * radius + 3 - q) == (q - 1) * (4 * radius + 3 - (q - 1)) + 2 * (2 * radius
            + 1 - (q - 1))) by (nonlinear_arith);
    } else {
        lemma_rows_before_left(0, radius);
        assert((0 + radius) * (0 + 3 * radius + 1) == radius * (3 * radius + 1) + 0 * (4 * radius
            + 3 - 0)) by (nonlinear_arith);
    }
}

/// A disk of radius `R` has `3R² + 3R + 1` cells.
pub proof fn lemma_disk_size(radius: int)
    requires
        0 <= radius,
    ensures
        rows_before(radius + 1, radius) == disk_size(radius),
{
    lemma_rows_before_right(radius + 1, radius);
    assert(radius * (3 * radius + 1) + (radius + 1) * (4 * radius + 3 - (radius + 1)) == 2 * (3
        * radius * radius + 3 * radius + 1)) by (nonlinear_arith);
}

/// All six neighbors of a cell strictly inside the disk lie in the disk.
pub proof fn lemma_interior_neighbors_in_disk(c: HexCoord, radius: int, i: int)
    requires
        interior(c.q as int, c.r as int, radius),
        radius <= i32::MAX,
        0 <= i < 6,
    ensures
        c.has_neighbors(),
        c.spec_neighbor(i).wf(),
        in_disk(c.spec_neighbor(i).q as int, c.spec_neighbor(i).r as int, radius),
{
}

/// Whether `cells` lists the disk of the given radius column by column, each by rising `r`.
pub open spec fn lists_disk(cells: Seq<HexCoord>, radius: int) -> bool {
    &&& cells.len() == disk_size(radius)
    &&& forall|i: int|
        0 <= i < cells.len() ==> {
            let c = #[trigger] cells[i];
            c.wf() && in_disk(c.q as int, c.r as int, radius) && disk_index(
                c.q as int,
                c.r as int,
                radius,
            ) == i
        }
    &&& forall|q: int, r: int| #[trigger]
        in_disk(q, r, radius) ==> {
            let i = disk_index(q, r, radius);
            0 <= i < cells.len() && cells[i].q == q && cells[i].r == r
        }
}

/// The cells of the disk of the given radius, by rising `q` and within one `q` by
/// rising `r`. A negative radius gives no cell.
pub fn hex_disk(radius: i32) -> (cells: Vec<HexCoord>)
    ensures
        lists_disk(cells@, radius as int),
{
    let mut cells: Vec<HexCoord> = Vec::new();
    if radius < 0 {
        return cells;
    }
    let bound: i64 = radius as i64;
    let mut q: i64 = -bound;
    while q <= bound
        invariant
            bound == radius,
            0 <= radius,
            -bound <= q <= bound + 1,
            cells@.len() == rows_before(q as int, radius as int),
            forall|i: int|
                0 <= i < cells@.len() ==> {
                    let c = #[trigger] cells@[i];
                    c.wf() && in_disk(c.q as int, c.r as int, radius as int) && disk_index(
                        c.q as int,
                        c.r as int,
                        radius as int,
                    ) == i
                },
            forall|a: int, b: int| #[trigger]
                in_disk(a, b, radius as int) && a < q ==> {
                    let i = disk_index(a, b, radius as int);
                    0 <= i < cells@.len() && cells@[i].q == a && cells@[i].r == b
                },
        decreases bound + 1 - q,
    {
        let mut r: i64 = -bound;
        while r <= bound
            invariant
                bound == radius,
                0 <= radius,
                -bound <= q <= bound,
                -bound <= r <= bound + 1,
                cells@.len() == rows_before(q as int, radius as int) + kept_before(
                    q as int,
                    r as int,
                    radius as int,
                ),
                forall|i: int|
                    0 <= i < cells@.len() ==> {
                        let c = #[trigger] cells@[i];
                        c.wf() && in_disk(c.q as int, c.r as int, radius as int) && disk_index(
                            c.q as int,
                            c.r as int,
                            radius as int,
                        ) == i
                    },
                forall|a: int, b: int| #[trigger]
                    in_disk(a, b, radius as int) && (a < q || (a == q && b < r)) ==> {
                        let i = disk_index(a, b, radius as int);
                        0 <= i < cells@.len() && cells@[i].q == a && cells@[i].r == b
                    },
            decreases bound + 1 - r,
        {
            let s: i64 = 0i64 - q - r;
            if -bound <= s && s <= bound {
                cells.push(HexCoord::new(q as i32, r as i32));
            }
            r = r + 1;
        }
        q = q + 1;
    }
    proof {
        lemma_disk_size(radius as int);
    }
    cells
}

} // verus!
