use spherical_hex::disk::hex_disk;
use spherical_hex::hex::{HexCoord, HexTile};
use spherical_hex::axial::round_to_hex;
use spherical_hex::hex_grid::{HexGrid, HexGridSettings, PositionId};
use spherical_hex::math::projection::IcosahedronFace;

const SQRT_3: f32 = 1.7320508075688772;

fn hex_to_pixel(hex: HexCoord, size: f32) -> (f32, f32) {
    (
        size * (3.0 / 2.0 * hex.q as f32),
        size * (SQRT_3 / 2.0 * hex.q as f32 + SQRT_3 * hex.r as f32),
    )
}

fn pixel_to_hex(point: (f32, f32), size: f32) -> Option<HexCoord> {
    let q = (2.0 / 3.0 * point.0) / size;
    let r = (-1.0 / 3.0 * point.0 + SQRT_3 / 3.0 * point.1) / size;
    let s = -q - r;
    let (rq, rr, rs) = (q.round(), r.round(), s.round());
    round_to_hex(
        rq as i32,
        rr as i32,
        rs as i32,
        (rq - q).abs().to_bits(),
        (rr - r).abs().to_bits(),
        (rs - s).abs().to_bits(),
    )
}

fn one_patch(radius: i32) -> HexGrid {
    let mut grid = HexGrid::new(HexGridSettings { grid_radius: radius });
    grid.generate_on_face(IcosahedronFace::new(0, 1, 2));
    grid
}

#[test]
fn test_hex_to_pixel_to_hex() {
    let coord = HexCoord::new(2, -1);
    let size = 1.0;
    let pixel = hex_to_pixel(coord, size);
    let result = pixel_to_hex(pixel, size).unwrap();
    assert_eq!(coord.q, result.q);
    assert_eq!(coord.r, result.r);
}

#[test]
fn test_neighbor_positions() {
    let settings = HexGridSettings { grid_radius: 2 };
    let mut grid = HexGrid::new(settings);
    let face = IcosahedronFace::new(0, 1, 2);
    grid.generate_on_face(face);

    let center = HexCoord::new(0, 0);
    let neighbors = grid.get_neighbor_positions(&center);
    assert_eq!(neighbors.len(), 6);
}

#[test]
fn round_trip_over_a_range_of_cells_and_sizes() {
    for size in [0.1f32, 0.5, 1.0, 3.0] {
        for q in -20..=20 {
            for r in -20..=20 {
                let c = HexCoord::new(q, r);
                let back = pixel_to_hex(hex_to_pixel(c, size), size).unwrap();
                assert_eq!(back, c);
            }
        }
    }
}

#[test]
fn new_derives_s() {
    let c = HexCoord::new(2, -1);
    assert_eq!((c.q, c.r, c.s), (2, -1, -1));
    let c = HexCoord::new(-7, 3);
    assert_eq!(c.s, 4);
    let c = HexCoord::new(i32::MAX, -1);
    assert_eq!(c.s, i32::MIN + 2);
}

#[test]
fn neighbors_come_in_the_fixed_order() {
    let around = HexCoord::new(3, -5).neighbors();
    let expected = [(4, -5), (4, -6), (3, -6), (2, -5), (2, -4), (3, -4)];
    assert_eq!(around.len(), 6);
    for (n, (q, r)) in around.iter().zip(expected) {
        assert_eq!((n.q, n.r, n.s), (q, r, -q - r));
    }
}

#[test]
fn keys_tell_cells_apart_and_decode() {
    assert_eq!(HexCoord::new(0, 0).key(), 0x8000_0000_8000_0000);
    assert_eq!(HexCoord::new(1, -1).key(), 0x8000_0001_7fff_ffff);
    assert_eq!(HexCoord::new(i32::MIN, i32::MAX).key(), 0x0000_0000_ffff_ffff);
    for q in -3..=3 {
        for r in -3..=3 {
            let c = HexCoord::new(q, r);
            assert_eq!(HexCoord::from_key(c.key()), Some(c));
            assert_ne!(c.key(), HexCoord::new(r, q + 100).key());
        }
    }
    assert_eq!(HexCoord::from_key(0), None);
    assert_eq!(HexCoord::from_key(u64::MAX), None);
}

#[test]
fn disk_has_the_hex_number_of_cells() {
    assert_eq!(hex_disk(-1).len(), 0);
    assert_eq!(hex_disk(i32::MIN).len(), 0);
    let expected = [1usize, 7, 19, 37, 61, 91, 127];
    for (radius, n) in expected.iter().enumerate() {
        assert_eq!(hex_disk(radius as i32).len(), *n);
    }
    assert_eq!(hex_disk(12).len(), 469);
}

#[test]
fn disk_is_listed_by_column_then_row() {
    let cells: Vec<(i32, i32, i32)> = hex_disk(1).iter().map(|c| (c.q, c.r, c.s)).collect();
    assert_eq!(
        cells,
        vec![(-1, 0, 1), (-1, 1, 0), (0, -1, 1), (0, 0, 0), (0, 1, -1), (1, -1, 0), (1, 0, -1)]
    );
    assert_eq!(hex_disk(0), vec![HexCoord::new(0, 0)]);
    for c in hex_disk(5) {
        assert!(c.q.abs() <= 5 && c.r.abs() <= 5 && c.s.abs() <= 5);
        assert_eq!(c.q + c.r + c.s, 0);
    }
}

#[test]
fn a_patch_files_each_cell_of_the_disk_once() {
    for radius in 0..6 {
        let grid = one_patch(radius);
        let expected = (3 * radius * radius + 3 * radius + 1) as usize;
        assert_eq!(grid.get_all_positions().len(), expected);
        let patch = &grid.face_grids()[0];
        assert_eq!(patch.local_coords.len(), expected);
        assert_eq!(patch.face.vertices, [0, 1, 2]);
        for (slot, c) in patch.local_coords.iter().enumerate() {
            assert_eq!(grid.position_of(c), Some(PositionId { patch: 0, slot }));
        }
    }
    let empty = one_patch(-3);
    assert_eq!(empty.get_all_positions().len(), 0);
    assert_eq!(empty.face_grids().len(), 1);
}

#[test]
fn a_later_patch_replaces_the_earlier_entries() {
    let mut grid = one_patch(2);
    assert_eq!(grid.position_of(&HexCoord::new(1, 1)), Some(PositionId { patch: 0, slot: 15 }));
    grid.generate_on_face(IcosahedronFace::new(5, 6, 7));
    assert_eq!(grid.face_grids().len(), 2);
    assert_eq!(grid.get_all_positions().len(), 19);
    for (k, id) in grid.get_all_positions() {
        let c = HexCoord::from_key(*k).unwrap();
        assert_eq!(id.patch, 1);
        assert_eq!(grid.face_grids()[1].local_coords[id.slot], c);
    }
    assert_eq!(grid.grid_radius(), 2);
}

#[test]
fn interior_cells_have_six_neighbors_and_edge_cells_fewer() {
    let radius = 4;
    let grid = one_patch(radius);
    for c in hex_disk(radius) {
        let found = grid.get_neighbor_positions(&c).len();
        if c.q.abs() < radius && c.r.abs() < radius && c.s.abs() < radius {
            assert_eq!(found, 6);
        } else {
            assert!(found < 6);
        }
    }
    assert_eq!(grid.get_neighbor_positions(&HexCoord::new(4, 0)).len(), 3);
    assert_eq!(grid.get_neighbor_positions(&HexCoord::new(4, -2)).len(), 4);
    assert_eq!(grid.get_neighbor_positions(&HexCoord::new(5, 0)).len(), 1);
    assert_eq!(grid.get_neighbor_positions(&HexCoord::new(9, 9)).len(), 0);
    let none = HexGrid::new(HexGridSettings { grid_radius: 4 });
    assert_eq!(none.get_neighbor_positions(&HexCoord::new(0, 0)).len(), 0);
}

#[test]
fn neighbor_positions_follow_the_neighbor_order() {
    let grid = one_patch(1);
    let found = grid.get_neighbor_positions(&HexCoord::new(0, 0));
    let slots: Vec<usize> = found.iter().map(|id| id.slot).collect();
    assert_eq!(slots, vec![6, 5, 2, 0, 1, 4]);
    let found = grid.get_neighbor_positions(&HexCoord::new(1, 0));
    let slots: Vec<usize> = found.iter().map(|id| id.slot).collect();
    assert_eq!(slots, vec![5, 3, 4]);
}

#[test]
fn a_pick_keeps_only_cells_on_file() {
    let grid = one_patch(2);
    assert_eq!(grid.find_hex_at_point(1, -2, 1, 0, 0, 0), Some(HexCoord::new(1, -2)));
    assert_eq!(grid.find_hex_at_point(1, -2, 2, 1, 2, 9), Some(HexCoord::new(1, -2)));
    assert_eq!(grid.find_hex_at_point(1, -2, 2, 9, 2, 1), Some(HexCoord::new(0, -2)));
    assert_eq!(grid.find_hex_at_point(2, 2, -4, 0, 0, 0), None);
    assert_eq!(grid.find_hex_at_point(3, 0, -3, 0, 0, 0), None);
    assert_eq!(grid.find_hex_at_point(0, i32::MIN, i32::MIN, 9, 1, 1), None);
    let none = HexGrid::new(HexGridSettings { grid_radius: 2 });
    assert_eq!(none.find_hex_at_point(0, 0, 0, 0, 0, 0), None);
    assert_eq!(none.position_of(&HexCoord::new(0, 0)), None);
}

#[test]
fn the_nearest_face_is_the_first_of_least_rank() {
    let mut grid = one_patch(1);
    assert_eq!(grid.nearest_face(&vec![8]), Some(0));
    grid.generate_on_face(IcosahedronFace::new(0, 2, 3));
    grid.generate_on_face(IcosahedronFace::new(0, 3, 4));
    assert_eq!(grid.nearest_face(&vec![8, 2, 2]), Some(1));
    assert_eq!(grid.nearest_face(&vec![8, 9, 2]), Some(2));
    let none = HexGrid::new(HexGridSettings { grid_radius: 1 });
    assert_eq!(none.nearest_face(&vec![]), None);
}

#[test]
fn rounding_gives_up_the_component_with_the_largest_error() {
    assert_eq!(round_to_hex(1, 1, 1, 9, 5, 5), Some(HexCoord::new(-2, 1)));
    assert_eq!(round_to_hex(1, 1, 1, 5, 9, 5), Some(HexCoord::new(1, -2)));
    assert_eq!(round_to_hex(1, 1, 1, 5, 5, 9), Some(HexCoord::new(1, 1)));
    assert_eq!(round_to_hex(2, -1, -1, 0, 0, 0), Some(HexCoord::new(2, -1)));
}

#[test]
fn rounding_breaks_ties_in_the_stated_order() {
    // q and r tie for the largest error: q, the first of them, gives way
    assert_eq!(round_to_hex(1, 1, 1, 7, 7, 3), Some(HexCoord::new(-2, 1)));
    // q and s tie: q gives way
    assert_eq!(round_to_hex(1, 1, 1, 7, 3, 7), Some(HexCoord::new(-2, 1)));
    // r and s tie: r gives way
    assert_eq!(round_to_hex(1, 1, 1, 3, 7, 7), Some(HexCoord::new(1, -2)));
    // all three tie: q gives way
    assert_eq!(round_to_hex(4, 0, 0, 7, 7, 7), Some(HexCoord::new(0, 0)));
}

#[test]
fn rounding_refuses_a_cell_beyond_i32() {
    assert_eq!(round_to_hex(0, i32::MIN, i32::MIN, 9, 1, 1), None);
    assert_eq!(round_to_hex(i32::MAX, 0, i32::MAX, 1, 9, 1), None);
    assert_eq!(round_to_hex(i32::MAX, i32::MAX, 0, 1, 1, 9), None);
    assert_eq!(
        round_to_hex(i32::MAX, i32::MIN + 1, 0, 1, 1, 9),
        Some(HexCoord::new(i32::MAX, i32::MIN + 1))
    );
}

#[test]
fn a_tile_keeps_what_it_is_given() {
    let mut tile = HexTile::new(HexCoord::new(0, 0), PositionId { patch: 3, slot: 4 });
    assert_eq!(tile.get_coordinate(), (0, 0, 0));
    assert_eq!(tile.get_neighbors(), Vec::<usize>::new());
    tile.set_coordinate(5, -2);
    assert_eq!(tile.get_coordinate(), (5, -2, -3));
    assert_eq!(tile.coord(), HexCoord::new(5, -2));
    tile.connect_neighbors(vec![4, 1, 9]);
    assert_eq!(tile.get_neighbors(), vec![4, 1, 9]);
    assert_eq!(tile.world_pos(), PositionId { patch: 3, slot: 4 });
}

#[test]
fn neighbors_on_file_are_named_in_order() {
    let grid = one_patch(1);
    let all: Vec<(i32, i32)> =
        grid.neighbors_of(&HexCoord::new(0, 0)).iter().map(|c| (c.q, c.r)).collect();
    assert_eq!(all, vec![(1, 0), (1, -1), (0, -1), (-1, 0), (-1, 1), (0, 1)]);
    let some: Vec<(i32, i32)> =
        grid.neighbors_of(&HexCoord::new(1, 0)).iter().map(|c| (c.q, c.r)).collect();
    assert_eq!(some, vec![(1, -1), (0, 0), (0, 1)]);
    assert_eq!(grid.neighbors_of(&HexCoord::new(7, 7)), Vec::<HexCoord>::new());
    for c in hex_disk(1) {
        let cells = grid.neighbors_of(&c);
        let ids = grid.get_neighbor_positions(&c);
        assert_eq!(cells.len(), ids.len());
        for (cell, id) in cells.iter().zip(ids) {
            assert_eq!(grid.position_of(cell), Some(id));
        }
    }
}
