//! Hexagonal tiling of a sphere: the lattice, the patches and the wiring.

pub mod hex;
pub mod axial;
pub mod disk;
pub mod search;
pub mod math;
pub mod hex_grid;
pub mod sphere_grid;
