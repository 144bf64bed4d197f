//! Geometry of the sphere's triangulation.

pub mod projection;
