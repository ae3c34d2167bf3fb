//! Terrain mesh and level-of-detail engine for a staggered triangle grid.
//!
//! - `heightmap`: the grid of height samples, its lattice coordinates,
//!   adjacency, and the triangle under a point.
//! - `mesh`: triangulation of a window of the grid at a decimation stride.
//! - `lod`: tiles, distance-based stride selection and the dead band.
//! - `terrain`: the interface shared by the flat and the tiled heightmap.
//! - `physics`: the jump rule of the character integrator.
//! - `linear_algebra`, `matrix`: small integer vectors and matrices.

pub mod linear_algebra;
pub mod matrix;
pub mod heightmap;
pub mod mesh;
pub mod lod;
pub mod physics;
pub mod terrain;
