//! Cube-coordinate arithmetic on a pointy-top hexagonal tiling: positions and
//! displacements, rays, rings and spirals, and a sparse map over a bounded grid.
pub mod grid;
pub mod position;
pub mod ray;
pub mod ring;
pub mod spiral;

pub use grid::{Grid, GridIterator, HexGrid, HexMap, MapIterator};
pub use position::{Axis, Cube, HexPosition, InvalidCoordinate, Vector};
pub use ray::RayIterator;
pub use ring::RingIterator;
pub use spiral::SpiralIterator;
