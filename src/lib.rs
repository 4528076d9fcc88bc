//! A fragment-compute engine and the grid ray traversal that drives it.
//!
//! - `wec`: small vectors with component-wise masks, selection and casts.
//! - `traverse`: which cells of an integer grid a ray passes through, and how
//!   many hits it counts on the way.
//! - `engine`: one job per raster coordinate, passes that paint every pixel
//!   exactly once, and a frame that paint commands are applied to.
//! - `shade`: the workload that ties them together, one traced ray per fragment,
//!   computed one after another or on rayon's pool.
//!
//! The traversal runs on exact fixed-point values: positions inside a cell are
//! measured in `CELL` steps, directions are integer vectors, and crossing
//! distances are compared as exact fractions.

pub mod wec;
pub mod traverse;
pub mod engine;
pub mod shade;
