//! A voxel-grid ray-traversal engine: a dense fixed-size cubic grid of block
//! identifiers together with the DDA (Digital Differential Analyzer)
//! algorithm that casts a ray through the grid and reports the first solid
//! cell it meets, plus the small value types (hit records, faces) and
//! utilities that surround it.
//!
//! All geometry is carried in signed 16.16 fixed-point scalars (see the `fx`
//! module), so every operation is exact integer arithmetic.

pub mod chunk;
pub mod fx;
pub mod ray;
pub mod raycast;
pub mod morton;
pub mod count_trigger;
pub mod trie;
