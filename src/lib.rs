//! The verified core of a small rigid-body scene.
//!
//! - `matrix`: index permutations of row-major 4×4 matrices.
//! - `mesh`: unrolling of indexed mesh attributes into flat vertex streams.
//! - `collision`: the all-pairs collision pass and its velocity-reversal response.
//! - `input`: the set of held keys and the camera motions they ask for.
pub mod collision;
pub mod input;
pub mod matrix;
pub mod mesh;
