//! A procedurally evolving river curve: a polyline of sample nodes relaxes
//! under a scalar-field gradient, is resampled at uniform arc-length spacing
//! with self-collision pruning, and is tessellated into a variable-width
//! ribbon mesh with ordered left/right bank polylines.
//!
//! All geometry is carried in fixed-point milli-units (`ONE` = one world
//! unit), so every pass is exact integer arithmetic with proved bounds.
//!
//! A host loop drives one simulation tick by running the four passes in
//! order on a [`river::River`]: `recompute` (neighbor-derived frames),
//! `step` (gradient-driven relaxation against a [`field::Heightmap`]),
//! `distribute` (uniform arc-length resampling with self-collision
//! pruning), and `tesselate` (ribbon mesh plus bank polylines, read back
//! through the views in [`views`]).

pub mod config;
pub mod field;
pub mod fixed;
pub mod mesh;
pub mod preset;
pub mod resample;
pub mod river;
pub mod tess;
pub mod vec2;
pub mod views;

use vstd::prelude::*;

verus! {

/// Fixed-point scale: the number of carrier ticks in one world unit.
pub const ONE: i64 = 1000;

/// Largest magnitude a curve coordinate may take, in milli-units.
/// Keeps squared distances of any two in-range points within `i64`.
pub const MAX_COORD: i64 = 900_000_000;

} // verus!
