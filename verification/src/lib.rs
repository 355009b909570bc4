//! An exact-arithmetic engine that rasterizes vector outlines (line segments,
//! circles, ellipses) into a grid of character cells for terminal display.
//!
//! Shapes live in a fixed logical canvas of 100 x 100 units, measured here in
//! integer *subunits* (30 subunits per logical unit, so the canvas spans
//! `0..=CANVAS` subunits on each axis).  Every character cell of the output
//! grid owns a bounding rectangle and four quadrant sub-rectangles; drawing a
//! shape marks, for each cell, which quadrants the shape's outline touches,
//! and at the end of a frame each cell's 4-bit touched pattern selects a glyph
//! from a 16-entry tileset.
//!
//! All geometric predicates are decided exactly over the integers (no
//! floating point, no rounding inside a predicate), so every drawing decision
//! is proved against the mathematical definition of the intersection tests.

use vstd::prelude::*;

mod quadratic;
pub mod shapes;
pub mod cell;
pub mod grid;
pub mod tilesets;
pub mod demos;
pub mod laws;

pub use crate::shapes::{Point, Rotation, Line, Circle, Ellipse, Rectangle};
pub use crate::cell::Cell;
pub use crate::grid::{GridConfig, Transform, Grid};

verus! {

/// Size of the logical canvas on each axis, in subunits (100 logical units of
/// 30 subunits each).
pub const CANVAS: i64 = 3000;

/// Every coordinate handled by the geometric predicates must lie in
/// `-COORD_LIMIT ..= COORD_LIMIT`.  This keeps every intermediate product of
/// the exact intersection arithmetic inside `i128`: the worst ellipse
/// product is bounded by `(32 * COORD_LIMIT^4 * ROT_DEN_LIMIT^2)^2`, so the
/// coordinate and rotation limits trade off against each other and cannot
/// both grow.
pub const COORD_LIMIT: i64 = 4096;

/// Largest denominator of a rational rotation (see [`shapes::Rotation`]).
pub const ROT_DEN_LIMIT: i64 = 32;

} // verus!
