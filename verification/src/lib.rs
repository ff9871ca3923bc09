//! A verified reader for KiCad printed-circuit-board files.
//!
//! The crate turns the textual s-expression form of a `.kicad_pcb` file into
//! a typed board model and derives axis-aligned bounding boxes from it.
//! Coordinates are held exactly, as signed counts of millionths of a
//! millimeter, so every geometric statement in the contracts is exact
//! integer arithmetic.

pub mod scalar;
pub mod parser;
pub mod sexpr;
pub mod common;
pub mod pcb_file;

use vstd::prelude::*;

verus! {

/// The number of coordinate units in one millimeter.
pub const UNITS_PER_MM: i64 = 1_000_000;

} // verus!
