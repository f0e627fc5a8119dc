//! The ways in which building a terrain can fail.

use vstd::prelude::*;

verus! {

/// Why an operation on the terrain was refused.
#[derive(Clone, Copy, Debug, PartialEq, Eq, Structural)]
pub enum TerrainError {
    /// A dimension, an octave count or a frequency that is not positive,
    /// or a grid too large to address.
    InvalidConfig,
    /// A position outside the extents of the grid.
    OutOfBounds,
    /// A cell that already holds a stone.
    CellOccupied,
}

} // verus!
