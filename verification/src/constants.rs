//! The dimensions of the default scene.

use vstd::prelude::*;

verus! {

/// Cells along the x axis.
pub const MAP_WIDTH: i32 = 300;

/// Cells along the y axis.
pub const MAP_HEIGHT: i32 = 300;

/// Vertical levels.
pub const Z_LEVELS: i32 = 20;

/// The level whose outline is drawn: the third below the top.
pub const OUTLINE_LEVEL: i32 = 17;

/// Width of a tile on the screen, in pixels.
pub const TILE_WIDTH: u16 = 64;

/// Height of a tile on the screen, in pixels.
pub const TILE_HEIGHT: u16 = 32;

/// Height of one vertical level on the screen, in pixels.
pub const Z_HEIGHT: u16 = 25;

} // verus!
