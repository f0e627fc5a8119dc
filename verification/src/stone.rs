//! What the renderer is handed for one stone.

use vstd::prelude::*;
use crate::constants::{TILE_HEIGHT, TILE_WIDTH, Z_HEIGHT};
use crate::geometry::{depth_key, depth_of, map_to_world, screen_x, screen_y, Layer, Position, ScreenOffset};

verus! {

/// Where an item is drawn: its offset on the screen, in half pixels, and its
/// draw-order key, in hundredths.
#[derive(Clone, Copy, Debug, PartialEq, Eq, Structural)]
pub struct ProjectedPoint {
    pub screen: ScreenOffset,
    pub depth: i64,
}

/// A stone as the renderer sees it.
#[derive(Clone, Copy, Debug, PartialEq, Eq, Structural)]
pub struct StoneBundle {
    pub position: Position,
    pub layer: Layer,
    pub projected: ProjectedPoint,
    /// Side of the square sprite, in pixels.
    pub size: u16,
}

/// Describes the stone at `position`: on layer zero, drawn at the projection
/// of its cell with the depth key of its cell, one tile wide.
pub fn create_stone(position: Position) -> (stone: StoneBundle)
    ensures
        stone.position == position,
        stone.layer == Layer(0),
        stone.size == TILE_WIDTH,
        stone.projected.screen.x == screen_x(
            TILE_WIDTH as int,
            position.x as int,
            position.y as int,
        ),
        stone.projected.screen.y == screen_y(
            TILE_HEIGHT as int,
            Z_HEIGHT as int,
            position.x as int,
            position.y as int,
            position.z as int,
        ),
        stone.projected.depth == depth_of(
            position.x as int,
            position.y as int,
            position.z as int,
            0,
        ),
{
    let layer = Layer(0);
    StoneBundle {
        position,
        layer,
        projected: ProjectedPoint {
            screen: map_to_world(position),
            depth: depth_key(position, layer),
        },
        size: TILE_WIDTH,
    }
}

} // verus!
