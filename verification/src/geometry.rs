//! Grid positions and their isometric projection onto the screen.
//!
//! Screen offsets are carried in half pixels and depth keys in hundredths, so
//! that every value is an exact integer.

use vstd::prelude::*;
use crate::constants::{TILE_HEIGHT, TILE_WIDTH, Z_HEIGHT};

verus! {

/// A cell of the grid, by its integer coordinates.
#[derive(Clone, Copy, Debug, PartialEq, Eq, Structural)]
pub struct Position {
    pub x: i32,
    pub y: i32,
    pub z: i32,
}

/// A pair of integers in the plane of a level: a step between cells, or a
/// corner of a cell.
#[derive(Clone, Copy, Debug, PartialEq, Eq, Structural)]
pub struct IVec2 {
    pub x: i32,
    pub y: i32,
}

/// The drawing layer of an item within its cell.
#[derive(Clone, Copy, Debug, PartialEq, Eq, Structural)]
pub struct Layer(pub i8);

/// An offset on the screen, in half pixels.
#[derive(Clone, Copy, Debug, PartialEq, Eq, Structural)]
pub struct ScreenOffset {
    pub x: i64,
    pub y: i64,
}

/// The pixel dimensions that fix an isometric projection.
#[derive(Clone, Copy, Debug, PartialEq, Eq, Structural)]
pub struct Projection {
    pub tile_width: u16,
    pub tile_height: u16,
    pub z_height: u16,
}

/// Number of depth units in one step along x or y.
pub const DEPTH_PER_CELL: i64 = 100;

/// Number of depth units in one vertical level.
pub const DEPTH_PER_LEVEL: i64 = 10;

/// Horizontal screen offset of the cell `(x, y)`, in half pixels:
/// `(x - y) * tile_width / 2` pixels.
pub open spec fn screen_x(tile_width: int, x: int, y: int) -> int {
    (x - y) * tile_width
}

/// Vertical screen offset of the cell `(x, y, z)`, in half pixels:
/// `(x + y) * tile_height / 2 + z * z_height / 2` pixels.
pub open spec fn screen_y(tile_height: int, z_height: int, x: int, y: int, z: int) -> int {
    (x + y) * tile_height + z * z_height
}

/// Draw-order key of the cell `(x, y, z)` on `layer`, in hundredths:
/// `-(x + y) + z / 10 + layer / 100`.
pub open spec fn depth_of(x: int, y: int, z: int, layer: int) -> int {
    -(x + y) * 100 + z * 10 + layer
}

impl Projection {
    /// The projection of the default scene.
    pub fn standard() -> (p: Projection)
        ensures
            p == (Projection { tile_width: TILE_WIDTH, tile_height: TILE_HEIGHT, z_height: Z_HEIGHT }),
    {
        Projection { tile_width: TILE_WIDTH, tile_height: TILE_HEIGHT, z_height: Z_HEIGHT }
    }

    /// Projects a grid position to its screen offset under this projection.
    pub fn project(&self, point: Position) -> (out: ScreenOffset)
        ensures
            out.x == screen_x(self.tile_width as int, point.x as int, point.y as int),
            out.y == screen_y(
                self.tile_height as int,
                self.z_height as int,
                point.x as int,
                point.y as int,
                point.z as int,
            ),
    {
        let across: i64 = point.x as i64 - point.y as i64;
        let down: i64 = point.x as i64 + point.y as i64;
        let up: i64 = point.z as i64;
        let tw: i64 = self.tile_width as i64;
        let th: i64 = self.tile_height as i64;
        let zh: i64 = self.z_height as i64;
        proof {
            lemma_product_bound(across as int, tw as int);
            lemma_product_bound(down as int, th as int);
            lemma_product_bound(up as int, zh as int);
        }
        ScreenOffset { x: across * tw, y: down * th + up * zh }
    }
}

/// A coordinate difference times a pixel dimension stays far inside `i64`.
proof fn lemma_product_bound(a: int, b: int)
    by (nonlinear_arith)
    requires
        -0x1_0000_0000 <= a <= 0x1_0000_0000,
        0 <= b <= 0xffff,
    ensures
        -0x1_0000_0000_0000 <= a * b <= 0x1_0000_0000_0000,
{
}

/// Projects a grid position to its screen offset in the default scene.
pub fn map_to_world(point: Position) -> (out: ScreenOffset)
    ensures
        out.x == screen_x(TILE_WIDTH as int, point.x as int, point.y as int),
        out.y == screen_y(
            TILE_HEIGHT as int,
            Z_HEIGHT as int,
            point.x as int,
            point.y as int,
            point.z as int,
        ),
{
    Projection::standard().project(point)
}

/// The key by which items are drawn back to front: a larger key is nearer.
pub fn depth_key(point: Position, layer: Layer) -> (key: i64)
    ensures
        key == depth_of(point.x as int, point.y as int, point.z as int, layer.0 as int),
{
    let along: i64 = point.x as i64 + point.y as i64;
    -along * DEPTH_PER_CELL + (point.z as i64) * DEPTH_PER_LEVEL + (layer.0 as i64)
}

/// `(a * s + b * t) * k == a * (s * k) + b * (t * k)`.
proof fn lemma_weighted_product(a: int, s: int, b: int, t: int, k: int)
    by (nonlinear_arith)
    ensures
        (a * s + b * t) * k == a * (s * k) + b * (t * k),
{
}

/// A common factor can be taken out of a sum and out of a difference.
proof fn lemma_common_factor(a: int, s: int, t: int)
    by (nonlinear_arith)
    ensures
        a * s + a * t == a * (s + t),
        a * s - a * t == a * (s - t),
{
}

/// The projection is linear in the grid coordinates: the offset of a weighted
/// sum of two cells is the weighted sum of their offsets. Being linear, it is
/// affine in `(x, y, z)`.
pub proof fn lemma_projection_is_linear(
    projection: Projection,
    a: int,
    p: (int, int, int),
    b: int,
    q: (int, int, int),
)
    ensures
        screen_x(projection.tile_width as int, a * p.0 + b * q.0, a * p.1 + b * q.1)
            == a * screen_x(projection.tile_width as int, p.0, p.1)
            + b * screen_x(projection.tile_width as int, q.0, q.1),
        screen_y(
            projection.tile_height as int,
            projection.z_height as int,
            a * p.0 + b * q.0,
            a * p.1 + b * q.1,
            a * p.2 + b * q.2,
        ) == a * screen_y(projection.tile_height as int, projection.z_height as int, p.0, p.1, p.2)
            + b * screen_y(projection.tile_height as int, projection.z_height as int, q.0, q.1, q.2),
{
    let tw = projection.tile_width as int;
    let th = projection.tile_height as int;
    let zh = projection.z_height as int;
    lemma_common_factor(a, p.0, p.1);
    lemma_common_factor(b, q.0, q.1);
    lemma_weighted_product(a, p.0 - p.1, b, q.0 - q.1, tw);
    lemma_weighted_product(a, p.0 + p.1, b, q.0 + q.1, th);
    lemma_weighted_product(a, p.2, b, q.2, zh);
    lemma_common_factor(a, (p.0 + p.1) * th, p.2 * zh);
    lemma_common_factor(b, (q.0 + q.1) * th, q.2 * zh);
}

/// Moving a cell by a fixed step moves its screen offset by a fixed amount,
/// wherever the cell is.
pub proof fn lemma_projection_is_affine(
    projection: Projection,
    p: (int, int, int),
    q: (int, int, int),
    step: (int, int, int),
)
    ensures
        screen_x(projection.tile_width as int, p.0 + step.0, p.1 + step.1) - screen_x(
            projection.tile_width as int,
            p.0,
            p.1,
        ) == screen_x(projection.tile_width as int, q.0 + step.0, q.1 + step.1) - screen_x(
            projection.tile_width as int,
            q.0,
            q.1,
        ),
        screen_y(
            projection.tile_height as int,
            projection.z_height as int,
            p.0 + step.0,
            p.1 + step.1,
            p.2 + step.2,
        ) - screen_y(projection.tile_height as int, projection.z_height as int, p.0, p.1, p.2)
            == screen_y(
            projection.tile_height as int,
            projection.z_height as int,
            q.0 + step.0,
            q.1 + step.1,
            q.2 + step.2,
        ) - screen_y(projection.tile_height as int, projection.z_height as int, q.0, q.1, q.2),
{
    let one = 1int;
    lemma_projection_is_linear(projection, one, p, one, step);
    lemma_projection_is_linear(projection, one, q, one, step);
}

/// Doubling the tile width doubles the horizontal offset of every cell.
pub proof fn lemma_double_tile_width(tile_width: int, x: int, y: int)
    ensures
        screen_x(2 * tile_width, x, y) == 2 * screen_x(tile_width, x, y),
{
    assert((x - y) * (2 * tile_width) == 2 * ((x - y) * tile_width)) by (nonlinear_arith);
}

} // verus!
