//! The outline of one level: the unit edges that part a stone from an empty
//! cell or from the outside of the grid.

use vstd::prelude::*;
use crate::geometry::{IVec2, Position};
use crate::seq_facts::lemma_concat_contains;
use crate::stone_map::{cell_index, StoneMap};

verus! {

/// The four sides of a cell within its level.
#[derive(Clone, Copy, Debug, PartialEq, Eq, Structural)]
pub enum Direction {
    North,
    South,
    East,
    West,
}

/// A unit segment between two corners of the grid.
#[derive(Clone, Copy, Debug, PartialEq, Eq, Structural)]
pub struct Edge {
    pub from: IVec2,
    pub to: IVec2,
}

/// The four sides in the order in which a cell is walked round.
pub open spec fn sides() -> Seq<Direction> {
    seq![Direction::North, Direction::South, Direction::East, Direction::West]
}

impl Direction {
    /// The step from a cell to its neighbour on this side.
    pub open spec fn step(self) -> IVec2 {
        match self {
            Direction::North => IVec2 { x: 0, y: 1 },
            Direction::South => IVec2 { x: 0, y: (-1i32) },
            Direction::East => IVec2 { x: 1, y: 0 },
            Direction::West => IVec2 { x: (-1i32), y: 0 },
        }
    }

    /// The side that faces this one.
    pub open spec fn opposite(self) -> Direction {
        match self {
            Direction::North => Direction::South,
            Direction::South => Direction::North,
            Direction::East => Direction::West,
            Direction::West => Direction::East,
        }
    }

    /// The four sides: north, south, east, west.
    pub fn into_iter() -> (all: [Direction; 4])
        ensures
            all@ == sides(),
    {
        let all = [Direction::North, Direction::South, Direction::East, Direction::West];
        all
    }

    /// The step from a cell to its neighbour on this side.
    pub fn to_ivec2(self) -> (step: IVec2)
        ensures
            step == self.step(),
    {
        match self {
            Direction::North => IVec2 { x: 0, y: 1 },
            Direction::South => IVec2 { x: 0, y: -1 },
            Direction::East => IVec2 { x: 1, y: 0 },
            Direction::West => IVec2 { x: -1, y: 0 },
        }
    }
}

/// The cell next to `pos` on `side`, as `(x, y, z)`.
pub open spec fn neighbor(pos: Position, side: Direction) -> (int, int, int) {
    (pos.x + side.step().x, pos.y + side.step().y, pos.z as int)
}

/// Whether the outline passes along `side` of the cell `pos`: the neighbour
/// on that side lies outside the grid or is empty.
pub open spec fn is_boundary(map: &StoneMap, pos: Position, side: Direction) -> bool {
    let n = neighbor(pos, side);
    ||| !(0 <= n.0 < map.extents().1)
    ||| !(0 <= n.1 < map.extents().2)
    ||| !map.occupied(n.0, n.1, n.2)
}

/// The edge of the cell `pos` on `side`, between two of its corners. The
/// corners of the cell `(x, y)` are `(x, y)`, `(x + 1, y)`, `(x, y + 1)` and
/// `(x + 1, y + 1)`.
pub open spec fn edge_on(pos: Position, side: Direction) -> Edge {
    let x0 = pos.x;
    let y0 = pos.y;
    let x1 = (pos.x + 1) as i32;
    let y1 = (pos.y + 1) as i32;
    match side {
        Direction::East => Edge { from: IVec2 { x: x1, y: y0 }, to: IVec2 { x: x1, y: y1 } },
        Direction::West => Edge { from: IVec2 { x: x0, y: y0 }, to: IVec2 { x: x0, y: y1 } },
        Direction::South => Edge { from: IVec2 { x: x0, y: y0 }, to: IVec2 { x: x1, y: y0 } },
        Direction::North => Edge { from: IVec2 { x: x0, y: y1 }, to: IVec2 { x: x1, y: y1 } },
    }
}

/// What one side of a cell adds to the outline: its edge, or nothing.
pub open spec fn side_edge(map: &StoneMap, pos: Position, side: Direction) -> Seq<Edge> {
    if is_boundary(map, pos, side) {
        seq![edge_on(pos, side)]
    } else {
        Seq::empty()
    }
}

/// The edges of the first `k` sides of the cell `pos`.
pub open spec fn stone_edges(map: &StoneMap, pos: Position, k: int) -> Seq<Edge>
    decreases k,
{
    if k <= 0 {
        Seq::empty()
    } else {
        stone_edges(map, pos, k - 1) + side_edge(map, pos, sides()[k - 1])
    }
}

/// The edges of those among the first `n` stones that stand on `level`.
pub open spec fn level_edges(map: &StoneMap, level: i32, n: int) -> Seq<Edge>
    decreases n,
{
    if n <= 0 {
        Seq::empty()
    } else if map@[n - 1].z == level {
        level_edges(map, level, n - 1) + stone_edges(map, map@[n - 1], 4)
    } else {
        level_edges(map, level, n - 1)
    }
}

/// The outline of `level`: for each stone on it, in the order in which the
/// stones were placed, its boundary edges in the order north, south, east,
/// west.
pub open spec fn silhouette(map: &StoneMap, level: i32) -> Seq<Edge> {
    level_edges(map, level, map@.len() as int)
}

/// Whether stone `i` stands on `level` and has `edge` as its boundary edge on
/// `side`.
pub open spec fn emits(map: &StoneMap, level: i32, i: int, side: Direction, edge: Edge) -> bool {
    &&& 0 <= i < map@.len()
    &&& map@[i].z == level
    &&& is_boundary(map, map@[i], side)
    &&& edge_on(map@[i], side) == edge
}

/// Extracts the outline of `level`.
pub fn get_stone_zlevel(stone_map: &StoneMap, level: i32) -> (edges: Vec<Edge>)
    requires
        stone_map.wf(),
    ensures
        edges@ == silhouette(stone_map, level),
{
    let mut level_edges: Vec<Edge> = Vec::new();
    let total: usize = stone_map.len();
    let width: i32 = stone_map.width();
    let height: i32 = stone_map.height();
    let all = Direction::into_iter();
    let mut id: usize = 0;
    while id < total
        invariant
            stone_map.wf(),
            total == stone_map@.len(),
            width == stone_map.extents().1,
            height == stone_map.extents().2,
            all@ == sides(),
            id <= total,
            level_edges@ == self::level_edges(stone_map, level, id as int),
        decreases total - id,
    {
        let found = stone_map.position_of(id);
        let pos: Position = found.unwrap();
        if pos.z == level {
            let ghost before = level_edges@;
            let mut k: usize = 0;
            while k < 4
                invariant
                    stone_map.wf(),
                    stone_map.in_bounds(pos),
                    width == stone_map.extents().1,
                    height == stone_map.extents().2,
                    all@ == sides(),
                    k <= 4,
                    level_edges@ == before + stone_edges(stone_map, pos, k as int),
                decreases 4 - k,
            {
                let side: Direction = all[k];
                let step: IVec2 = side.to_ivec2();
                let nx: i32 = pos.x + step.x;
                let ny: i32 = pos.y + step.y;
                let outside: bool = !(0 <= nx && nx < width) || !(0 <= ny && ny < height);
                if outside || !stone_map.contains(Position { x: nx, y: ny, z: pos.z }) {
                    let x: i32 = pos.x;
                    let y: i32 = pos.y;
                    let edge: Edge = match side {
                        Direction::East => Edge {
                            from: IVec2 { x: x + 1, y },
                            to: IVec2 { x: x + 1, y: y + 1 },
                        },
                        Direction::West => Edge {
                            from: IVec2 { x, y },
                            to: IVec2 { x, y: y + 1 },
                        },
                        Direction::South => Edge {
                            from: IVec2 { x, y },
                            to: IVec2 { x: x + 1, y },
                        },
                        Direction::North => Edge {
                            from: IVec2 { x, y: y + 1 },
                            to: IVec2 { x: x + 1, y: y + 1 },
                        },
                    };
                    level_edges.push(edge);
                }
                k += 1;
            }
        }
        id += 1;
    }
    level_edges
}

/// Whether a stone was placed on `level` since the map held `seen` stones:
/// only then can the outline of the level have changed.
pub fn level_changed(stone_map: &StoneMap, level: i32, seen: usize) -> (changed: bool)
    ensures
        changed <==> exists|id: int|
            seen <= id < stone_map@.len() && (#[trigger] stone_map@[id]).z == level,
{
    let total: usize = stone_map.len();
    let mut id: usize = seen;
    while id < total
        invariant
            total == stone_map@.len(),
            seen <= id,
            forall|i: int| seen <= i < id && i < total ==> (#[trigger] stone_map@[i]).z != level,
        decreases total - id,
    {
        let found: Option<Position> = stone_map.position_of(id);
        let pos: Position = found.unwrap();
        if pos.z == level {
            return true;
        }
        id += 1;
    }
    false
}

/// The edges of a cell are the edges of its boundary sides.
proof fn lemma_stone_edges_contains(map: &StoneMap, pos: Position, k: int, edge: Edge)
    requires
        0 <= k <= 4,
    ensures
        stone_edges(map, pos, k).contains(edge) <==> exists|j: int|
            0 <= j < k && is_boundary(map, pos, #[trigger] sides()[j]) && edge_on(pos, sides()[j])
                == edge,
    decreases k,
{
    if k > 0 {
        lemma_stone_edges_contains(map, pos, k - 1, edge);
        let side = sides()[k - 1];
        lemma_concat_contains(stone_edges(map, pos, k - 1), side_edge(map, pos, side), edge);
        if is_boundary(map, pos, side) {
            assert(side_edge(map, pos, side)[0] == edge_on(pos, side));
        }
    }
}

/// An edge is among the edges of the first `n` stones exactly when one of
/// them, standing on the level, has it as a boundary edge.
proof fn lemma_level_edges_contains(map: &StoneMap, level: i32, n: int, edge: Edge)
    requires
        0 <= n <= map@.len(),
    ensures
        level_edges(map, level, n).contains(edge) <==> exists|i: int, side: Direction|
            i < n && #[trigger] emits(map, level, i, side, edge),
    decreases n,
{
    if n > 0 {
        lemma_level_edges_contains(map, level, n - 1, edge);
        let pos = map@[n - 1];
        let earlier = level_edges(map, level, n - 1);
        lemma_stone_edges_contains(map, pos, 4, edge);
        if pos.z == level {
            lemma_concat_contains(earlier, stone_edges(map, pos, 4), edge);
        }
        if level_edges(map, level, n).contains(edge) && !earlier.contains(edge) {
            let j = choose|j: int|
                0 <= j < 4 && is_boundary(map, pos, #[trigger] sides()[j]) && edge_on(
                    pos,
                    sides()[j],
                ) == edge;
            assert(emits(map, level, n - 1, sides()[j], edge));
        }
        if exists|side: Direction| #[trigger] emits(map, level, n - 1, side, edge) {
            let side = choose|side: Direction| #[trigger] emits(map, level, n - 1, side, edge);
            let j: int = match side {
                Direction::North => 0,
                Direction::South => 1,
                Direction::East => 2,
                Direction::West => 3,
            };
            assert(sides()[j] == side);
        }
    }
}

/// An edge belongs to the outline of a level exactly when some stone on that
/// level has it as a boundary edge.
pub proof fn lemma_silhouette_contains(map: &StoneMap, level: i32, edge: Edge)
    ensures
        silhouette(map, level).contains(edge) <==> exists|i: int, side: Direction|
            #[trigger] emits(map, level, i, side, edge),
{
    lemma_level_edges_contains(map, level, map@.len() as int, edge);
}

/// The outline holds the edge on a side of a stone exactly when the
/// neighbour across that side is empty or lies outside the grid.
pub proof fn lemma_edge_iff_boundary(map: &StoneMap, level: i32, pos: Position, side: Direction)
    requires
        map.wf(),
        map@.contains(pos),
        pos.z == level,
    ensures
        silhouette(map, level).contains(edge_on(pos, side)) <==> is_boundary(map, pos, side),
{
    let edge = edge_on(pos, side);
    lemma_silhouette_contains(map, level, edge);
    let at = choose|i: int| 0 <= i < map@.len() && map@[i] == pos;
    if is_boundary(map, pos, side) {
        assert(emits(map, level, at, side, edge));
    }
    if silhouette(map, level).contains(edge) {
        let (i, other) = choose|i: int, other: Direction| #[trigger]
            emits(map, level, i, other, edge);
        let from = map@[i];
        if from != pos || other != side {
            // The same segment seen from the far side: `from` is the
            // neighbour of `pos` across `side`, and `pos` is the neighbour of
            // `from` across `other`. Both hold a stone, so neither side is a
            // boundary.
            assert(cell_index(map@[at]) == (pos.z as int, pos.x as int, pos.y as int));
        }
    }
}

} // verus!
