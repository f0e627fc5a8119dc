//! The voxel volume: which cell of the grid holds which stone.
//!
//! A `StoneMap` is viewed as the sequence of the positions of its stones, in
//! the order in which they were placed. The place of a stone in that sequence
//! is its id. Beside the sequence the map keeps an array of cells, each empty
//! or holding the id of its stone, so that a cell is looked up in one step.

use vstd::prelude::*;
use crate::constants::{MAP_HEIGHT, MAP_WIDTH, Z_LEVELS};
use crate::error::TerrainError;
use crate::geometry::Position;
use crate::grid::{
    array_cells, array_from_elem, array_get, array_set, array_shape, index_in_shape, CellArray,
    CELL_BYTES,
};

verus! {

/// The index of the cell of `pos` in the array: level first, then x, then y.
pub open spec fn cell_index(pos: Position) -> (int, int, int) {
    (pos.z as int, pos.x as int, pos.y as int)
}

/// Whether a grid of these extents can be addressed on this machine.
pub open spec fn addressable(levels: int, width: int, height: int) -> bool {
    levels * width * height * CELL_BYTES <= isize::MAX
}

/// A bounded grid of cells, each empty or holding one stone.
pub struct StoneMap {
    cells: CellArray,
    levels: i32,
    width: i32,
    height: i32,
    stones: Vec<Position>,
}

impl View for StoneMap {
    type V = Seq<Position>;

    /// The positions of the stones, in the order in which they were placed.
    closed spec fn view(&self) -> Seq<Position> {
        self.stones@
    }
}

impl StoneMap {
    /// The extents of the grid: levels, width (along x) and height (along y).
    pub closed spec fn extents(&self) -> (int, int, int) {
        (self.levels as int, self.width as int, self.height as int)
    }

    /// Whether `pos` names a cell of the grid.
    pub open spec fn in_bounds(&self, pos: Position) -> bool {
        &&& 0 <= pos.z < self.extents().0
        &&& 0 <= pos.x < self.extents().1
        &&& 0 <= pos.y < self.extents().2
    }

    /// Whether the cell `(x, y, z)` holds a stone. A cell outside the grid
    /// holds none.
    pub open spec fn occupied(&self, x: int, y: int, z: int) -> bool {
        exists|i: int| 0 <= i < self@.len() && #[trigger] cell_index(self@[i]) == (z, x, y)
    }

    /// The array of cells and the sequence of stones say the same: the cell
    /// of each stone holds its id, and a cell that holds an id is the cell of
    /// that stone.
    pub closed spec fn index_agrees(&self) -> bool {
        &&& array_shape(self.cells) == self.extents()
        &&& forall|i: int|
            0 <= i < self.stones@.len() ==> array_cells(self.cells)[#[trigger] cell_index(
                self.stones@[i],
            )] == Some(i as usize)
        &&& forall|index: (int, int, int)|
            index_in_shape(self.extents(), index) ==> (#[trigger] array_cells(
                self.cells,
            )[index] matches Some(id) ==> id < self.stones@.len() && cell_index(
                self.stones@[id as int],
            ) == index)
    }

    /// The invariant of the map: positive extents, every stone inside the
    /// grid, and no cell with more than one stone.
    pub open spec fn wf(&self) -> bool {
        &&& 0 < self.extents().0 <= i32::MAX
        &&& 0 < self.extents().1 <= i32::MAX
        &&& 0 < self.extents().2 <= i32::MAX
        &&& forall|i: int| 0 <= i < self@.len() ==> self.in_bounds(#[trigger] self@[i])
        &&& self@.no_duplicates()
        &&& self.index_agrees()
    }

    /// An empty map of the given extents. It is refused where an extent is
    /// not positive or the grid is too large to address.
    pub fn new(levels: i32, width: i32, height: i32) -> (r: Result<StoneMap, TerrainError>)
        ensures
            r is Ok <==> 0 < levels && 0 < width && 0 < height && addressable(
                levels as int,
                width as int,
                height as int,
            ),
            r matches Ok(map) ==> map.wf() && map.extents() == (
                levels as int,
                width as int,
                height as int,
            ) && map@ == Seq::<Position>::empty(),
            r matches Err(e) ==> e == TerrainError::InvalidConfig,
    {
        if levels <= 0 || width <= 0 || height <= 0 {
            return Err(TerrainError::InvalidConfig);
        }
        proof {
            lemma_volume_bound(levels as int, width as int, height as int);
        }
        let bytes: u128 = (levels as u128) * (width as u128) * (height as u128) * (
        CELL_BYTES as u128);
        if bytes > isize::MAX as u128 {
            return Err(TerrainError::InvalidConfig);
        }
        let cells = array_from_elem(levels as usize, width as usize, height as usize, None);
        let map = StoneMap { cells, levels, width, height, stones: Vec::new() };
        Ok(map)
    }

    /// Number of levels.
    pub fn levels(&self) -> (n: i32)
        ensures
            n == self.extents().0,
    {
        self.levels
    }

    /// Number of cells along x.
    pub fn width(&self) -> (n: i32)
        ensures
            n == self.extents().1,
    {
        self.width
    }

    /// Number of cells along y.
    pub fn height(&self) -> (n: i32)
        ensures
            n == self.extents().2,
    {
        self.height
    }

    /// Number of stones.
    pub fn len(&self) -> (n: usize)
        ensures
            n == self@.len(),
    {
        self.stones.len()
    }

    /// The position of the stone with the given id.
    pub fn position_of(&self, id: usize) -> (r: Option<Position>)
        ensures
            r == if id < self@.len() {
                Some(self@[id as int])
            } else {
                None
            },
    {
        if id < self.stones.len() {
            Some(self.stones[id])
        } else {
            None
        }
    }

    /// Whether `pos` names a cell of the grid.
    pub fn is_in_bounds(&self, pos: Position) -> (b: bool)
        ensures
            b == self.in_bounds(pos),
    {
        0 <= pos.z && pos.z < self.levels && 0 <= pos.x && pos.x < self.width && 0 <= pos.y
            && pos.y < self.height
    }

    /// Places a new stone at `pos` and returns its id, the number of stones
    /// placed before it. A position outside the grid is refused with
    /// `OutOfBounds`, an occupied cell with `CellOccupied`; the map is then
    /// unchanged.
    pub fn set(&mut self, pos: Position) -> (r: Result<usize, TerrainError>)
        requires
            old(self).wf(),
        ensures
            final(self).wf(),
            final(self).extents() == old(self).extents(),
            match r {
                Ok(id) => {
                    &&& old(self).in_bounds(pos)
                    &&& !old(self)@.contains(pos)
                    &&& id == old(self)@.len()
                    &&& final(self)@ == old(self)@.push(pos)
                },
                Err(e) => {
                    &&& final(self)@ == old(self)@
                    &&& e == TerrainError::OutOfBounds <==> !old(self).in_bounds(pos)
                    &&& e == TerrainError::CellOccupied <==> old(self).in_bounds(pos) && old(
                        self,
                    )@.contains(pos)
                    &&& e != TerrainError::InvalidConfig
                },
            },
    {
        if !self.is_in_bounds(pos) {
            return Err(TerrainError::OutOfBounds);
        }
        let z: usize = pos.z as usize;
        let x: usize = pos.x as usize;
        let y: usize = pos.y as usize;
        match array_get(&self.cells, z, x, y) {
            Some(None) => {
                let id: usize = self.stones.len();
                proof {
                    self.lemma_empty_cell_is_free(pos);
                }
                array_set(&mut self.cells, z, x, y, Some(id));
                self.stones.push(pos);
                Ok(id)
            },
            _ => {
                proof {
                    self.lemma_full_cell_is_taken(pos);
                }
                Err(TerrainError::CellOccupied)
            },
        }
    }

    /// The id of the stone at `pos`, or `None` where the cell is empty or
    /// `pos` lies outside the grid.
    pub fn get(&self, pos: Position) -> (r: Option<usize>)
        requires
            self.wf(),
        ensures
            match r {
                Some(id) => id < self@.len() && self@[id as int] == pos,
                None => !self@.contains(pos),
            },
    {
        if !self.is_in_bounds(pos) {
            return None;
        }
        match array_get(&self.cells, pos.z as usize, pos.x as usize, pos.y as usize) {
            Some(Some(id)) => {
                proof {
                    self.lemma_full_cell_is_taken(pos);
                }
                Some(id)
            },
            _ => {
                proof {
                    self.lemma_empty_cell_is_free(pos);
                }
                None
            },
        }
    }

    /// Whether a stone stands at `pos`. A position outside the grid holds
    /// none.
    pub fn contains(&self, pos: Position) -> (b: bool)
        requires
            self.wf(),
        ensures
            b == self@.contains(pos),
            b == self.occupied(pos.x as int, pos.y as int, pos.z as int),
    {
        proof {
            self.lemma_occupied_is_contains(pos);
        }
        self.get(pos).is_some()
    }

    /// A cell of the grid whose array entry is empty holds no stone.
    proof fn lemma_empty_cell_is_free(&self, pos: Position)
        requires
            self.wf(),
            self.in_bounds(pos),
            !(array_cells(self.cells)[cell_index(pos)] is Some),
        ensures
            !self@.contains(pos),
    {
    }

    /// A cell of the grid whose array entry holds an id holds that stone.
    proof fn lemma_full_cell_is_taken(&self, pos: Position)
        requires
            self.wf(),
            self.in_bounds(pos),
            array_cells(self.cells)[cell_index(pos)] is Some,
        ensures
            array_cells(self.cells)[cell_index(pos)]->0 < self@.len(),
            self@[array_cells(self.cells)[cell_index(pos)]->0 as int] == pos,
            self@.contains(pos),
    {
        assert(index_in_shape(self.extents(), cell_index(pos)));
    }

    /// A position is occupied exactly when it is one of the stones.
    pub proof fn lemma_occupied_is_contains(&self, pos: Position)
        ensures
            self.occupied(pos.x as int, pos.y as int, pos.z as int) == self@.contains(pos),
    {
        if self@.contains(pos) {
            let i = choose|i: int| 0 <= i < self@.len() && self@[i] == pos;
            assert(cell_index(self@[i]) == (pos.z as int, pos.x as int, pos.y as int));
        }
    }

    /// No cell holds more than one stone: two stones at one position are the
    /// same stone.
    pub proof fn lemma_one_stone_per_cell(&self, i: int, j: int)
        requires
            self.wf(),
            0 <= i < self@.len(),
            0 <= j < self@.len(),
            self@[i] == self@[j],
        ensures
            i == j,
    {
    }

    /// A cell outside the grid holds no stone.
    pub proof fn lemma_outside_is_empty(&self, x: int, y: int, z: int)
        requires
            self.wf(),
            !(0 <= z < self.extents().0 && 0 <= x < self.extents().1 && 0 <= y
                < self.extents().2),
        ensures
            !self.occupied(x, y, z),
    {
    }
}

/// The empty map of the default scene.
pub fn insert_stone_map() -> (map: StoneMap)
    ensures
        map.wf(),
        map.extents() == (Z_LEVELS as int, MAP_WIDTH as int, MAP_HEIGHT as int),
        map@ == Seq::<Position>::empty(),
{
    let cells = array_from_elem(Z_LEVELS as usize, MAP_WIDTH as usize, MAP_HEIGHT as usize, None);
    StoneMap { cells, levels: Z_LEVELS, width: MAP_WIDTH, height: MAP_HEIGHT, stones: Vec::new() }
}

/// The byte count of a grid with `i32` extents stays far inside `u128`.
proof fn lemma_volume_bound(levels: int, width: int, height: int)
    by (nonlinear_arith)
    requires
        0 < levels <= i32::MAX,
        0 < width <= i32::MAX,
        0 < height <= i32::MAX,
    ensures
        0 < levels * width <= 0x4000_0000_0000_0000,
        0 < levels * width * height <= 0x2000_0000_0000_0000_0000_0000,
        0 < levels * width * height * 16 <= 0x2_0000_0000_0000_0000_0000_0000,
{
}

} // verus!
