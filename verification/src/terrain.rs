//! Terrain generation: from noise samples to a height for each column, and
//! from the heights to the stones of the map.
//!
//! The base offset and the amplitude of the terrain are fractions of the
//! number of levels, in millionths like the samples.

use vstd::prelude::*;
use crate::constants::Z_LEVELS;
use crate::error::TerrainError;
use crate::geometry::Position;
use crate::noise_field::{grid_view, NoiseField, UNIT};
use crate::seq_facts::lemma_concat_contains;
use crate::stone_map::{cell_index, StoneMap};

verus! {

/// How noise is turned into heights.
#[derive(Clone, Copy, Debug, PartialEq, Eq, Structural)]
pub struct TerrainParams {
    /// Number of vertical levels.
    pub levels: i32,
    /// Height at the lowest noise, as a fraction of the levels, in millionths.
    pub base_offset: i32,
    /// Span of the heights over the range of the noise, as a fraction of the
    /// levels, in millionths.
    pub amplitude: i32,
}

/// Twice `UNIT` squared times the height that a sample asks for,
/// `base_offset * levels + (raw + 1) / 2 * amplitude * levels`, before it is
/// capped.
pub open spec fn scaled_height(raw: int, levels: int, base_offset: int, amplitude: int) -> int {
    2 * UNIT * base_offset * levels + (raw + UNIT) * amplitude * levels
}

/// The height of a column with noise sample `raw`: the height asked for,
/// capped at `levels - 1`, rounded down, and raised to zero where it is
/// negative.
pub open spec fn column_height(raw: int, levels: int, base_offset: int, amplitude: int) -> int {
    let wanted = scaled_height(raw, levels, base_offset, amplitude);
    let one = 2 * UNIT * UNIT;
    let capped = if wanted >= (levels - 1) * one {
        levels - 1
    } else {
        wanted / one
    };
    if capped < 0 {
        0
    } else {
        capped
    }
}

impl TerrainParams {
    /// The terrain of the default scene: heights from a fifth of the levels
    /// up to the top.
    pub fn standard() -> (p: TerrainParams)
        ensures
            p == (TerrainParams { levels: Z_LEVELS, base_offset: 200_000, amplitude: 800_000 }),
    {
        TerrainParams { levels: Z_LEVELS, base_offset: 200_000, amplitude: 800_000 }
    }

    /// The height of a column with the noise sample `raw`. It is refused
    /// where the number of levels is not positive.
    pub fn height_of(&self, raw: i32) -> (r: Result<i32, TerrainError>)
        ensures
            r is Ok <==> 0 < self.levels,
            r matches Ok(h) ==> h == column_height(
                raw as int,
                self.levels as int,
                self.base_offset as int,
                self.amplitude as int,
            ) && 0 <= h <= self.levels - 1,
            r matches Err(e) ==> e == TerrainError::InvalidConfig,
    {
        if self.levels <= 0 {
            return Err(TerrainError::InvalidConfig);
        }
        let unit: i128 = UNIT as i128;
        let levels: i128 = self.levels as i128;
        let double: i128 = 2 * unit;
        let base: i128 = double * (self.base_offset as i128);
        let swing: i128 = raw as i128 + unit;
        proof {
            lemma_product_within(base as int, levels as int, 0x10_0000_0000_0000, 0x8000_0000);
            lemma_product_within(
                swing as int,
                self.amplitude as int,
                0x1_0000_0000,
                0x8000_0000,
            );
            lemma_product_within(
                swing * self.amplitude,
                levels as int,
                0x8000_0000_0000_0000,
                0x8000_0000,
            );
        }
        let wanted: i128 = base * levels + swing * (self.amplitude as i128) * levels;
        let one: i128 = double * unit;
        if wanted >= (levels - 1) * one {
            Ok(self.levels - 1)
        } else if wanted < 0 {
            Ok(0)
        } else {
            let whole: i128 = wanted / one;
            Ok(whole as i32)
        }
    }
}

/// A product is bounded by the product of the bounds of its factors.
proof fn lemma_product_within(a: int, b: int, bound_a: int, bound_b: int)
    by (nonlinear_arith)
    requires
        -bound_a <= a <= bound_a,
        -bound_b <= b <= bound_b,
    ensures
        -(bound_a * bound_b) <= a * b <= bound_a * bound_b,
{
}

/// The heights of the columns of a terrain, indexed by x and then by y. A
/// column of height `h` is filled on the levels below `h`.
pub struct HeightMap {
    columns: Vec<Vec<i32>>,
}

impl View for HeightMap {
    type V = Seq<Seq<i32>>;

    /// The heights: `self@[x][y]` is the height of the column at `(x, y)`.
    closed spec fn view(&self) -> Seq<Seq<i32>> {
        grid_view(self.columns@)
    }
}

impl HeightMap {
    /// Takes a grid of heights, one vector for each x.
    pub fn from_columns(columns: Vec<Vec<i32>>) -> (heights: HeightMap)
        ensures
            heights@ == grid_view(columns@),
    {
        HeightMap { columns }
    }

    /// The height of the column at `(x, y)`, or `None` where there is none.
    pub fn get(&self, x: usize, y: usize) -> (r: Option<i32>)
        ensures
            r == if x < self@.len() && y < self@[x as int].len() {
                Some(self@[x as int][y as int])
            } else {
                None
            },
    {
        if x < self.columns.len() {
            let column = &self.columns[x];
            if y < column.len() {
                return Some(column[y]);
            }
        }
        None
    }
}

/// The heights that a grid of noise samples gives.
pub open spec fn height_grid(samples: Seq<Seq<i32>>, params: TerrainParams) -> Seq<Seq<i32>> {
    Seq::new(
        samples.len(),
        |x: int|
            Seq::new(
                samples[x].len(),
                |y: int|
                    column_height(
                        samples[x][y] as int,
                        params.levels as int,
                        params.base_offset as int,
                        params.amplitude as int,
                    ) as i32,
            ),
    )
}

/// Whether every height lies between zero and `levels - 1`.
pub open spec fn within_levels(heights: Seq<Seq<i32>>, levels: int) -> bool {
    forall|x: int, y: int|
        0 <= x < heights.len() && 0 <= y < heights[x].len() ==> 0 <= #[trigger] heights[x][y]
            <= levels - 1
}

/// Computes the height of every column from its noise sample. It is refused
/// where the number of levels is not positive.
pub fn height_map(noise: &NoiseField, params: &TerrainParams) -> (r: Result<
    HeightMap,
    TerrainError,
>)
    requires
        noise.wf(),
    ensures
        r is Ok <==> 0 < params.levels,
        r matches Ok(heights) ==> heights@ == height_grid(noise@, *params) && within_levels(
            heights@,
            params.levels as int,
        ),
        r matches Err(e) ==> e == TerrainError::InvalidConfig,
{
    if params.levels <= 0 {
        return Err(TerrainError::InvalidConfig);
    }
    let width: i32 = noise.width();
    let height: i32 = noise.height();
    let mut columns: Vec<Vec<i32>> = Vec::new();
    let mut x: i32 = 0;
    while x < width
        invariant
            noise.wf(),
            0 < params.levels,
            width == noise@.len(),
            height == noise@[0].len(),
            0 <= x <= width,
            columns@.len() == x,
            forall|i: int| 0 <= i < x ==> (#[trigger] columns@[i])@ == height_grid(noise@, *params)[i],
        decreases width - x,
    {
        let mut column: Vec<i32> = Vec::new();
        let mut y: i32 = 0;
        while y < height
            invariant
                noise.wf(),
                0 < params.levels,
                width == noise@.len(),
                height == noise@[0].len(),
                0 <= x < width,
                0 <= y <= height,
                column@.len() == y,
                forall|j: int|
                    0 <= j < y ==> #[trigger] column@[j] == height_grid(noise@, *params)[x as int][j],
            decreases height - y,
        {
            let sample: Option<i32> = noise.value(x, y);
            let raw: i32 = sample.unwrap();
            let computed: Result<i32, TerrainError> = params.height_of(raw);
            let h: i32 = computed.unwrap();
            column.push(h);
            y += 1;
        }
        columns.push(column);
        x += 1;
    }
    let heights = HeightMap { columns };
    proof {
        lemma_height_grid_within_levels(noise@, *params);
    }
    Ok(heights)
}

/// Every height that noise gives lies between zero and `levels - 1`.
pub proof fn lemma_height_grid_within_levels(samples: Seq<Seq<i32>>, params: TerrainParams)
    requires
        0 < params.levels,
    ensures
        within_levels(height_grid(samples, params), params.levels as int),
{
    let grid = height_grid(samples, params);
    assert forall|x: int, y: int| 0 <= x < grid.len() && 0 <= y < grid[x].len() implies 0
        <= #[trigger] grid[x][y] <= params.levels - 1 by {
        lemma_column_height_within_levels(
            samples[x][y] as int,
            params.levels as int,
            params.base_offset as int,
            params.amplitude as int,
        );
    }
}

/// The height of a column lies between zero and `levels - 1`, whatever the
/// noise, the base offset and the amplitude are.
pub proof fn lemma_column_height_within_levels(
    raw: int,
    levels: int,
    base_offset: int,
    amplitude: int,
)
    requires
        0 < levels,
    ensures
        0 <= column_height(raw, levels, base_offset, amplitude) <= levels - 1,
{
    let wanted = scaled_height(raw, levels, base_offset, amplitude);
    let one = 2 * UNIT * UNIT;
    if wanted < (levels - 1) * one {
        assert(wanted / 2_000_000_000_000 <= levels - 1);
    }
}

/// Whether the cell `(x, y, z)` is to be filled: it lies in the column at
/// `(x, y)`, below the height of that column. The cell at the height itself
/// stays empty.
pub open spec fn is_target(heights: Seq<Seq<i32>>, x: int, y: int, z: int) -> bool {
    &&& 0 <= x < heights.len()
    &&& 0 <= y < heights[x].len()
    &&& 0 <= z < heights[x][y]
}

/// Whether `(x, y, z)` names a cell of the grid of `map`.
pub open spec fn inside(map: &StoneMap, x: int, y: int, z: int) -> bool {
    &&& 0 <= z < map.extents().0
    &&& 0 <= x < map.extents().1
    &&& 0 <= y < map.extents().2
}

/// Whether every cell to be filled lies inside the grid.
pub open spec fn all_inside(map: &StoneMap, heights: Seq<Seq<i32>>) -> bool {
    forall|x: int, y: int, z: int| #[trigger] is_target(heights, x, y, z) ==> inside(map, x, y, z)
}

/// Whether every cell to be filled is empty.
pub open spec fn all_free(map: &StoneMap, heights: Seq<Seq<i32>>) -> bool {
    forall|x: int, y: int, z: int|
        #[trigger] is_target(heights, x, y, z) ==> !map.occupied(x, y, z)
}

/// The stones of one column, from the ground up.
pub open spec fn column_stack(x: int, y: int, h: int) -> Seq<Position> {
    Seq::new(
        if h > 0 {
            h as nat
        } else {
            0
        },
        |z: int| Position { x: x as i32, y: y as i32, z: z as i32 },
    )
}

/// The stones of the first `n` columns at `x`, in the order of y.
pub open spec fn strip_stones(heights: Seq<Seq<i32>>, x: int, n: int) -> Seq<Position>
    decreases n,
{
    if n <= 0 {
        Seq::empty()
    } else {
        strip_stones(heights, x, n - 1) + column_stack(x, n - 1, heights[x][n - 1] as int)
    }
}

/// The stones of all columns with an x below `m`, in the order of x.
pub open spec fn grid_stones(heights: Seq<Seq<i32>>, m: int) -> Seq<Position>
    decreases m,
{
    if m <= 0 {
        Seq::empty()
    } else {
        grid_stones(heights, m - 1) + strip_stones(heights, m - 1, heights[m - 1].len() as int)
    }
}

/// The stones of a terrain in the order in which they are placed: by x, then
/// by y, then from the ground up.
pub open spec fn terrain_stones(heights: Seq<Seq<i32>>) -> Seq<Position> {
    grid_stones(heights, heights.len() as int)
}

/// What placing the stones of `heights` does to a map. Where every cell to
/// be filled lies inside the grid and is empty, the stones are appended in
/// order. Otherwise the map stays as it was: with `OutOfBounds` where some
/// cell lies outside, with `CellOccupied` where all lie inside and one is
/// taken.
pub open spec fn placement(
    before: &StoneMap,
    heights: Seq<Seq<i32>>,
    after: &StoneMap,
    r: Result<(), TerrainError>,
) -> bool {
    match r {
        Ok(()) => {
            &&& all_inside(before, heights)
            &&& all_free(before, heights)
            &&& after@ == before@ + terrain_stones(heights)
        },
        Err(e) => {
            &&& after@ == before@
            &&& e == TerrainError::OutOfBounds <==> !all_inside(before, heights)
            &&& e == TerrainError::CellOccupied <==> all_inside(before, heights) && !all_free(
                before,
                heights,
            )
            &&& e != TerrainError::InvalidConfig
        },
    }
}

/// What generating a terrain from noise does to a map: nothing but
/// `InvalidConfig` where the number of levels is not positive, and otherwise
/// the placement of the heights that the noise gives.
pub open spec fn spawned(
    before: &StoneMap,
    samples: Seq<Seq<i32>>,
    params: TerrainParams,
    after: &StoneMap,
    r: Result<(), TerrainError>,
) -> bool {
    if params.levels <= 0 {
        r == Err::<(), TerrainError>(TerrainError::InvalidConfig) && after@ == before@
    } else {
        placement(before, height_grid(samples, params), after, r)
    }
}

/// Whether `(x2, y2, z2)` comes before `(x, y, z)` in the order of placing.
pub open spec fn comes_before(x2: int, y2: int, z2: int, x: int, y: int, z: int) -> bool {
    x2 < x || (x2 == x && (y2 < y || (y2 == y && z2 < z)))
}

/// The stones placed before the cell `(x, y, z)` is reached.
pub open spec fn placed_before(heights: Seq<Seq<i32>>, x: int, y: int, z: int) -> Seq<Position> {
    grid_stones(heights, x) + strip_stones(heights, x, y) + column_stack(x, y, z)
}

/// Looks for a cell to be filled that lies outside the grid.
fn find_outside(map: &StoneMap, heights: &HeightMap) -> (found: bool)
    requires
        map.wf(),
    ensures
        found == !all_inside(map, heights@),
{
    let levels: i32 = map.levels();
    let width: i32 = map.width();
    let height: i32 = map.height();
    let n: usize = heights.columns.len();
    let mut x: usize = 0;
    while x < n
        invariant
            map.wf(),
            levels == map.extents().0,
            width == map.extents().1,
            height == map.extents().2,
            n == heights@.len(),
            x <= n,
            forall|x2: int, y2: int, z2: int|
                #[trigger] is_target(heights@, x2, y2, z2) && x2 < x ==> inside(map, x2, y2, z2),
        decreases n - x,
    {
        let column = &heights.columns[x];
        let m: usize = column.len();
        let mut y: usize = 0;
        while y < m
            invariant
                map.wf(),
                levels == map.extents().0,
                width == map.extents().1,
                height == map.extents().2,
                n == heights@.len(),
                x < n,
                column@ == heights@[x as int],
                m == column@.len(),
                y <= m,
                forall|x2: int, y2: int, z2: int|
                    #[trigger] is_target(heights@, x2, y2, z2) && (x2 < x || (x2 == x && y2 < y))
                        ==> inside(map, x2, y2, z2),
            decreases m - y,
        {
            let h: i32 = column[y];
            if h > 0 && (x >= width as usize || y >= height as usize || h > levels) {
                proof {
                    assert(is_target(heights@, x as int, y as int, h - 1));
                }
                return true;
            }
            y += 1;
        }
        x += 1;
    }
    false
}

/// Looks for a cell to be filled that already holds a stone.
fn find_taken(map: &StoneMap, heights: &HeightMap) -> (found: bool)
    requires
        map.wf(),
        all_inside(map, heights@),
    ensures
        found == !all_free(map, heights@),
{
    let n: usize = heights.columns.len();
    let mut x: usize = 0;
    while x < n
        invariant
            map.wf(),
            all_inside(map, heights@),
            n == heights@.len(),
            x <= n,
            forall|x2: int, y2: int, z2: int|
                #[trigger] is_target(heights@, x2, y2, z2) && x2 < x ==> !map.occupied(
                    x2,
                    y2,
                    z2,
                ),
        decreases n - x,
    {
        let column = &heights.columns[x];
        let m: usize = column.len();
        let mut y: usize = 0;
        while y < m
            invariant
                map.wf(),
                all_inside(map, heights@),
                n == heights@.len(),
                x < n,
                column@ == heights@[x as int],
                m == column@.len(),
                y <= m,
                forall|x2: int, y2: int, z2: int|
                    #[trigger] is_target(heights@, x2, y2, z2) && comes_before(
                        x2,
                        y2,
                        z2,
                        x as int,
                        y as int,
                        0,
                    ) ==> !map.occupied(x2, y2, z2),
            decreases m - y,
        {
            let h: i32 = column[y];
            let mut z: i32 = 0;
            while z < h
                invariant
                    map.wf(),
                    all_inside(map, heights@),
                    x < n == heights@.len(),
                    y < m == heights@[x as int].len(),
                    h == heights@[x as int][y as int],
                    0 <= z,
                    z <= h || z == 0,
                    forall|x2: int, y2: int, z2: int|
                        #[trigger] is_target(heights@, x2, y2, z2) && comes_before(
                            x2,
                            y2,
                            z2,
                            x as int,
                            y as int,
                            z as int,
                        ) ==> !map.occupied(x2, y2, z2),
                decreases h - z,
            {
                assert(is_target(heights@, x as int, y as int, z as int));
                let pos = Position { x: x as i32, y: y as i32, z };
                if map.contains(pos) {
                    return true;
                }
                z += 1;
            }
            y += 1;
        }
        x += 1;
    }
    false
}

/// Places the stones of `heights`, column by column from the ground up, or
/// none of them: the map is left as it was where a cell to be filled lies
/// outside the grid or is taken.
pub fn place_stones(stone_map: &mut StoneMap, heights: &HeightMap) -> (r: Result<(), TerrainError>)
    requires
        old(stone_map).wf(),
    ensures
        final(stone_map).wf(),
        final(stone_map).extents() == old(stone_map).extents(),
        placement(old(stone_map), heights@, final(stone_map), r),
{
    if find_outside(stone_map, heights) {
        return Err(TerrainError::OutOfBounds);
    }
    if find_taken(stone_map, heights) {
        return Err(TerrainError::CellOccupied);
    }
    let ghost before = *stone_map;
    let n: usize = heights.columns.len();
    let mut x: usize = 0;
    while x < n
        invariant
            before.wf(),
            stone_map.wf(),
            stone_map.extents() == before.extents(),
            all_inside(&before, heights@),
            all_free(&before, heights@),
            n == heights@.len(),
            x <= n,
            stone_map@ == before@ + placed_before(heights@, x as int, 0, 0),
            forall|i: int|
                before@.len() <= i < stone_map@.len() ==> comes_before(
                    (#[trigger] stone_map@[i]).x as int,
                    stone_map@[i].y as int,
                    stone_map@[i].z as int,
                    x as int,
                    0,
                    0,
                ),
        decreases n - x,
    {
        let column = &heights.columns[x];
        let m: usize = column.len();
        let mut y: usize = 0;
        while y < m
            invariant
                before.wf(),
                stone_map.wf(),
                stone_map.extents() == before.extents(),
                all_inside(&before, heights@),
                all_free(&before, heights@),
                n == heights@.len(),
                x < n,
                column@ == heights@[x as int],
                m == column@.len(),
                y <= m,
                stone_map@ == before@ + placed_before(heights@, x as int, y as int, 0),
                forall|i: int|
                    before@.len() <= i < stone_map@.len() ==> comes_before(
                        (#[trigger] stone_map@[i]).x as int,
                        stone_map@[i].y as int,
                        stone_map@[i].z as int,
                        x as int,
                        y as int,
                        0,
                    ),
            decreases m - y,
        {
            let h: i32 = column[y];
            let mut z: i32 = 0;
            while z < h
                invariant
                    before.wf(),
                    stone_map.wf(),
                    stone_map.extents() == before.extents(),
                    all_inside(&before, heights@),
                    all_free(&before, heights@),
                    x < n == heights@.len(),
                    y < m == heights@[x as int].len(),
                    h == heights@[x as int][y as int],
                    0 <= z,
                    z <= h || z == 0,
                    stone_map@ == before@ + placed_before(heights@, x as int, y as int, z as int),
                    forall|i: int|
                        before@.len() <= i < stone_map@.len() ==> comes_before(
                            (#[trigger] stone_map@[i]).x as int,
                            stone_map@[i].y as int,
                            stone_map@[i].z as int,
                            x as int,
                            y as int,
                            z as int,
                        ),
                decreases h - z,
            {
                assert(is_target(heights@, x as int, y as int, z as int));
                let pos = Position { x: x as i32, y: y as i32, z };
                proof {
                    before.lemma_occupied_is_contains(pos);
                }
                let placed: Result<usize, TerrainError> = stone_map.set(pos);
                assert(placed is Ok);
                z += 1;
            }
            y += 1;
        }
        x += 1;
    }
    Ok(())
}

/// Generates the terrain: computes the height of every column from its
/// noise sample and places the stones below it.
pub fn spawn_terrain(
    stone_map: &mut StoneMap,
    noise: &NoiseField,
    params: &TerrainParams,
) -> (r: Result<(), TerrainError>)
    requires
        old(stone_map).wf(),
        noise.wf(),
    ensures
        final(stone_map).wf(),
        final(stone_map).extents() == old(stone_map).extents(),
        spawned(old(stone_map), noise@, *params, final(stone_map), r),
{
    match height_map(noise, params) {
        Ok(heights) => place_stones(stone_map, &heights),
        Err(e) => Err(e),
    }
}

/// Generation is a function of its inputs: two runs on maps with the same
/// extents and the same stones, from the same samples and parameters, end
/// with the same outcome and the same stones. The heights of both runs are
/// `height_grid(samples, params)`.
pub proof fn lemma_generation_is_deterministic(
    first_before: &StoneMap,
    first_after: &StoneMap,
    first: Result<(), TerrainError>,
    second_before: &StoneMap,
    second_after: &StoneMap,
    second: Result<(), TerrainError>,
    samples: Seq<Seq<i32>>,
    params: TerrainParams,
)
    requires
        first_before@ == second_before@,
        first_before.extents() == second_before.extents(),
        spawned(first_before, samples, params, first_after, first),
        spawned(second_before, samples, params, second_after, second),
    ensures
        first == second,
        first_after@ == second_after@,
{
    if params.levels > 0 {
        // Each outcome is fixed by what holds of the map before the run.
        match (first, second) {
            (Err(a), Err(b)) => assert(a == b),
            (Ok(a), Ok(b)) => assert(a == b),
            _ => {},
        }
    }
}

/// Whether the x and y of every cell to be filled fit in `i32`, as they do
/// where the cells lie inside a grid.
pub open spec fn targets_fit(heights: Seq<Seq<i32>>) -> bool {
    forall|x: int, y: int, z: int|
        #[trigger] is_target(heights, x, y, z) ==> x <= i32::MAX && y <= i32::MAX
}

/// The stones of a column are the cells at its x and y below its height.
proof fn lemma_column_stack_contains(x: int, y: int, h: int, pos: Position)
    requires
        h <= i32::MAX,
        h > 0 ==> 0 <= x <= i32::MAX && 0 <= y <= i32::MAX,
    ensures
        column_stack(x, y, h).contains(pos) <==> pos.x == x && pos.y == y && 0 <= pos.z < h,
{
    let stack = column_stack(x, y, h);
    if pos.x == x && pos.y == y && 0 <= pos.z < h {
        assert(stack[pos.z as int] == pos);
    }
}

/// The stones of the first `n` columns at `x` are the cells to be filled
/// whose y lies below `n`.
proof fn lemma_strip_stones_contains(heights: Seq<Seq<i32>>, x: int, n: int, pos: Position)
    requires
        0 <= x < heights.len(),
        0 <= n <= heights[x].len(),
        targets_fit(heights),
    ensures
        strip_stones(heights, x, n).contains(pos) <==> pos.x == x && pos.y < n && is_target(
            heights,
            pos.x as int,
            pos.y as int,
            pos.z as int,
        ),
    decreases n,
{
    if n > 0 {
        let h = heights[x][n - 1];
        lemma_strip_stones_contains(heights, x, n - 1, pos);
        if h > 0 {
            assert(is_target(heights, x, n - 1, 0));
        }
        lemma_column_stack_contains(x, n - 1, h as int, pos);
        lemma_concat_contains(
            strip_stones(heights, x, n - 1),
            column_stack(x, n - 1, h as int),
            pos,
        );
    }
}

/// The stones of the columns with an x below `m` are the cells to be filled
/// whose x lies below `m`.
proof fn lemma_grid_stones_contains(heights: Seq<Seq<i32>>, m: int, pos: Position)
    requires
        0 <= m <= heights.len(),
        targets_fit(heights),
    ensures
        grid_stones(heights, m).contains(pos) <==> pos.x < m && is_target(
            heights,
            pos.x as int,
            pos.y as int,
            pos.z as int,
        ),
    decreases m,
{
    if m > 0 {
        lemma_grid_stones_contains(heights, m - 1, pos);
        lemma_strip_stones_contains(heights, m - 1, heights[m - 1].len() as int, pos);
        lemma_concat_contains(
            grid_stones(heights, m - 1),
            strip_stones(heights, m - 1, heights[m - 1].len() as int),
            pos,
        );
    }
}

/// The stones of a terrain are exactly the cells below the height of their
/// column: a column of height `h` is filled on the levels `0` to `h - 1`,
/// and the cell at `h` stays empty.
pub proof fn lemma_terrain_stones_are_targets(heights: Seq<Seq<i32>>, pos: Position)
    requires
        targets_fit(heights),
    ensures
        terrain_stones(heights).contains(pos) <==> is_target(
            heights,
            pos.x as int,
            pos.y as int,
            pos.z as int,
        ),
{
    lemma_grid_stones_contains(heights, heights.len() as int, pos);
}

/// After a placement that succeeded, a cell holds a stone exactly when it
/// held one before or lies below the height of its column.
pub proof fn lemma_placement_fills_columns(
    before: &StoneMap,
    heights: Seq<Seq<i32>>,
    after: &StoneMap,
    x: int,
    y: int,
    z: int,
)
    requires
        before.wf(),
        placement(before, heights, after, Ok(())),
    ensures
        after.occupied(x, y, z) <==> before.occupied(x, y, z) || is_target(heights, x, y, z),
{
    let placed = terrain_stones(heights);
    let kept = before@.len() as int;
    if before.occupied(x, y, z) {
        let i = choose|i: int| 0 <= i < before@.len() && #[trigger] cell_index(before@[i]) == (z, x, y);
        assert(cell_index(after@[i]) == (z, x, y));
    }
    if is_target(heights, x, y, z) {
        let pos = Position { x: x as i32, y: y as i32, z: z as i32 };
        lemma_terrain_stones_are_targets(heights, pos);
        let j = choose|j: int| 0 <= j < placed.len() && placed[j] == pos;
        assert(cell_index(after@[kept + j]) == (z, x, y));
    }
    if after.occupied(x, y, z) {
        let i = choose|i: int| 0 <= i < after@.len() && #[trigger] cell_index(after@[i]) == (z, x, y);
        if i >= kept {
            lemma_terrain_stones_are_targets(heights, placed[i - kept]);
        }
    }
}

} // verus!
