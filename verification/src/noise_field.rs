//! Noise samples in fixed point, and the settings they are made with.
//!
//! A sample, a persistence and a frequency are integers in millionths: the
//! value `1.0` is `UNIT`. Coherent noise lies roughly between `-UNIT` and
//! `UNIT`; nothing here relies on that.

use vstd::prelude::*;
use crate::constants::{MAP_HEIGHT, MAP_WIDTH};
use crate::error::TerrainError;

verus! {

/// The value `1.0` in fixed point.
pub const UNIT: i32 = 1_000_000;

/// A span of one axis of the plane, in whole cells.
#[derive(Clone, Copy, Debug, PartialEq, Eq, Structural)]
pub struct Span {
    pub lower: i32,
    pub upper: i32,
}

/// The parameters of a fractal noise field over a rectangle of the plane.
#[derive(Clone, Copy, Debug, PartialEq, Eq, Structural)]
pub struct NoiseSettings {
    /// Samples along x.
    pub width: i32,
    /// Samples along y.
    pub height: i32,
    pub seed: u32,
    /// Number of octaves that are summed.
    pub octaves: i32,
    /// Amplitude of each octave relative to the one before, in millionths.
    pub persistence: i32,
    /// Frequency of the first octave, in millionths.
    pub frequency: i32,
    /// The span of x that the samples cover.
    pub x_bounds: Span,
    /// The span of y that the samples cover.
    pub y_bounds: Span,
}

impl NoiseSettings {
    /// Whether a noise field can be made with these settings.
    pub open spec fn valid(&self) -> bool {
        &&& 0 < self.width
        &&& 0 < self.height
        &&& 0 < self.octaves
        &&& 0 < self.frequency
    }

    /// The settings of the default scene: three octaves over the whole map.
    pub fn standard() -> (s: NoiseSettings)
        ensures
            s == (NoiseSettings {
                width: MAP_WIDTH,
                height: MAP_HEIGHT,
                seed: 0,
                octaves: 3,
                persistence: 100_000,
                frequency: 50_000,
                x_bounds: Span { lower: 0, upper: MAP_WIDTH },
                y_bounds: Span { lower: 0, upper: MAP_HEIGHT },
            }),
            s.valid(),
    {
        NoiseSettings {
            width: MAP_WIDTH,
            height: MAP_HEIGHT,
            seed: 0,
            octaves: 3,
            persistence: 100_000,
            frequency: 50_000,
            x_bounds: Span { lower: 0, upper: MAP_WIDTH },
            y_bounds: Span { lower: 0, upper: MAP_HEIGHT },
        }
    }

    /// Refuses settings with a width, a height, an octave count or a
    /// frequency that is not positive.
    pub fn validate(&self) -> (r: Result<(), TerrainError>)
        ensures
            r is Ok <==> self.valid(),
            r matches Err(e) ==> e == TerrainError::InvalidConfig,
    {
        if self.width <= 0 || self.height <= 0 || self.octaves <= 0 || self.frequency <= 0 {
            Err(TerrainError::InvalidConfig)
        } else {
            Ok(())
        }
    }
}

/// A grid of vectors seen as a grid of sequences: one inner sequence for
/// each x, indexed by y.
pub open spec fn grid_view(columns: Seq<Vec<i32>>) -> Seq<Seq<i32>> {
    Seq::new(columns.len(), |x: int| columns[x]@)
}

/// Whether a grid has at least one cell and the same extent along y at
/// every x, both extents within `i32`.
pub open spec fn rectangular(grid: Seq<Seq<i32>>) -> bool {
    &&& 0 < grid.len() <= i32::MAX
    &&& 0 < grid[0].len() <= i32::MAX
    &&& forall|x: int| 0 <= x < grid.len() ==> (#[trigger] grid[x]).len() == grid[0].len()
}

/// A rectangular grid of noise samples, indexed by x and then by y.
pub struct NoiseField {
    columns: Vec<Vec<i32>>,
}

impl View for NoiseField {
    type V = Seq<Seq<i32>>;

    /// The samples: `self@[x][y]` is the sample at `(x, y)`.
    closed spec fn view(&self) -> Seq<Seq<i32>> {
        grid_view(self.columns@)
    }
}

impl NoiseField {
    /// The invariant of a noise field: it is rectangular and not empty.
    pub open spec fn wf(&self) -> bool {
        rectangular(self@)
    }

    /// Takes a grid of samples, one vector for each x. A grid that is empty
    /// or ragged is refused.
    pub fn from_columns(columns: Vec<Vec<i32>>) -> (r: Result<NoiseField, TerrainError>)
        ensures
            r is Ok <==> rectangular(grid_view(columns@)),
            r matches Ok(field) ==> field.wf() && field@ == grid_view(columns@),
            r matches Err(e) ==> e == TerrainError::InvalidConfig,
    {
        let width: usize = columns.len();
        if width == 0 || width > i32::MAX as usize {
            return Err(TerrainError::InvalidConfig);
        }
        let height: usize = columns[0].len();
        if height == 0 || height > i32::MAX as usize {
            return Err(TerrainError::InvalidConfig);
        }
        let mut x: usize = 0;
        while x < width
            invariant
                width == columns@.len(),
                height == columns@[0]@.len(),
                x <= width,
                forall|i: int| 0 <= i < x ==> (#[trigger] columns@[i])@.len() == height,
            decreases width - x,
        {
            if columns[x].len() != height {
                assert(grid_view(columns@)[x as int].len() != grid_view(columns@)[0].len());
                return Err(TerrainError::InvalidConfig);
            }
            x += 1;
        }
        Ok(NoiseField { columns })
    }

    /// Number of samples along x.
    pub fn width(&self) -> (n: i32)
        requires
            self.wf(),
        ensures
            n == self@.len(),
    {
        self.columns.len() as i32
    }

    /// Number of samples along y.
    pub fn height(&self) -> (n: i32)
        requires
            self.wf(),
        ensures
            n == self@[0].len(),
    {
        self.columns[0].len() as i32
    }

    /// The sample at `(x, y)`, or `None` outside the field.
    pub fn value(&self, x: i32, y: i32) -> (r: Option<i32>)
        requires
            self.wf(),
        ensures
            r == if 0 <= x < self@.len() && 0 <= y < self@[0].len() {
                Some(self@[x as int][y as int])
            } else {
                None
            },
    {
        if 0 <= x && (x as usize) < self.columns.len() {
            let column = &self.columns[x as usize];
            assert(column@ == self@[x as int]);
            if 0 <= y && (y as usize) < column.len() {
                return Some(column[y as usize]);
            }
        }
        None
    }
}

} // verus!
