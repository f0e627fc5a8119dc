//! The three-dimensional array of cells, kept by the `ndarray` crate.
//!
//! Nothing in this file is proved. Each item states what `ndarray` is
//! relied on to do; the rest of the crate is verified against these
//! statements.

use vstd::prelude::*;
use ndarray::Array3;

verus! {

/// An upper bound on the bytes that one element of the array takes.
pub const CELL_BYTES: usize = 16;

/// A three-dimensional `ndarray` array of optional stone ids. Its contents
/// are reached only through the functions of this file.
#[verifier::external_body]
pub struct CellArray {
    cells: Array3<Option<usize>>,
}

/// The axis lengths of an array, outermost first.
pub uninterp spec fn array_shape(a: CellArray) -> (int, int, int);

/// The element of an array at each index inside its shape.
pub uninterp spec fn array_cells(a: CellArray) -> Map<(int, int, int), Option<usize>>;

/// Whether `index` lies inside `shape` on every axis.
pub open spec fn index_in_shape(shape: (int, int, int), index: (int, int, int)) -> bool {
    &&& 0 <= index.0 < shape.0
    &&& 0 <= index.1 < shape.1
    &&& 0 <= index.2 < shape.2
}

/// `ndarray::Array3::from_elem` on a three-dimensional shape: the new
/// array has the shape asked for and holds `elem` at every index. The call
/// panics where the element count, or the byte count of the elements,
/// exceeds `isize::MAX`; the precondition keeps clear of both. Like every
/// allocation, it ends the process where the memory is not to be had.
#[verifier::external_body]
pub(crate) fn array_from_elem(
    levels: usize,
    width: usize,
    height: usize,
    elem: Option<usize>,
) -> (a: CellArray)
    requires
        0 < levels,
        0 < width,
        0 < height,
        levels * width * height * CELL_BYTES <= isize::MAX,
    ensures
        array_shape(a) == (levels as int, width as int, height as int),
        array_cells(a) == Map::new(
            |index: (int, int, int)| index_in_shape(array_shape(a), index),
            |index: (int, int, int)| elem,
        ),
{
    CellArray { cells: Array3::from_elem((levels, width, height), elem) }
}

/// `ndarray::Array3::get` with a three-part index: the element at the
/// index where the index lies inside the shape, and `None` where it does not.
#[verifier::external_body]
pub(crate) fn array_get(
    a: &CellArray,
    z: usize,
    x: usize,
    y: usize,
) -> (r: Option<Option<usize>>)
    ensures
        r == if index_in_shape(array_shape(*a), (z as int, x as int, y as int)) {
            Some(array_cells(*a)[(z as int, x as int, y as int)])
        } else {
            None
        },
{
    a.cells.get((z, x, y)).copied()
}

/// Assignment through `ndarray`'s `IndexMut` with a three-part index: the
/// element at the index becomes `value`; the shape and every other element
/// stay. The call panics on an index outside the shape, which the
/// precondition excludes.
#[verifier::external_body]
pub(crate) fn array_set(
    a: &mut CellArray,
    z: usize,
    x: usize,
    y: usize,
    value: Option<usize>,
)
    requires
        index_in_shape(array_shape(*old(a)), (z as int, x as int, y as int)),
    ensures
        array_shape(*final(a)) == array_shape(*old(a)),
        array_cells(*final(a)) == array_cells(*old(a)).insert(
            (z as int, x as int, y as int),
            value,
        ),
{
    a.cells[(z, x, y)] = value;
}

} // verus!
