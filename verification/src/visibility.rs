//! Occlusion culling: a stone is hidden exactly when another stone stands on
//! the cell directly above it.

use vstd::prelude::*;
use crate::geometry::Position;
use crate::stone_map::StoneMap;

verus! {

/// Whether a stone is drawn.
#[derive(Clone, Copy, Debug, PartialEq, Eq, Structural)]
pub enum Visibility {
    Visible,
    Hidden,
}

/// The state that the stone at `pos` is to have: hidden where the cell
/// directly above holds a stone, visible otherwise.
pub open spec fn visibility_of(map: &StoneMap, pos: Position) -> Visibility {
    if map.occupied(pos.x as int, pos.y as int, pos.z + 1) {
        Visibility::Hidden
    } else {
        Visibility::Visible
    }
}

/// The states of the stones with an id of `from` or more, in the order of
/// their ids.
pub open spec fn fresh_flags(map: &StoneMap, from: int) -> Seq<Visibility> {
    Seq::new(
        if from < map@.len() {
            (map@.len() - from) as nat
        } else {
            0
        },
        |k: int| visibility_of(map, map@[from + k]),
    )
}

/// Computes the state of the stone at `pos` from the cell above it.
pub fn stone_visibility(stone_map: &StoneMap, pos: Position) -> (v: Visibility)
    requires
        stone_map.wf(),
    ensures
        v == visibility_of(stone_map, pos),
{
    if pos.z == i32::MAX {
        proof {
            stone_map.lemma_outside_is_empty(pos.x as int, pos.y as int, pos.z + 1);
        }
        return Visibility::Visible;
    }
    if stone_map.contains(Position { x: pos.x, y: pos.y, z: pos.z + 1 }) {
        Visibility::Hidden
    } else {
        Visibility::Visible
    }
}

/// The visibility flag of each stone, by id. A pass computes the flags of the
/// stones that were placed since the pass before, and leaves the others as
/// they are.
pub struct VisibilityCuller {
    flags: Vec<Visibility>,
}

impl View for VisibilityCuller {
    type V = Seq<Visibility>;

    /// The flags computed so far: `self@[id]` is the flag of stone `id`.
    closed spec fn view(&self) -> Seq<Visibility> {
        self.flags@
    }
}

impl VisibilityCuller {
    /// A culler that has seen no stone yet.
    pub fn new() -> (culler: VisibilityCuller)
        ensures
            culler@ == Seq::<Visibility>::empty(),
    {
        VisibilityCuller { flags: Vec::new() }
    }

    /// Number of stones whose flag has been computed.
    pub fn len(&self) -> (n: usize)
        ensures
            n == self@.len(),
    {
        self.flags.len()
    }

    /// The flag of stone `id`, or `None` where no pass has reached it.
    pub fn get(&self, id: usize) -> (r: Option<Visibility>)
        ensures
            r == if id < self@.len() {
                Some(self@[id as int])
            } else {
                None
            },
    {
        if id < self.flags.len() {
            Some(self.flags[id])
        } else {
            None
        }
    }
}

/// One pass of the culler: computes the flag of every stone that it has not
/// seen yet, and returns the id of the first of them.
pub fn set_stone_visibility(culler: &mut VisibilityCuller, stone_map: &StoneMap) -> (first: usize)
    requires
        stone_map.wf(),
    ensures
        first == old(culler)@.len(),
        final(culler)@ == old(culler)@ + fresh_flags(stone_map, old(culler)@.len() as int),
{
    let first: usize = culler.flags.len();
    let total: usize = stone_map.len();
    let mut id: usize = first;
    while id < total
        invariant
            stone_map.wf(),
            total == stone_map@.len(),
            first == old(culler)@.len(),
            first <= id,
            id <= total || id == first,
            culler@.len() == id,
            culler@ == old(culler)@ + Seq::new(
                (id - first) as nat,
                |k: int| visibility_of(stone_map, stone_map@[first + k]),
            ),
        decreases total - id,
    {
        let found: Option<Position> = stone_map.position_of(id);
        let pos: Position = found.unwrap();
        let flag: Visibility = stone_visibility(stone_map, pos);
        culler.flags.push(flag);
        id += 1;
    }
    first
}

/// After a pass, each stone that the pass reached is hidden exactly when the
/// cell directly above it holds a stone, and visible otherwise.
pub proof fn lemma_hidden_iff_covered(
    stone_map: &StoneMap,
    before: Seq<Visibility>,
    after: Seq<Visibility>,
    id: int,
)
    requires
        after == before + fresh_flags(stone_map, before.len() as int),
        before.len() <= id < stone_map@.len(),
    ensures
        after[id] == Visibility::Hidden <==> stone_map.occupied(
            stone_map@[id].x as int,
            stone_map@[id].y as int,
            stone_map@[id].z + 1,
        ),
        after[id] == Visibility::Visible <==> !stone_map.occupied(
            stone_map@[id].x as int,
            stone_map@[id].y as int,
            stone_map@[id].z + 1,
        ),
{
}

/// A stone on the topmost level is visible: no cell of the grid lies above
/// it.
pub proof fn lemma_top_level_is_visible(stone_map: &StoneMap, pos: Position)
    requires
        stone_map.wf(),
        pos.z >= stone_map.extents().0 - 1,
    ensures
        visibility_of(stone_map, pos) == Visibility::Visible,
{
    stone_map.lemma_outside_is_empty(pos.x as int, pos.y as int, pos.z + 1);
}

} // verus!
