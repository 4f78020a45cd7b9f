//! Grid cells: discrete units of the infinite canvas, identified by a
//! signed integer coordinate pair.

use vstd::prelude::*;

verus! {

/// One cell of the grid, identified by its column `x` and row `y`.
///
/// The grid is conceptually infinite; this representation covers every
/// coordinate an `i64` can hold.  In specifications a cell is modelled
/// as the mathematical integer pair given by [`Cell::view`].
#[derive(Clone, Copy, PartialEq, Eq, Structural, Debug)]
pub struct Cell {
    pub x: i64,
    pub y: i64,
}

impl View for Cell {
    type V = (int, int);

    open spec fn view(&self) -> (int, int) {
        (self.x as int, self.y as int)
    }
}

impl Cell {
    /// Builds the cell at column `x`, row `y`.
    pub fn new(x: i64, y: i64) -> (c: Cell)
        ensures
            c@ == (x as int, y as int),
    {
        Cell { x, y }
    }
}

/// Whether the integer pair `p` is representable as a [`Cell`], that is,
/// both coordinates fit in an `i64`.  The engine treats cells outside
/// this range as permanently dead: they are the cut-off of the
/// representable portion of the conceptually infinite grid.
pub open spec fn in_cell_range(p: (int, int)) -> bool {
    &&& i64::MIN <= p.0 <= i64::MAX
    &&& i64::MIN <= p.1 <= i64::MAX
}

/// Whether `a` and `b` are distinct cells adjacent on an axis or a
/// diagonal: each of the two coordinates differs by at most one.
pub open spec fn adjacent(a: (int, int), b: (int, int)) -> bool {
    &&& a != b
    &&& -1 <= a.0 - b.0 <= 1
    &&& -1 <= a.1 - b.1 <= 1
}

} // verus!
