//! The brush: turns a draw mode and an anchor cell into the set of
//! cells a paint or erase action affects.
//!
//! The same set drives painting (insert into the store), erasing
//! (remove from the store) and the cursor-hover preview; which mutation
//! is applied to it is the caller's choice.

use vstd::prelude::*;
use crate::cell::Cell;

verus! {

/// The shape applied when the user paints or erases at a cell: a single
/// cell, or a square block of side 3 or 5 centred on it.  Exactly one
/// mode is active at a time; the default is `Single`.
#[derive(Clone, Copy, PartialEq, Eq, Structural, Debug)]
pub enum DrawMode {
    Single,
    Block3x3,
    Block5x5,
}

impl Default for DrawMode {
    /// The single-cell brush.
    fn default() -> (m: DrawMode)
        ensures
            m == DrawMode::Single,
    {
        DrawMode::Single
    }
}

/// The brush's radius: offsets up to this magnitude on each axis,
/// around the anchor, are affected.
pub open spec fn brush_radius(mode: DrawMode) -> int {
    match mode {
        DrawMode::Single => 0,
        DrawMode::Block3x3 => 1,
        DrawMode::Block5x5 => 2,
    }
}

/// The number of cells the brush covers: the side squared.
pub open spec fn brush_size(mode: DrawMode) -> int {
    match mode {
        DrawMode::Single => 1,
        DrawMode::Block3x3 => 9,
        DrawMode::Block5x5 => 25,
    }
}

/// The square of cells the brush covers around `anchor`: both
/// coordinates within `brush_radius(mode)` of the anchor's.
pub open spec fn brush_cells(anchor: (int, int), mode: DrawMode) -> Set<(int, int)> {
    Set::new(|p: (int, int)| {
        &&& anchor.0 - brush_radius(mode) <= p.0 <= anchor.0 + brush_radius(mode)
        &&& anchor.1 - brush_radius(mode) <= p.1 <= anchor.1 + brush_radius(mode)
    })
}

/// Whether every cell the brush covers around `anchor` is representable:
/// the anchor keeps `brush_radius(mode)` of room inside the coordinate
/// type on both axes.
pub open spec fn anchor_in_range(anchor: (int, int), mode: DrawMode) -> bool {
    &&& i64::MIN + brush_radius(mode) <= anchor.0 <= i64::MAX - brush_radius(mode)
    &&& i64::MIN + brush_radius(mode) <= anchor.1 <= i64::MAX - brush_radius(mode)
}

/// The columns of the brush square already emitted once the column at
/// offset `dx` is next, plus, within that column, the cells below row
/// offset `dy`.  Describes the loop's progress through the square.
spec fn brush_prefix(anchor: (int, int), radius: int, dx: int, dy: int) -> Set<(int, int)> {
    Set::new(|p: (int, int)| {
        ||| {
            &&& anchor.0 - radius <= p.0 < anchor.0 + dx
            &&& anchor.1 - radius <= p.1 <= anchor.1 + radius
        }
        ||| {
            &&& p.0 == anchor.0 + dx
            &&& anchor.1 - radius <= p.1 < anchor.1 + dy
        }
    })
}

/// The cells affected by one paint or erase action with the given brush
/// anchored at `anchor`: the covered square, each cell exactly once.
pub fn affected_cells(anchor: Cell, mode: DrawMode) -> (r: Vec<Cell>)
    requires
        anchor_in_range(anchor@, mode),
    ensures
        r@.map_values(|c: Cell| c@).no_duplicates(),
        r@.map_values(|c: Cell| c@).to_set() == brush_cells(anchor@, mode),
        r@.len() == brush_size(mode),
{
    let radius: i64 = match mode {
        DrawMode::Single => 0,
        DrawMode::Block3x3 => 1,
        DrawMode::Block5x5 => 2,
    };
    let side: i64 = 2 * radius + 1;
    let mut r: Vec<Cell> = Vec::new();
    let mut dx: i64 = -radius;
    while dx <= radius
        invariant
            radius == brush_radius(mode),
            side == 2 * radius + 1,
            anchor_in_range(anchor@, mode),
            -radius <= dx <= radius + 1,
            r@.map_values(|c: Cell| c@).no_duplicates(),
            r@.map_values(|c: Cell| c@).to_set()
                == brush_prefix(anchor@, radius as int, dx as int, -radius as int),
            r@.len() == (dx + radius) * (side as int),
        decreases radius - dx + 1,
    {
        let mut dy: i64 = -radius;
        while dy <= radius
            invariant
                radius == brush_radius(mode),
                side == 2 * radius + 1,
                anchor_in_range(anchor@, mode),
                -radius <= dx <= radius,
                -radius <= dy <= radius + 1,
                r@.map_values(|c: Cell| c@).no_duplicates(),
                r@.map_values(|c: Cell| c@).to_set()
                    == brush_prefix(anchor@, radius as int, dx as int, dy as int),
                r@.len() == (dx + radius) * (side as int) + (dy + radius),
            decreases radius - dy + 1,
        {
            let c = Cell::new(anchor.x + dx, anchor.y + dy);
            let ghost vs0 = r@.map_values(|cc: Cell| cc@);
            proof {
                assert(!vs0.to_set().contains(c@));
                assert(!vs0.contains(c@));
            }
            r.push(c);
            proof {
                let vs1 = r@.map_values(|cc: Cell| cc@);
                assert(vs1 =~= vs0.push(c@));
                vs0.lemma_push_to_set_commute(c@);
                assert forall|a: int, b: int|
                    0 <= a < vs1.len() && 0 <= b < vs1.len() && a != b
                    implies vs1[a] != vs1[b] by {
                    if a == vs0.len() || b == vs0.len() {
                        assert(!vs0.contains(c@));
                    }
                }
                assert(vs1.to_set()
                    =~= brush_prefix(anchor@, radius as int, dx as int, dy + 1));
            }
            dy += 1;
        }
        proof {
            assert(brush_prefix(anchor@, radius as int, dx as int, radius + 1)
                =~= brush_prefix(anchor@, radius as int, dx + 1, -radius as int));
            assert((dx + 1 + radius) * (side as int)
                == (dx + radius) * (side as int) + (side as int)) by (nonlinear_arith);
        }
        dx += 1;
    }
    proof {
        assert(brush_prefix(anchor@, radius as int, radius + 1, -radius as int)
            =~= brush_cells(anchor@, mode));
        match mode {
            DrawMode::Single => {
                assert((radius + 1 + radius) * (side as int) == 1) by (nonlinear_arith)
                    requires radius == 0 && side == 1;
            }
            DrawMode::Block3x3 => {
                assert((radius + 1 + radius) * (side as int) == 9) by (nonlinear_arith)
                    requires radius == 1 && side == 3;
            }
            DrawMode::Block5x5 => {
                assert((radius + 1 + radius) * (side as int) == 25) by (nonlinear_arith)
                    requires radius == 2 && side == 5;
            }
        }
    }
    r
}

/// The cells of one grid column at `x` with rows in `[c, d)`.
spec fn column(x: int, c: int, d: int) -> Set<(int, int)> {
    Set::new(|p: (int, int)| p.0 == x && c <= p.1 < d)
}

/// The cells of the rectangle with columns in `[a, b)`, rows in `[c, d)`.
spec fn rect(a: int, b: int, c: int, d: int) -> Set<(int, int)> {
    Set::new(|p: (int, int)| a <= p.0 < b && c <= p.1 < d)
}

/// A union of two disjoint finite sets holds as many elements as the
/// two together.
proof fn lemma_len_disjoint_union<A>(s1: Set<A>, s2: Set<A>)
    requires
        s1.finite(),
        s2.finite(),
        s1.disjoint(s2),
    ensures
        s1.union(s2).finite(),
        s1.union(s2).len() == s1.len() + s2.len(),
    decreases s2.len(),
{
    if s2.is_empty() {
        assert(s1.union(s2) =~= s1);
    } else {
        let a = s2.choose();
        assert(s2.contains(a));
        lemma_len_disjoint_union(s1, s2.remove(a));
        assert(s1.union(s2) =~= s1.union(s2.remove(a)).insert(a));
        assert(!s1.union(s2.remove(a)).contains(a));
    }
}

/// A column of `d - c` rows holds `d - c` cells.
proof fn lemma_column_card(x: int, c: int, d: int)
    requires
        c <= d,
    ensures
        column(x, c, d).finite(),
        column(x, c, d).len() == d - c,
    decreases d - c,
{
    if c == d {
        assert(column(x, c, d) =~= Set::<(int, int)>::empty());
    } else {
        lemma_column_card(x, c, d - 1);
        assert(column(x, c, d) =~= column(x, c, d - 1).insert((x, d - 1)));
        assert(!column(x, c, d - 1).contains((x, d - 1)));
    }
}

/// A rectangle of `b - a` columns and `d - c` rows holds their product
/// in cells.
proof fn lemma_rect_card(a: int, b: int, c: int, d: int)
    requires
        a <= b,
        c <= d,
    ensures
        rect(a, b, c, d).finite(),
        rect(a, b, c, d).len() == (b - a) * (d - c),
    decreases b - a,
{
    if a == b {
        assert(rect(a, b, c, d) =~= Set::<(int, int)>::empty());
        assert((b - a) * (d - c) == 0) by (nonlinear_arith)
            requires b - a == 0;
    } else {
        lemma_rect_card(a, b - 1, c, d);
        lemma_column_card(b - 1, c, d);
        assert(rect(a, b - 1, c, d).disjoint(column(b - 1, c, d)));
        lemma_len_disjoint_union(rect(a, b - 1, c, d), column(b - 1, c, d));
        assert(rect(a, b, c, d) =~= rect(a, b - 1, c, d).union(column(b - 1, c, d)));
        assert((b - 1 - a) * (d - c) + (d - c) == (b - a) * (d - c)) by (nonlinear_arith);
    }
}

/// Law: the brush always covers exactly `brush_size(mode)` cells — one
/// for `Single`, nine for `Block3x3`, twenty-five for `Block5x5` — for
/// any anchor.
pub proof fn lemma_brush_cells_size(anchor: (int, int), mode: DrawMode)
    ensures
        brush_cells(anchor, mode).finite(),
        brush_cells(anchor, mode).len() == brush_size(mode),
{
    let r = brush_radius(mode);
    assert(brush_cells(anchor, mode) =~= rect(
        anchor.0 - r,
        anchor.0 + r + 1,
        anchor.1 - r,
        anchor.1 + r + 1,
    ));
    lemma_rect_card(anchor.0 - r, anchor.0 + r + 1, anchor.1 - r, anchor.1 + r + 1);
    match mode {
        DrawMode::Single => {
            assert((2 * r + 1) * (2 * r + 1) == 1) by (nonlinear_arith)
                requires r == 0;
        }
        DrawMode::Block3x3 => {
            assert((2 * r + 1) * (2 * r + 1) == 9) by (nonlinear_arith)
                requires r == 1;
        }
        DrawMode::Block5x5 => {
            assert((2 * r + 1) * (2 * r + 1) == 25) by (nonlinear_arith)
                requires r == 2;
        }
    }
}

/// The cells a cursor-hover preview should highlight: the same set the
/// brush would affect, so the preview and the action always agree.
pub fn preview_cells(anchor: Cell, mode: DrawMode) -> (r: Vec<Cell>)
    requires
        anchor_in_range(anchor@, mode),
    ensures
        r@.map_values(|c: Cell| c@).no_duplicates(),
        r@.map_values(|c: Cell| c@).to_set() == brush_cells(anchor@, mode),
        r@.len() == brush_size(mode),
{
    affected_cells(anchor, mode)
}

} // verus!
