//! The coordinate mapper: between continuous world positions and
//! discrete grid cells.
//!
//! World positions are measured in integer world units; one cell is an
//! axis-aligned square of side `cell_size` units.  Mapping a position
//! to a cell uses floor-division on both axes independently, so
//! negative coordinates map without bias toward zero; a position at an
//! exact multiple of the cell size belongs to the cell whose origin is
//! that multiple.  The inverse mapping returns the cell's origin (its
//! lower-left corner).

use vstd::prelude::*;
use vstd::arithmetic::div_mod::lemma_fundamental_div_mod;
use vstd::arithmetic::div_mod::lemma_fundamental_div_mod_converse;
use vstd::arithmetic::div_mod::lemma_mod_division_less_than_divisor;
use crate::cell::Cell;

verus! {

/// World units per cell side, the geometric scale shared by the mapper
/// and the renderer.  Fixed for the whole session.
pub const CELL_SIZE: i64 = 10;

/// The index of the cell whose span of `size` units contains world
/// coordinate `w`: the floor of `w / size`.  For a positive divisor the
/// quotient is the floor, so negative coordinates round down, never
/// toward zero.
pub open spec fn cell_index(w: int, size: int) -> int
    recommends
        size > 0,
{
    w / size
}

/// The world coordinate of the origin (lower/left edge) of cell `c`.
pub open spec fn cell_origin(c: int, size: int) -> int {
    c * size
}

/// Floor division of a world coordinate by the cell size.
fn floor_div(w: i64, size: i64) -> (q: i64)
    requires
        size > 0,
    ensures
        q == cell_index(w as int, size as int),
{
    let s: u128 = size as u128;
    if w >= 0 {
        let qn: u128 = (w as u128) / s;
        proof {
            assert(qn == w as int / size as int);
            vstd::arithmetic::div_mod::lemma_div_nonincreasing(w as int, size as int);
        }
        qn as i64
    } else {
        let a: u128 = (-(w as i128)) as u128;
        let q0: u128 = (a + s - 1) / s;
        proof {
            let ai = a as int;
            let si = size as int;
            let q0i = q0 as int;
            lemma_fundamental_div_mod(ai + si - 1, si);
            lemma_mod_division_less_than_divisor(ai + si - 1, si);
            let r0 = (ai + si - 1) % si;
            assert(ai + si - 1 == si * q0i + r0);
            assert((-q0i) * si + (si * q0i - ai) == -ai) by (nonlinear_arith);
            lemma_fundamental_div_mod_converse(-ai, si, -q0i, si * q0i - ai);
            assert(-q0i == (w as int) / si);
            assert(q0i <= ai) by (nonlinear_arith)
                requires
                    si >= 1,
                    ai >= 1,
                    si * q0i == ai + si - 1 - r0,
                    0 <= r0 < si;
        }
        let qi: i128 = -(q0 as i128);
        qi as i64
    }
}

/// Maps a continuous world position to the grid cell whose axis-aligned
/// square of side `size` contains it, by floor division on each axis.
pub fn world_to_cell(wx: i64, wy: i64, size: i64) -> (c: Cell)
    requires
        size > 0,
    ensures
        c@ == (cell_index(wx as int, size as int), cell_index(wy as int, size as int)),
{
    Cell::new(floor_div(wx, size), floor_div(wy, size))
}

/// Maps a grid cell back to the world position of its origin, the
/// inverse used for rendering and preview placement.
pub fn cell_to_world(c: Cell, size: i64) -> (w: (i64, i64))
    requires
        size > 0,
        i64::MIN <= c@.0 * size <= i64::MAX,
        i64::MIN <= c@.1 * size <= i64::MAX,
    ensures
        w.0 as int == cell_origin(c@.0, size as int),
        w.1 as int == cell_origin(c@.1, size as int),
{
    (c.x * size, c.y * size)
}

/// Law: for any world coordinate, mapping to its cell and back to that
/// cell's origin lands at most one cell width below the coordinate, and
/// a coordinate at an exact multiple of the cell size maps to the cell
/// whose origin equals that multiple.
pub proof fn lemma_world_cell_round_trip(w: int, size: int)
    requires
        size > 0,
    ensures
        cell_origin(cell_index(w, size), size) <= w,
        w < cell_origin(cell_index(w, size), size) + size,
        w % size == 0 ==> cell_origin(cell_index(w, size), size) == w,
{
    lemma_fundamental_div_mod(w, size);
    lemma_mod_division_less_than_divisor(w, size);
    vstd::arithmetic::mul::lemma_mul_is_commutative(w / size, size);
    assert(cell_origin(cell_index(w, size), size) == size * (w / size));
}

} // verus!
