//! The generation engine: computes the next generation of the Game of
//! Life from the current cell store.
//!
//! Conceptually, one pass over the alive cells builds a neighbor-count
//! table whose keys are exactly the cells with at least one alive
//! neighbor; the rule then keeps each key with count three (birth or
//! survival) or count two when already alive (survival).  Here the
//! table's key set is gathered first and each key's count is then read
//! off the store, which yields the same generation: a cell with no
//! alive neighbor can never be alive next and never enters the table.

use vstd::prelude::*;
use crate::cell::Cell;
use crate::cell::adjacent;
use crate::cell::in_cell_range;
use crate::store::CellStore;

verus! {

/// One when the cell at `(x, y)` is alive in `s`, zero when dead.
pub open spec fn ind(s: Set<(int, int)>, x: int, y: int) -> int {
    if s.contains((x, y)) {
        1
    } else {
        0
    }
}

/// The neighbor count of the cell at `(x, y)`: how many of its eight
/// axis- and diagonal-adjacent cells are alive in `s`.  Bounded by
/// eight; the cell itself is never counted.
pub open spec fn live_neighbors(s: Set<(int, int)>, x: int, y: int) -> int {
    ind(s, x - 1, y - 1) + ind(s, x, y - 1) + ind(s, x + 1, y - 1) + ind(s, x - 1, y) + ind(
        s,
        x + 1,
        y,
    ) + ind(s, x - 1, y + 1) + ind(s, x, y + 1) + ind(s, x + 1, y + 1)
}

/// The birth/survival rule: a cell is alive in the next generation
/// exactly when its neighbor count is three (regardless of its current
/// state), or its neighbor count is two and it is already alive.
pub open spec fn rule_alive(s: Set<(int, int)>, p: (int, int)) -> bool {
    ||| live_neighbors(s, p.0, p.1) == 3
    ||| (live_neighbors(s, p.0, p.1) == 2 && s.contains(p))
}

/// The next generation of `s`: every representable cell that the rule
/// keeps alive.  Cells beyond the representable coordinate range are
/// treated as permanently dead.
pub open spec fn next_gen(s: Set<(int, int)>) -> Set<(int, int)> {
    Set::new(|p: (int, int)| in_cell_range(p) && rule_alive(s, p))
}

/// The generation reached from `s` after `n` advances.
pub open spec fn next_gen_iter(s: Set<(int, int)>, n: nat) -> Set<(int, int)>
    decreases n,
{
    if n == 0 {
        s
    } else {
        next_gen(next_gen_iter(s, (n - 1) as nat))
    }
}

/// Law: the next generation is a function of the set of alive cells
/// alone, so advancing twice from the same snapshot gives the same
/// result, whatever order the cells were stored or visited in.
pub proof fn lemma_next_gen_deterministic(s1: Set<(int, int)>, s2: Set<(int, int)>)
    requires
        s1 == s2,
    ensures
        next_gen(s1) == next_gen(s2),
{
}

/// One if the neighbor of `(x, y)` at offset `(dx, dy)` is alive, zero
/// otherwise.  An offset that leaves the representable range denotes a
/// cell that cannot be stored, hence counts zero.
fn probe(store: &CellStore, x: i64, y: i64, dx: i64, dy: i64) -> (b: u8)
    requires
        -1 <= dx <= 1,
        -1 <= dy <= 1,
    ensures
        b as int == ind(store@, x as int + dx as int, y as int + dy as int),
        b <= 1,
{
    let in_range = (dx >= 0 || x > i64::MIN) && (dx <= 0 || x < i64::MAX) && (dy >= 0 || y
        > i64::MIN) && (dy <= 0 || y < i64::MAX);
    if in_range {
        if store.contains(Cell::new(x + dx, y + dy)) {
            1
        } else {
            0
        }
    } else {
        proof {
            store.lemma_all_in_range();
            assert(!in_cell_range((x as int + dx as int, y as int + dy as int)));
        }
        0
    }
}

/// Counts the alive neighbors of `c`: the value the neighbor-count
/// table holds for `c` when `c` has an alive neighbor at all.
pub fn live_neighbor_count(store: &CellStore, c: Cell) -> (n: u8)
    ensures
        n as int == live_neighbors(store@, c@.0, c@.1),
        n <= 8,
{
    let mut n: u8 = 0;
    n += probe(store, c.x, c.y, -1, -1);
    n += probe(store, c.x, c.y, 0, -1);
    n += probe(store, c.x, c.y, 1, -1);
    n += probe(store, c.x, c.y, -1, 0);
    n += probe(store, c.x, c.y, 1, 0);
    n += probe(store, c.x, c.y, -1, 1);
    n += probe(store, c.x, c.y, 0, 1);
    n += probe(store, c.x, c.y, 1, 1);
    n
}

/// Inserts the neighbor of `(x, y)` at offset `(dx, dy)` into `cands`
/// when that neighbor is representable; otherwise leaves `cands` as it
/// is.
fn insert_offset(cands: &mut CellStore, x: i64, y: i64, dx: i64, dy: i64)
    requires
        old(cands).inv(),
        -1 <= dx <= 1,
        -1 <= dy <= 1,
    ensures
        final(cands).inv(),
        final(cands)@ == (if in_cell_range((x as int + dx as int, y as int + dy as int)) {
            old(cands)@.insert((x as int + dx as int, y as int + dy as int))
        } else {
            old(cands)@
        }),
{
    let in_range = (dx >= 0 || x > i64::MIN) && (dx <= 0 || x < i64::MAX) && (dy >= 0 || y
        > i64::MIN) && (dy <= 0 || y < i64::MAX);
    if in_range {
        cands.insert(Cell::new(x + dx, y + dy));
    }
}

/// Inserts every representable neighbor of `c` into `cands`: the
/// contribution one alive cell makes to the neighbor-count table's key
/// set.
fn insert_neighbors(cands: &mut CellStore, c: Cell)
    requires
        old(cands).inv(),
    ensures
        final(cands).inv(),
        forall|p: (int, int)|
            final(cands)@.contains(p) <==> old(cands)@.contains(p) || (in_cell_range(p)
                && adjacent(c@, p)),
{
    insert_offset(cands, c.x, c.y, -1, -1);
    insert_offset(cands, c.x, c.y, 0, -1);
    insert_offset(cands, c.x, c.y, 1, -1);
    insert_offset(cands, c.x, c.y, -1, 0);
    insert_offset(cands, c.x, c.y, 1, 0);
    insert_offset(cands, c.x, c.y, -1, 1);
    insert_offset(cands, c.x, c.y, 0, 1);
    insert_offset(cands, c.x, c.y, 1, 1);
}

/// The neighbor-count table's key set once the first `i` alive cells
/// have contributed: every representable cell adjacent to one of them.
spec fn neighbor_keys(vs: Seq<(int, int)>, i: int) -> Set<(int, int)> {
    Set::new(
        |p: (int, int)|
            in_cell_range(p) && exists|j: int| 0 <= j < i && adjacent(vs[j], p),
    )
}

/// The cells kept by the rule among the first `k` table keys.
spec fn kept_prefix(cvs: Seq<(int, int)>, s: Set<(int, int)>, k: int) -> Set<(int, int)> {
    Set::new(
        |p: (int, int)|
            rule_alive(s, p) && exists|j: int| 0 <= j < k && cvs[j] == p,
    )
}

/// Computes the next generation of `current` under the birth/survival
/// rule, as a brand-new store; `current` is read, never mutated.  The
/// result depends only on which cells are alive, not on any internal
/// order.
pub fn advance(current: &CellStore) -> (next: CellStore)
    requires
        current.inv(),
    ensures
        next.inv(),
        next@ == next_gen(current@),
{
    let snap = current.iterate();
    let ghost vs = snap@.map_values(|c: Cell| c@);

    // The key set of the neighbor-count table: every representable
    // cell adjacent to at least one alive cell.
    let mut cands = CellStore::new();
    proof {
        assert(cands@ =~= neighbor_keys(vs, 0));
    }
    let n = snap.len();
    let mut i: usize = 0;
    while i < n
        invariant
            n == snap@.len(),
            i <= n,
            vs == snap@.map_values(|c: Cell| c@),
            vs.to_set() == current@,
            cands.inv(),
            cands@ == neighbor_keys(vs, i as int),
        decreases n - i,
    {
        let ghost prev = cands@;
        let c = snap[i];
        proof {
            assert(snap@.map_values(|cc: Cell| cc@)[i as int] == snap@[i as int]@);
            assert(vs[i as int] == c@);
        }
        insert_neighbors(&mut cands, c);
        proof {
            assert forall|p: (int, int)|
                cands@.contains(p) == neighbor_keys(vs, i + 1).contains(p) by {
                if cands@.contains(p) {
                    if prev.contains(p) {
                        assert(neighbor_keys(vs, i as int).contains(p));
                        let j = choose|j: int| 0 <= j < i && adjacent(vs[j], p);
                        assert(0 <= j < i + 1 && adjacent(vs[j], p));
                    } else {
                        assert(adjacent(vs[i as int], p));
                        assert(exists|j: int| 0 <= j < i + 1 && adjacent(vs[j], p));
                    }
                    assert(neighbor_keys(vs, i + 1).contains(p));
                }
                if neighbor_keys(vs, i + 1).contains(p) {
                    let j = choose|j: int| 0 <= j < i + 1 && adjacent(vs[j], p);
                    if j < i {
                        assert(neighbor_keys(vs, i as int).contains(p));
                        assert(prev.contains(p));
                    } else {
                        assert(adjacent(c@, p));
                    }
                    assert(cands@.contains(p));
                }
            }
            assert(cands@ =~= neighbor_keys(vs, i + 1));
        }
        i += 1;
    }

    // Read each key's count off the current store and apply the rule.
    let clist = cands.iterate();
    let ghost cvs = clist@.map_values(|c: Cell| c@);
    let m = clist.len();
    let mut next = CellStore::new();
    proof {
        assert(next@ =~= kept_prefix(cvs, current@, 0));
    }
    let mut k: usize = 0;
    while k < m
        invariant
            m == clist@.len(),
            k <= m,
            cvs == clist@.map_values(|c: Cell| c@),
            cvs.to_set() == cands@,
            current.inv(),
            vs == snap@.map_values(|c: Cell| c@),
            vs.to_set() == current@,
            cands.inv(),
            cands@ == neighbor_keys(vs, vs.len() as int),
            next.inv(),
            next@ == kept_prefix(cvs, current@, k as int),
        decreases m - k,
    {
        let c = clist[k];
        proof {
            assert(clist@.map_values(|cc: Cell| cc@)[k as int] == clist@[k as int]@);
            assert(cvs[k as int] == c@);
        }
        let count = live_neighbor_count(current, c);
        let ghost prev = next@;
        if count == 3 || (count == 2 && current.contains(c)) {
            next.insert(c);
            proof {
                assert(rule_alive(current@, c@));
            }
        }
        proof {
            assert forall|p: (int, int)|
                next@.contains(p) == kept_prefix(cvs, current@, k + 1).contains(p) by {
                if next@.contains(p) {
                    if prev.contains(p) {
                        assert(kept_prefix(cvs, current@, k as int).contains(p));
                        let j = choose|j: int| 0 <= j < k && cvs[j] == p;
                        assert(0 <= j < k + 1 && cvs[j] == p);
                    } else {
                        assert(p == c@);
                        assert(cvs[k as int] == p);
                        assert(exists|j: int| 0 <= j < k + 1 && cvs[j] == p);
                    }
                    assert(kept_prefix(cvs, current@, k + 1).contains(p));
                }
                if kept_prefix(cvs, current@, k + 1).contains(p) {
                    let j = choose|j: int| 0 <= j < k + 1 && cvs[j] == p;
                    if j < k {
                        assert(kept_prefix(cvs, current@, k as int).contains(p));
                        assert(prev.contains(p));
                    } else {
                        assert(p == c@);
                    }
                    assert(next@.contains(p));
                }
            }
            assert(next@ =~= kept_prefix(cvs, current@, k + 1));
        }
        k += 1;
    }

    proof {
        assert forall|p: (int, int)| next@.contains(p) implies next_gen(current@).contains(p) by {
            assert(kept_prefix(cvs, current@, m as int).contains(p));
            let j = choose|j: int| 0 <= j < m && cvs[j] == p;
            assert(cvs.contains(p));
            assert(cands@.contains(p));
            assert(neighbor_keys(vs, vs.len() as int).contains(p));
        }
        assert forall|p: (int, int)| next_gen(current@).contains(p) implies next@.contains(p) by {
            // A cell the rule keeps has at least two alive neighbors, so
            // some adjacent cell is alive and p is a table key.
            assert(live_neighbors(current@, p.0, p.1) >= 2);
            lemma_some_neighbor_alive(current@, p);
            let q = choose|q: (int, int)| current@.contains(q) && adjacent(q, p);
            assert(vs.to_set().contains(q));
            let j = choose|j: int| 0 <= j < vs.len() && vs[j] == q;
            assert(adjacent(vs[j], p));
            assert(neighbor_keys(vs, vs.len() as int).contains(p));
            assert(cands@.contains(p));
            assert(cvs.to_set().contains(p));
            let jj = choose|jj: int| 0 <= jj < cvs.len() && cvs[jj] == p;
            assert(0 <= jj < m && cvs[jj] == p);
            assert(kept_prefix(cvs, current@, m as int).contains(p));
        }
        assert(next@ =~= next_gen(current@));
    }
    next
}

/// A cell with a positive neighbor count has an alive cell adjacent to
/// it: one of the eight indicator terms is one.
proof fn lemma_some_neighbor_alive(s: Set<(int, int)>, p: (int, int))
    requires
        live_neighbors(s, p.0, p.1) >= 1,
    ensures
        exists|q: (int, int)| s.contains(q) && adjacent(q, p),
{
    let x = p.0;
    let y = p.1;
    if s.contains((x - 1, y - 1)) {
        assert(s.contains((x - 1, y - 1)) && adjacent((x - 1, y - 1), p));
    } else if s.contains((x, y - 1)) {
        assert(s.contains((x, y - 1)) && adjacent((x, y - 1), p));
    } else if s.contains((x + 1, y - 1)) {
        assert(s.contains((x + 1, y - 1)) && adjacent((x + 1, y - 1), p));
    } else if s.contains((x - 1, y)) {
        assert(s.contains((x - 1, y)) && adjacent((x - 1, y), p));
    } else if s.contains((x + 1, y)) {
        assert(s.contains((x + 1, y)) && adjacent((x + 1, y), p));
    } else if s.contains((x - 1, y + 1)) {
        assert(s.contains((x - 1, y + 1)) && adjacent((x - 1, y + 1), p));
    } else if s.contains((x, y + 1)) {
        assert(s.contains((x, y + 1)) && adjacent((x, y + 1), p));
    } else if s.contains((x + 1, y + 1)) {
        assert(s.contains((x + 1, y + 1)) && adjacent((x + 1, y + 1), p));
    } else {
        assert(live_neighbors(s, x, y) == 0);
    }
}

} // verus!
