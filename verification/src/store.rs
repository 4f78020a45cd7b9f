//! The sparse set of currently-alive cells.
//!
//! The grid is unbounded, so alive cells are stored sparsely: a cell is
//! alive exactly when its coordinate is present in the store.  The store
//! is modelled in specifications as a finite set of integer pairs; the
//! executable representation is a duplicate-free vector of cells.

use vstd::prelude::*;
use crate::cell::Cell;
use crate::cell::in_cell_range;

verus! {

/// The set of currently-alive cells.
///
/// Absence of a coordinate means the cell is dead.  `remove` of an
/// absent cell and `insert` of a present cell are no-ops; iteration
/// order is irrelevant to correctness.
pub struct CellStore {
    cells: Vec<Cell>,
}

impl View for CellStore {
    type V = Set<(int, int)>;

    closed spec fn view(&self) -> Set<(int, int)> {
        self.seq().to_set()
    }
}

impl CellStore {
    /// The stored cells as a sequence of coordinate pairs, in internal
    /// order.  Internal order carries no meaning; the store's contents
    /// are its view, a set.
    pub closed spec fn seq(&self) -> Seq<(int, int)> {
        self.cells@.map_values(|c: Cell| c@)
    }

    /// Well-formedness: no coordinate is stored twice.
    pub closed spec fn inv(&self) -> bool {
        self.seq().no_duplicates()
    }

    /// Every stored coordinate is representable: the store holds views
    /// of cells, so nothing outside the coordinate range is ever alive.
    pub proof fn lemma_all_in_range(&self)
        ensures
            forall|p: (int, int)| self@.contains(p) ==> in_cell_range(p),
    {
        assert forall|p: (int, int)| self@.contains(p) implies in_cell_range(p) by {
            let j = choose|j: int| 0 <= j < self.seq().len() && self.seq()[j] == p;
            assert(self.seq()[j] == self.cells@[j]@);
        }
    }

    /// Creates an empty store: every cell is dead.
    pub fn new() -> (s: CellStore)
        ensures
            s.inv(),
            s@ == Set::<(int, int)>::empty(),
    {
        let s = CellStore { cells: Vec::new() };
        proof {
            assert(s@ =~= Set::<(int, int)>::empty());
        }
        s
    }

    /// Whether `c` is alive.
    pub fn contains(&self, c: Cell) -> (r: bool)
        ensures
            r == self@.contains(c@),
    {
        let n = self.cells.len();
        let mut i: usize = 0;
        while i < n
            invariant
                n == self.cells.len(),
                i <= n,
                forall|j: int| 0 <= j < i ==> self.seq()[j] != c@,
            decreases n - i,
        {
            if self.cells[i] == c {
                proof {
                    assert(self.seq()[i as int] == c@);
                    assert(self.seq().contains(c@));
                }
                return true;
            }
            i += 1;
        }
        proof {
            assert(!self.seq().contains(c@));
        }
        false
    }

    /// Makes `c` alive.  A no-op when `c` is already present.
    pub fn insert(&mut self, c: Cell)
        requires
            old(self).inv(),
        ensures
            final(self).inv(),
            final(self)@ == old(self)@.insert(c@),
    {
        if !self.contains(c) {
            self.cells.push(c);
            proof {
                assert(self.seq() =~= old(self).seq().push(c@));
                assert forall|i: int, j: int|
                    0 <= i < self.seq().len() && 0 <= j < self.seq().len() && i != j
                    implies self.seq()[i] != self.seq()[j] by {
                    if i == old(self).seq().len() {
                        assert(!old(self).seq().contains(c@));
                    }
                    if j == old(self).seq().len() {
                        assert(!old(self).seq().contains(c@));
                    }
                }
                let s0 = old(self).seq();
                assert forall|p: (int, int)| old(self)@.insert(c@).contains(p)
                    implies self@.contains(p) by {
                    if p == c@ {
                        assert(self.seq()[s0.len() as int] == c@);
                        assert(self.seq().contains(p));
                    } else {
                        let j = choose|j: int| 0 <= j < s0.len() && s0[j] == p;
                        assert(self.seq()[j] == p);
                        assert(self.seq().contains(p));
                    }
                }
                assert forall|p: (int, int)| self@.contains(p)
                    implies old(self)@.insert(c@).contains(p) by {
                    let j = choose|j: int|
                        0 <= j < self.seq().len() && self.seq()[j] == p;
                    if j < s0.len() {
                        assert(s0[j] == p);
                        assert(s0.contains(p));
                    } else {
                        assert(p == c@);
                    }
                }
                assert(self@ =~= old(self)@.insert(c@));
            }
        } else {
            proof {
                assert(old(self)@.insert(c@) =~= old(self)@);
            }
        }
    }

    /// Makes `c` dead.  A no-op when `c` is already absent.
    pub fn remove(&mut self, c: Cell)
        requires
            old(self).inv(),
        ensures
            final(self).inv(),
            final(self)@ == old(self)@.remove(c@),
    {
        let n = self.cells.len();
        let mut i: usize = 0;
        while i < n
            invariant
                *self == *old(self),
                old(self).inv(),
                n == self.cells.len(),
                i <= n,
                forall|j: int| 0 <= j < i ==> self.seq()[j] != c@,
            decreases n - i,
        {
            if self.cells[i] == c {
                proof {
                    assert(self.seq()[i as int] == c@);
                }
                self.cells.swap_remove(i);
                proof {
                    self.lemma_after_swap_remove(*old(self), i as int, c@);
                }
                return;
            }
            i += 1;
        }
        proof {
            assert(!self.seq().contains(c@));
            assert(old(self)@.remove(c@) =~= old(self)@);
        }
    }

    /// After removing the element at `i` (a cell with coordinate `p`)
    /// by swapping in the last element, the store holds the old set
    /// minus `p`, still without duplicates.
    proof fn lemma_after_swap_remove(&self, prev: CellStore, i: int, p: (int, int))
        requires
            prev.inv(),
            0 <= i < prev.cells@.len(),
            prev.seq()[i] == p,
            self.cells@ == prev.cells@.update(i, prev.cells@.last()).drop_last(),
        ensures
            self.inv(),
            self@ == prev@.remove(p),
    {
        let n = prev.seq().len();
        assert(self.seq() =~= prev.seq().update(i, prev.seq().last()).drop_last());
        assert forall|a: int, b: int|
            0 <= a < self.seq().len() && 0 <= b < self.seq().len() && a != b
            implies self.seq()[a] != self.seq()[b] by {
            let ra: int = if a == i { n - 1 } else { a };
            let rb: int = if b == i { n - 1 } else { b };
            assert(self.seq()[a] == prev.seq()[ra]);
            assert(self.seq()[b] == prev.seq()[rb]);
        }
        assert forall|q: (int, int)| self@.contains(q) implies
            prev@.contains(q) && q != p by {
            let j = choose|j: int| 0 <= j < self.seq().len() && self.seq()[j] == q;
            let rj: int = if j == i { n - 1 } else { j };
            assert(prev.seq()[rj] == q);
            assert(prev.seq().contains(q));
            assert(rj != i);
            assert(q != p);
        }
        assert forall|q: (int, int)| prev@.contains(q) && q != p implies
            self@.contains(q) by {
            let j = choose|j: int| 0 <= j < n && prev.seq()[j] == q;
            assert(j != i);
            if j == n - 1 {
                if i < n - 1 {
                    assert(self.seq()[i] == q);
                    assert(self.seq().contains(q));
                }
            } else {
                assert(self.seq()[j] == q);
                assert(self.seq().contains(q));
            }
        }
        assert(self@ =~= prev@.remove(p));
    }

    /// Kills every cell at once.
    pub fn clear(&mut self)
        ensures
            final(self).inv(),
            final(self)@ == Set::<(int, int)>::empty(),
    {
        self.cells.clear();
        proof {
            assert(self@ =~= Set::<(int, int)>::empty());
        }
    }

    /// The number of alive cells.
    pub fn count(&self) -> (n: usize)
        requires
            self.inv(),
        ensures
            n == self@.len(),
    {
        proof {
            self.seq().unique_seq_to_set();
        }
        self.cells.len()
    }

    /// A snapshot of the alive cells, each exactly once, in an order
    /// that carries no meaning.
    pub fn iterate(&self) -> (r: Vec<Cell>)
        requires
            self.inv(),
        ensures
            r@.map_values(|c: Cell| c@).no_duplicates(),
            r@.map_values(|c: Cell| c@).to_set() == self@,
            r@.len() == self@.len(),
    {
        let n = self.cells.len();
        let mut r: Vec<Cell> = Vec::new();
        let mut i: usize = 0;
        while i < n
            invariant
                n == self.cells.len(),
                i <= n,
                r@ == self.cells@.subrange(0, i as int),
            decreases n - i,
        {
            r.push(self.cells[i]);
            proof {
                assert(r@ =~= self.cells@.subrange(0, i + 1));
            }
            i += 1;
        }
        proof {
            assert(r@ =~= self.cells@);
            assert(r@.map_values(|c: Cell| c@) =~= self.seq());
            self.seq().unique_seq_to_set();
        }
        r
    }
}

/// Law: inserting an already-present cell leaves the store's contents,
/// and hence its count, unchanged.
pub proof fn lemma_insert_present_is_noop(s: Set<(int, int)>, c: (int, int))
    requires
        s.contains(c),
    ensures
        s.insert(c) == s,
{
    assert(s.insert(c) =~= s);
}

/// Law: removing an already-absent cell leaves the store's contents,
/// and hence its count, unchanged.
pub proof fn lemma_remove_absent_is_noop(s: Set<(int, int)>, c: (int, int))
    requires
        !s.contains(c),
    ensures
        s.remove(c) == s,
{
    assert(s.remove(c) =~= s);
}

} // verus!
