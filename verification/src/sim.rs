//! The simulation context: the cell store, the active draw mode, the
//! pause flag and the tick scheduler, owned together and mutated only
//! through the methods here.
//!
//! Input events (paint, erase, mode switch, pause toggle, clear) act on
//! the state directly and synchronously.  Elapsed time is fed to
//! `advance_time`, which while running fires exactly one generation
//! advance per full tick interval accumulated — several per call when a
//! frame was slow — and carries the remainder over; while paused it
//! does nothing at all.

use vstd::prelude::*;
use vstd::arithmetic::div_mod::lemma_fundamental_div_mod_converse;
use crate::brush::DrawMode;
use crate::brush::affected_cells;
use crate::brush::anchor_in_range;
use crate::brush::brush_cells;
use crate::cell::Cell;
use crate::engine::advance;
use crate::engine::next_gen_iter;
use crate::store::CellStore;

verus! {

/// Milliseconds between consecutive generation advances while the
/// simulation is running.  Fixed for the whole session.
pub const TICK_INTERVAL_MS: u64 = 70;

/// One simulation: alive cells, active brush shape, pause flag and the
/// elapsed time not yet spent on whole ticks.
pub struct Simulation {
    store: CellStore,
    mode: DrawMode,
    paused: bool,
    acc_ms: u64,
}

impl Simulation {
    /// The set of alive cells.
    pub closed spec fn cells(&self) -> Set<(int, int)> {
        self.store@
    }

    /// The active draw mode.
    pub closed spec fn mode(&self) -> DrawMode {
        self.mode
    }

    /// Whether the simulation is paused.
    pub closed spec fn paused(&self) -> bool {
        self.paused
    }

    /// Elapsed milliseconds accumulated toward the next tick.
    pub closed spec fn accumulated(&self) -> int {
        self.acc_ms as int
    }

    /// Well-formedness: the store holds no duplicates and the
    /// accumulator never reaches a whole tick interval, since whole
    /// intervals are spent as soon as they accrue.
    pub closed spec fn inv(&self) -> bool {
        &&& self.store.inv()
        &&& self.acc_ms < TICK_INTERVAL_MS
    }

    /// A fresh simulation: no alive cells, single-cell brush, paused so
    /// the user can draw an initial pattern before running it.
    pub fn new() -> (s: Simulation)
        ensures
            s.inv(),
            s.cells() == Set::<(int, int)>::empty(),
            s.mode() == DrawMode::Single,
            s.paused(),
            s.accumulated() == 0,
    {
        Simulation { store: CellStore::new(), mode: DrawMode::Single, paused: true, acc_ms: 0 }
    }

    /// Paints with the active brush anchored at `anchor`: every cell
    /// the brush covers becomes alive.  Already-alive cells stay so.
    pub fn paint(&mut self, anchor: Cell)
        requires
            old(self).inv(),
            anchor_in_range(anchor@, old(self).mode()),
        ensures
            final(self).inv(),
            final(self).cells() == old(self).cells().union(
                brush_cells(anchor@, old(self).mode()),
            ),
            final(self).mode() == old(self).mode(),
            final(self).paused() == old(self).paused(),
            final(self).accumulated() == old(self).accumulated(),
    {
        let cs = affected_cells(anchor, self.mode);
        let ghost bvs = cs@.map_values(|c: Cell| c@);
        let n = cs.len();
        let mut i: usize = 0;
        proof {
            assert(self.store@ =~= old(self).cells().union(bvs.take(0).to_set()));
        }
        while i < n
            invariant
                n == cs@.len(),
                i <= n,
                bvs == cs@.map_values(|c: Cell| c@),
                bvs.to_set() == brush_cells(anchor@, old(self).mode()),
                self.store.inv(),
                self.store@ == old(self).cells().union(bvs.take(i as int).to_set()),
                self.mode == old(self).mode,
                self.paused == old(self).paused,
                self.acc_ms == old(self).acc_ms,
            decreases n - i,
        {
            let c = cs[i];
            proof {
                assert(cs@.map_values(|cc: Cell| cc@)[i as int] == cs@[i as int]@);
                assert(bvs[i as int] == c@);
            }
            self.store.insert(c);
            proof {
                assert(bvs.take(i + 1) =~= bvs.take(i as int).push(c@));
                bvs.take(i as int).lemma_push_to_set_commute(c@);
                assert(self.store@ =~= old(self).cells().union(bvs.take(i + 1).to_set()));
            }
            i += 1;
        }
        proof {
            assert(bvs.take(n as int) =~= bvs);
        }
    }

    /// Erases with the active brush anchored at `anchor`: every cell
    /// the brush covers becomes dead.  Already-dead cells stay so.
    pub fn erase(&mut self, anchor: Cell)
        requires
            old(self).inv(),
            anchor_in_range(anchor@, old(self).mode()),
        ensures
            final(self).inv(),
            final(self).cells() == old(self).cells().difference(
                brush_cells(anchor@, old(self).mode()),
            ),
            final(self).mode() == old(self).mode(),
            final(self).paused() == old(self).paused(),
            final(self).accumulated() == old(self).accumulated(),
    {
        let cs = affected_cells(anchor, self.mode);
        let ghost bvs = cs@.map_values(|c: Cell| c@);
        let n = cs.len();
        let mut i: usize = 0;
        proof {
            assert(self.store@ =~= old(self).cells().difference(bvs.take(0).to_set()));
        }
        while i < n
            invariant
                n == cs@.len(),
                i <= n,
                bvs == cs@.map_values(|c: Cell| c@),
                bvs.to_set() == brush_cells(anchor@, old(self).mode()),
                self.store.inv(),
                self.store@ == old(self).cells().difference(bvs.take(i as int).to_set()),
                self.mode == old(self).mode,
                self.paused == old(self).paused,
                self.acc_ms == old(self).acc_ms,
            decreases n - i,
        {
            let c = cs[i];
            proof {
                assert(cs@.map_values(|cc: Cell| cc@)[i as int] == cs@[i as int]@);
                assert(bvs[i as int] == c@);
            }
            self.store.remove(c);
            proof {
                assert(bvs.take(i + 1) =~= bvs.take(i as int).push(c@));
                bvs.take(i as int).lemma_push_to_set_commute(c@);
                assert(self.store@ =~= old(self).cells().difference(bvs.take(i + 1).to_set()));
            }
            i += 1;
        }
        proof {
            assert(bvs.take(n as int) =~= bvs);
        }
    }

    /// Selects the brush shape for subsequent paint and erase actions.
    pub fn set_draw_mode(&mut self, mode: DrawMode)
        requires
            old(self).inv(),
        ensures
            final(self).inv(),
            final(self).mode() == mode,
            final(self).cells() == old(self).cells(),
            final(self).paused() == old(self).paused(),
            final(self).accumulated() == old(self).accumulated(),
    {
        self.mode = mode;
    }

    /// Switches between paused and running.
    pub fn toggle_pause(&mut self)
        requires
            old(self).inv(),
        ensures
            final(self).inv(),
            final(self).paused() == !old(self).paused(),
            final(self).cells() == old(self).cells(),
            final(self).mode() == old(self).mode(),
            final(self).accumulated() == old(self).accumulated(),
    {
        self.paused = !self.paused;
    }

    /// Kills every cell, the user-triggered reset.  Mode, pause state
    /// and the tick accumulator are untouched.
    pub fn clear_all(&mut self)
        requires
            old(self).inv(),
        ensures
            final(self).inv(),
            final(self).cells() == Set::<(int, int)>::empty(),
            final(self).mode() == old(self).mode(),
            final(self).paused() == old(self).paused(),
            final(self).accumulated() == old(self).accumulated(),
    {
        self.store.clear();
    }

    /// Feeds `delta_ms` elapsed milliseconds to the tick scheduler and
    /// returns how many generations fired.
    ///
    /// While paused nothing changes: elapsed time is not even
    /// accumulated.  While running, one generation fires per full tick
    /// interval accumulated and the remainder is carried over, so a
    /// slow frame fires several and simulation rate is preserved.
    pub fn advance_time(&mut self, delta_ms: u64) -> (fired: u64)
        requires
            old(self).inv(),
            delta_ms <= u64::MAX - TICK_INTERVAL_MS,
        ensures
            final(self).inv(),
            final(self).mode() == old(self).mode(),
            final(self).paused() == old(self).paused(),
            old(self).paused() ==> {
                &&& fired == 0
                &&& final(self).cells() == old(self).cells()
                &&& final(self).accumulated() == old(self).accumulated()
            },
            !old(self).paused() ==> {
                &&& fired as int == (old(self).accumulated() + delta_ms as int) / (
                TICK_INTERVAL_MS as int)
                &&& final(self).accumulated() == (old(self).accumulated() + delta_ms as int) % (
                TICK_INTERVAL_MS as int)
                &&& final(self).cells() == next_gen_iter(old(self).cells(), fired as nat)
            },
    {
        if self.paused {
            return 0;
        }
        let ghost total = old(self).accumulated() + delta_ms as int;
        let mut acc: u64 = self.acc_ms + delta_ms;
        let mut fired: u64 = 0;
        while acc >= TICK_INTERVAL_MS
            invariant
                self.store.inv(),
                self.store@ == next_gen_iter(old(self).cells(), fired as nat),
                self.mode == old(self).mode,
                self.paused == old(self).paused,
                acc + fired * TICK_INTERVAL_MS == total,
                total <= u64::MAX,
            decreases acc,
        {
            let next = advance(&self.store);
            self.store = next;
            acc = acc - TICK_INTERVAL_MS;
            proof {
                assert(fired as int * (TICK_INTERVAL_MS as int) >= fired as int)
                    by (nonlinear_arith)
                    requires fired as int >= 0 && TICK_INTERVAL_MS as int >= 1;
            }
            fired = fired + 1;
            proof {
                assert(next_gen_iter(old(self).cells(), fired as nat) == crate::engine::next_gen(
                    next_gen_iter(old(self).cells(), (fired - 1) as nat),
                ));
            }
        }
        self.acc_ms = acc;
        proof {
            lemma_fundamental_div_mod_converse(
                total,
                TICK_INTERVAL_MS as int,
                fired as int,
                acc as int,
            );
        }
        fired
    }

    /// Whether the simulation is paused.
    pub fn is_paused(&self) -> (r: bool)
        ensures
            r == self.paused(),
    {
        self.paused
    }

    /// The brush shape subsequent paint and erase actions will use.
    pub fn current_draw_mode(&self) -> (m: DrawMode)
        ensures
            m == self.mode(),
    {
        self.mode
    }

    /// The number of alive cells, for status display.
    pub fn alive_count(&self) -> (n: usize)
        requires
            self.inv(),
        ensures
            n == self.cells().len(),
    {
        self.store.count()
    }

    /// A snapshot of the alive cells for rendering: each exactly once,
    /// in an order that carries no meaning.
    pub fn alive_cells(&self) -> (r: Vec<Cell>)
        requires
            self.inv(),
        ensures
            r@.map_values(|c: Cell| c@).no_duplicates(),
            r@.map_values(|c: Cell| c@).to_set() == self.cells(),
            r@.len() == self.cells().len(),
    {
        self.store.iterate()
    }
}

impl Default for Simulation {
    /// The same fresh simulation [`Simulation::new`] builds.
    fn default() -> (s: Simulation)
        ensures
            s.inv(),
            s.cells() == Set::<(int, int)>::empty(),
            s.mode() == DrawMode::Single,
            s.paused(),
            s.accumulated() == 0,
    {
        Simulation::new()
    }
}

} // verus!
