use lifegrid::brush::{affected_cells, preview_cells, DrawMode};
use lifegrid::cell::Cell;
use lifegrid::engine::{advance, live_neighbor_count};
use lifegrid::grid::{cell_to_world, world_to_cell, CELL_SIZE};
use lifegrid::store::CellStore;

fn store_of(cells: &[(i64, i64)]) -> CellStore {
    let mut s = CellStore::new();
    for &(x, y) in cells {
        s.insert(Cell::new(x, y));
    }
    s
}

fn same_cells(s: &CellStore, cells: &[(i64, i64)]) -> bool {
    if s.count() != cells.len() {
        return false;
    }
    cells.iter().all(|&(x, y)| s.contains(Cell::new(x, y)))
}

#[test]
fn lone_cell_dies() {
    let s = store_of(&[(0, 0)]);
    let next = advance(&s);
    assert_eq!(next.count(), 0);
}

#[test]
fn block_is_still_life() {
    let block = [(0, 0), (1, 0), (0, 1), (1, 1)];
    let s = store_of(&block);
    let next = advance(&s);
    assert!(same_cells(&next, &block));
    let again = advance(&next);
    assert!(same_cells(&again, &block));
}

#[test]
fn blinker_oscillates_with_period_two() {
    let horizontal = [(0, 0), (1, 0), (2, 0)];
    let vertical = [(1, -1), (1, 0), (1, 1)];
    let s = store_of(&horizontal);
    let once = advance(&s);
    assert!(same_cells(&once, &vertical));
    let twice = advance(&once);
    assert!(same_cells(&twice, &horizontal));
}

#[test]
fn advance_is_deterministic_whatever_the_insertion_order() {
    let a = store_of(&[(0, 0), (1, 0), (2, 0), (2, 1)]);
    let b = store_of(&[(2, 1), (2, 0), (0, 0), (1, 0)]);
    let na = advance(&a);
    let nb = advance(&b);
    assert_eq!(na.count(), nb.count());
    for c in na.iterate() {
        assert!(nb.contains(c));
    }
    // Advancing the same snapshot twice gives identical output sets.
    let na2 = advance(&a);
    assert_eq!(na.count(), na2.count());
    for c in na.iterate() {
        assert!(na2.contains(c));
    }
}

#[test]
fn neighbor_counts_are_exact() {
    let s = store_of(&[(0, 0), (1, 0), (2, 0)]);
    assert_eq!(live_neighbor_count(&s, Cell::new(1, 0)), 2);
    assert_eq!(live_neighbor_count(&s, Cell::new(1, 1)), 3);
    assert_eq!(live_neighbor_count(&s, Cell::new(0, 0)), 1);
    assert_eq!(live_neighbor_count(&s, Cell::new(5, 5)), 0);
}

#[test]
fn brush_single_is_the_anchor_alone() {
    let cells = affected_cells(Cell::new(7, -3), DrawMode::Single);
    assert_eq!(cells.len(), 1);
    assert_eq!(cells[0], Cell::new(7, -3));
}

#[test]
fn brush_block3x3_is_nine_cells_centred_on_the_anchor() {
    let cells = affected_cells(Cell::new(-4, 2), DrawMode::Block3x3);
    assert_eq!(cells.len(), 9);
    for dx in -1..=1 {
        for dy in -1..=1 {
            assert!(cells.contains(&Cell::new(-4 + dx, 2 + dy)));
        }
    }
}

#[test]
fn brush_block5x5_is_twenty_five_cells_centred_on_the_anchor() {
    let cells = affected_cells(Cell::new(0, 0), DrawMode::Block5x5);
    assert_eq!(cells.len(), 25);
    for dx in -2..=2 {
        for dy in -2..=2 {
            assert!(cells.contains(&Cell::new(dx, dy)));
        }
    }
    assert!(!cells.contains(&Cell::new(3, 0)));
}

#[test]
fn preview_matches_the_brush() {
    let anchor = Cell::new(11, 13);
    let brush = affected_cells(anchor, DrawMode::Block3x3);
    let preview = preview_cells(anchor, DrawMode::Block3x3);
    assert_eq!(brush.len(), preview.len());
    for c in &brush {
        assert!(preview.contains(c));
    }
}

#[test]
fn world_to_cell_floors_on_both_axes() {
    assert_eq!(world_to_cell(0, 0, CELL_SIZE), Cell::new(0, 0));
    assert_eq!(world_to_cell(9, 9, CELL_SIZE), Cell::new(0, 0));
    assert_eq!(world_to_cell(10, 19, CELL_SIZE), Cell::new(1, 1));
    // Negative positions round down, not toward zero.
    assert_eq!(world_to_cell(-1, -10, CELL_SIZE), Cell::new(-1, -1));
    assert_eq!(world_to_cell(-11, -20, CELL_SIZE), Cell::new(-2, -2));
}

#[test]
fn exact_multiples_map_to_the_cell_with_that_origin() {
    let c = world_to_cell(-30, 40, CELL_SIZE);
    assert_eq!(c, Cell::new(-3, 4));
    let (wx, wy) = cell_to_world(c, CELL_SIZE);
    assert_eq!((wx, wy), (-30, 40));
}

#[test]
fn round_trip_lands_within_one_cell_width() {
    for &w in &[-25i64, -10, -1, 0, 3, 9, 10, 17, 100] {
        let c = world_to_cell(w, w, CELL_SIZE);
        let (ox, oy) = cell_to_world(c, CELL_SIZE);
        assert!(ox <= w && w < ox + CELL_SIZE);
        assert!(oy <= w && w < oy + CELL_SIZE);
    }
}

#[test]
fn store_insert_is_idempotent() {
    let mut s = CellStore::new();
    s.insert(Cell::new(3, 4));
    assert_eq!(s.count(), 1);
    s.insert(Cell::new(3, 4));
    assert_eq!(s.count(), 1);
    assert!(s.contains(Cell::new(3, 4)));
}

#[test]
fn store_remove_of_absent_is_a_noop() {
    let mut s = store_of(&[(1, 1), (2, 2)]);
    s.remove(Cell::new(9, 9));
    assert_eq!(s.count(), 2);
    s.remove(Cell::new(1, 1));
    assert_eq!(s.count(), 1);
    assert!(!s.contains(Cell::new(1, 1)));
    assert!(s.contains(Cell::new(2, 2)));
}

#[test]
fn store_clear_empties_everything() {
    let mut s = store_of(&[(0, 0), (5, -5), (100, 100)]);
    assert_eq!(s.count(), 3);
    s.clear();
    assert_eq!(s.count(), 0);
    assert!(!s.contains(Cell::new(0, 0)));
}

#[test]
fn store_iterate_yields_each_alive_cell_once() {
    let s = store_of(&[(0, 0), (1, 2), (-3, 4)]);
    let snapshot = s.iterate();
    assert_eq!(snapshot.len(), 3);
    assert!(snapshot.contains(&Cell::new(0, 0)));
    assert!(snapshot.contains(&Cell::new(1, 2)));
    assert!(snapshot.contains(&Cell::new(-3, 4)));
}
