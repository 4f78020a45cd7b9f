use lifegrid::brush::DrawMode;
use lifegrid::cell::Cell;
use lifegrid::sim::{Simulation, TICK_INTERVAL_MS};

fn shows(sim: &Simulation, cells: &[(i64, i64)]) -> bool {
    let alive = sim.alive_cells();
    alive.len() == cells.len()
        && cells.iter().all(|&(x, y)| alive.contains(&Cell::new(x, y)))
}

fn blinker(sim: &mut Simulation) {
    for &(x, y) in &[(0, 0), (1, 0), (2, 0)] {
        sim.paint(Cell::new(x, y));
    }
}

#[test]
fn a_fresh_simulation_is_paused_and_empty() {
    let sim = Simulation::new();
    assert!(sim.is_paused());
    assert_eq!(sim.current_draw_mode(), DrawMode::Single);
    assert_eq!(sim.alive_count(), 0);
}

#[test]
fn default_matches_new() {
    let sim = Simulation::default();
    assert!(sim.is_paused());
    assert_eq!(sim.current_draw_mode(), DrawMode::Single);
    assert_eq!(sim.alive_count(), 0);
}

#[test]
fn while_paused_time_never_changes_the_cells() {
    let mut sim = Simulation::new();
    blinker(&mut sim);
    for _ in 0..5 {
        let fired = sim.advance_time(10 * TICK_INTERVAL_MS);
        assert_eq!(fired, 0);
        assert!(shows(&sim, &[(0, 0), (1, 0), (2, 0)]));
    }
}

#[test]
fn one_full_interval_fires_exactly_one_generation() {
    let mut sim = Simulation::new();
    blinker(&mut sim);
    sim.toggle_pause();
    assert!(!sim.is_paused());
    let fired = sim.advance_time(TICK_INTERVAL_MS);
    assert_eq!(fired, 1);
    assert!(shows(&sim, &[(1, -1), (1, 0), (1, 1)]));
}

#[test]
fn partial_intervals_accumulate_until_a_tick_is_due() {
    let mut sim = Simulation::new();
    blinker(&mut sim);
    sim.toggle_pause();
    let fired = sim.advance_time(TICK_INTERVAL_MS - 1);
    assert_eq!(fired, 0);
    assert!(shows(&sim, &[(0, 0), (1, 0), (2, 0)]));
    let fired = sim.advance_time(1);
    assert_eq!(fired, 1);
    assert!(shows(&sim, &[(1, -1), (1, 0), (1, 1)]));
}

#[test]
fn a_slow_frame_fires_one_generation_per_interval_elapsed() {
    let mut sim = Simulation::new();
    blinker(&mut sim);
    sim.toggle_pause();
    // Two full intervals at once: the blinker returns to horizontal.
    let fired = sim.advance_time(2 * TICK_INTERVAL_MS);
    assert_eq!(fired, 2);
    assert!(shows(&sim, &[(0, 0), (1, 0), (2, 0)]));
}

#[test]
fn the_remainder_is_carried_over_not_discarded() {
    let mut sim = Simulation::new();
    blinker(&mut sim);
    sim.toggle_pause();
    let fired = sim.advance_time(TICK_INTERVAL_MS + TICK_INTERVAL_MS / 2);
    assert_eq!(fired, 1);
    let fired = sim.advance_time(TICK_INTERVAL_MS / 2);
    assert_eq!(fired, 1);
    assert!(shows(&sim, &[(0, 0), (1, 0), (2, 0)]));
}

#[test]
fn painting_with_the_block_brush_fills_the_square() {
    let mut sim = Simulation::new();
    sim.set_draw_mode(DrawMode::Block3x3);
    assert_eq!(sim.current_draw_mode(), DrawMode::Block3x3);
    sim.paint(Cell::new(0, 0));
    assert_eq!(sim.alive_count(), 9);
    let alive = sim.alive_cells();
    for dx in -1..=1 {
        for dy in -1..=1 {
            assert!(alive.contains(&Cell::new(dx, dy)));
        }
    }
}

#[test]
fn painting_twice_changes_nothing() {
    let mut sim = Simulation::new();
    sim.set_draw_mode(DrawMode::Block5x5);
    sim.paint(Cell::new(2, 2));
    assert_eq!(sim.alive_count(), 25);
    sim.paint(Cell::new(2, 2));
    assert_eq!(sim.alive_count(), 25);
}

#[test]
fn erasing_uses_the_same_cells_as_painting() {
    let mut sim = Simulation::new();
    sim.set_draw_mode(DrawMode::Block3x3);
    sim.paint(Cell::new(0, 0));
    sim.set_draw_mode(DrawMode::Single);
    sim.erase(Cell::new(0, 0));
    assert_eq!(sim.alive_count(), 8);
    assert!(!sim.alive_cells().contains(&Cell::new(0, 0)));
    sim.set_draw_mode(DrawMode::Block3x3);
    sim.erase(Cell::new(0, 0));
    assert_eq!(sim.alive_count(), 0);
}

#[test]
fn erasing_absent_cells_changes_nothing() {
    let mut sim = Simulation::new();
    sim.paint(Cell::new(1, 1));
    sim.erase(Cell::new(5, 5));
    assert_eq!(sim.alive_count(), 1);
}

#[test]
fn clear_all_kills_everything_but_keeps_mode_and_pause() {
    let mut sim = Simulation::new();
    sim.set_draw_mode(DrawMode::Block5x5);
    sim.paint(Cell::new(0, 0));
    sim.toggle_pause();
    sim.clear_all();
    assert_eq!(sim.alive_count(), 0);
    assert_eq!(sim.current_draw_mode(), DrawMode::Block5x5);
    assert!(!sim.is_paused());
}

#[test]
fn toggle_pause_flips_back_and_forth() {
    let mut sim = Simulation::new();
    assert!(sim.is_paused());
    sim.toggle_pause();
    assert!(!sim.is_paused());
    sim.toggle_pause();
    assert!(sim.is_paused());
}

#[test]
fn edits_while_running_are_reflected_in_the_next_generation() {
    let mut sim = Simulation::new();
    blinker(&mut sim);
    sim.toggle_pause();
    // Kill the middle cell before any tick: the two loose ends die out.
    sim.erase(Cell::new(1, 0));
    let fired = sim.advance_time(TICK_INTERVAL_MS);
    assert_eq!(fired, 1);
    assert_eq!(sim.alive_count(), 0);
}
