use game_of_life::{Cell, GridError, Universe, UniverseMode};

/// Sets every cell of the grid to Dead through the public API.
fn clear(u: &mut Universe) {
    let h = u.height();
    let w = u.width();
    for r in 0..h {
        for c in 0..w {
            u.set_dead(r, c).unwrap();
        }
    }
}

fn cell_at(u: &Universe, r: u32, c: u32) -> Cell {
    u.get(r, c).unwrap()
}

#[test]
fn new_rejects_zero_dimensions() {
    assert_eq!(
        Universe::new(0, 5, UniverseMode::FixedSizePeriodic).err(),
        Some(GridError::InvalidDimensions)
    );
    assert_eq!(
        Universe::new(5, 0, UniverseMode::FixedSizeNonPeriodic).err(),
        Some(GridError::InvalidDimensions)
    );
    assert_eq!(
        Universe::new(0, 0, UniverseMode::FixedSizePeriodic).err(),
        Some(GridError::InvalidDimensions)
    );
    assert!(Universe::new(1, 1, UniverseMode::FixedSizePeriodic).is_ok());
}

#[test]
fn seed_pattern_is_even_or_multiple_of_seven() {
    let u = Universe::new(4, 4, UniverseMode::FixedSizePeriodic).unwrap();
    let cells = u.cells();
    assert_eq!(cells.len(), 16);
    for i in 0..16usize {
        let expected = if i % 2 == 0 || i % 7 == 0 {
            Cell::Alive
        } else {
            Cell::Dead
        };
        assert_eq!(cells[i], expected, "seed mismatch at {}", i);
    }
}

#[test]
fn getters_report_dimensions() {
    let u = Universe::new(7, 3, UniverseMode::FixedSizeNonPeriodic).unwrap();
    assert_eq!(u.width(), 7);
    assert_eq!(u.height(), 3);
    assert_eq!(u.cells().len(), 21);
}

#[test]
fn out_of_bounds_accessors_are_rejected() {
    let mut u = Universe::new(3, 3, UniverseMode::FixedSizeNonPeriodic).unwrap();
    assert_eq!(u.get(3, 0).err(), Some(GridError::OutOfBounds));
    assert_eq!(u.get(0, 3).err(), Some(GridError::OutOfBounds));
    assert_eq!(u.set_alive(3, 0).err(), Some(GridError::OutOfBounds));
    assert_eq!(u.set_dead(0, 3).err(), Some(GridError::OutOfBounds));
    assert_eq!(u.toggle_cell(9, 9).err(), Some(GridError::OutOfBounds));
    let before = u.cells().clone();
    let _ = u.set_alive(5, 5);
    assert_eq!(u.cells(), &before, "failed mutation must not change state");
}

#[test]
fn toggle_cell_flips_state() {
    let mut u = Universe::new(2, 2, UniverseMode::FixedSizeNonPeriodic).unwrap();
    clear(&mut u);
    assert_eq!(cell_at(&u, 1, 1), Cell::Dead);
    u.toggle_cell(1, 1).unwrap();
    assert_eq!(cell_at(&u, 1, 1), Cell::Alive);
    u.toggle_cell(1, 1).unwrap();
    assert_eq!(cell_at(&u, 1, 1), Cell::Dead);
}

#[test]
fn cell_toggle_flips_value() {
    let mut c = Cell::Dead;
    c.toggle();
    assert_eq!(c, Cell::Alive);
    c.toggle();
    assert_eq!(c, Cell::Dead);
}

#[test]
fn mutation_is_immediately_visible() {
    let mut u = Universe::new(3, 3, UniverseMode::FixedSizeNonPeriodic).unwrap();
    clear(&mut u);
    u.set_alive(1, 1).unwrap();
    assert_eq!(cell_at(&u, 1, 1), Cell::Alive);
    u.set_dead(1, 1).unwrap();
    assert_eq!(cell_at(&u, 1, 1), Cell::Dead);
}

#[test]
fn tick_sees_mutations_as_current_state() {
    // Three cells set alive just before the tick give birth to their
    // common dead neighbor: the tick used the mutated generation.
    let mut u = Universe::new(3, 3, UniverseMode::FixedSizeNonPeriodic).unwrap();
    clear(&mut u);
    u.set_alive(0, 0).unwrap();
    u.set_alive(0, 1).unwrap();
    u.set_alive(0, 2).unwrap();
    u.tick();
    assert_eq!(cell_at(&u, 1, 1), Cell::Alive);
    assert_eq!(cell_at(&u, 0, 0), Cell::Dead);
}

#[test]
fn tick_is_deterministic() {
    let mut a = Universe::new(6, 5, UniverseMode::FixedSizePeriodic).unwrap();
    let mut b = Universe::new(6, 5, UniverseMode::FixedSizePeriodic).unwrap();
    assert_eq!(a.cells(), b.cells());
    a.tick();
    b.tick();
    assert_eq!(a.cells(), b.cells());
    a.tick();
    b.tick();
    assert_eq!(a.cells(), b.cells());
}

#[test]
fn underpopulation_and_overpopulation_kill() {
    // A lone live cell dies; the center of a full 3x3 block dies of
    // overpopulation.
    let mut u = Universe::new(5, 5, UniverseMode::FixedSizeNonPeriodic).unwrap();
    clear(&mut u);
    u.set_alive(2, 2).unwrap();
    u.tick();
    assert_eq!(cell_at(&u, 2, 2), Cell::Dead);

    clear(&mut u);
    for r in 1..4 {
        for c in 1..4 {
            u.set_alive(r, c).unwrap();
        }
    }
    u.tick();
    assert_eq!(cell_at(&u, 2, 2), Cell::Dead);
}

#[test]
fn neighbor_counts_stay_in_bounds() {
    for mode in [
        UniverseMode::FixedSizePeriodic,
        UniverseMode::FixedSizeNonPeriodic,
    ] {
        let u = Universe::new(5, 4, mode).unwrap();
        for r in 0..4 {
            for c in 0..5 {
                let n = u.live_neighbor_count(r, c);
                assert!(n <= 8);
            }
        }
    }
}

#[test]
fn nonperiodic_corner_and_edge_bounds() {
    // An all-alive hard-edged grid: corners see 3 neighbors, non-corner
    // edge cells 5, interior cells 8.
    let mut u = Universe::new(4, 4, UniverseMode::FixedSizeNonPeriodic).unwrap();
    for r in 0..4 {
        for c in 0..4 {
            u.set_alive(r, c).unwrap();
        }
    }
    assert_eq!(u.live_neighbor_count(0, 0), 3);
    assert_eq!(u.live_neighbor_count(0, 3), 3);
    assert_eq!(u.live_neighbor_count(3, 0), 3);
    assert_eq!(u.live_neighbor_count(3, 3), 3);
    assert_eq!(u.live_neighbor_count(0, 1), 5);
    assert_eq!(u.live_neighbor_count(2, 0), 5);
    assert_eq!(u.live_neighbor_count(3, 2), 5);
    assert_eq!(u.live_neighbor_count(1, 3), 5);
    assert_eq!(u.live_neighbor_count(1, 1), 8);
}

#[test]
fn periodic_wraparound_counts_opposite_corner() {
    let mut u = Universe::new(3, 3, UniverseMode::FixedSizePeriodic).unwrap();
    clear(&mut u);
    u.set_alive(0, 0).unwrap();
    // The cell at (height-1, width-1) counts (0, 0) among its neighbors.
    assert_eq!(u.live_neighbor_count(2, 2), 1);
    // In the hard-edged topology it does not.
    u.set_mode(UniverseMode::FixedSizeNonPeriodic);
    assert_eq!(u.live_neighbor_count(2, 2), 0);
}

#[test]
fn block_still_life_is_stable() {
    let mut u = Universe::new(6, 6, UniverseMode::FixedSizeNonPeriodic).unwrap();
    clear(&mut u);
    u.set_alive(2, 2).unwrap();
    u.set_alive(2, 3).unwrap();
    u.set_alive(3, 2).unwrap();
    u.set_alive(3, 3).unwrap();
    let before = u.cells().clone();
    for _ in 0..4 {
        u.tick();
        assert_eq!(u.cells(), &before);
    }
}

#[test]
fn blinker_oscillates_with_period_two() {
    let mut u = Universe::new(5, 5, UniverseMode::FixedSizeNonPeriodic).unwrap();
    clear(&mut u);
    u.set_alive(2, 1).unwrap();
    u.set_alive(2, 2).unwrap();
    u.set_alive(2, 3).unwrap();
    let horizontal = u.cells().clone();
    u.tick();
    for r in 0..5 {
        for c in 0..5 {
            let expected = if c == 2 && (1..=3).contains(&r) {
                Cell::Alive
            } else {
                Cell::Dead
            };
            assert_eq!(cell_at(&u, r, c), expected, "vertical phase at ({}, {})", r, c);
        }
    }
    u.tick();
    assert_eq!(u.cells(), &horizontal);
}

#[test]
fn reinit_reseeds_and_keeps_mode() {
    let mut u = Universe::new(4, 4, UniverseMode::FixedSizePeriodic).unwrap();
    clear(&mut u);
    u.reinit_cells(3, 3).unwrap();
    assert_eq!(u.width(), 3);
    assert_eq!(u.height(), 3);
    let fresh = Universe::new(3, 3, UniverseMode::FixedSizePeriodic).unwrap();
    assert_eq!(u.cells(), fresh.cells());
    // The mode is preserved: a lone corner cell still wraps.
    clear(&mut u);
    u.set_alive(0, 0).unwrap();
    assert_eq!(u.live_neighbor_count(2, 2), 1);
}

#[test]
fn reinit_rejects_zero_dimensions() {
    let mut u = Universe::new(4, 4, UniverseMode::FixedSizePeriodic).unwrap();
    let before = u.cells().clone();
    assert_eq!(u.reinit_cells(0, 3).err(), Some(GridError::InvalidDimensions));
    assert_eq!(u.width(), 4);
    assert_eq!(u.height(), 4);
    assert_eq!(u.cells(), &before);
}

#[test]
fn render_string_matches_grid() {
    let u = Universe::new(2, 2, UniverseMode::FixedSizeNonPeriodic).unwrap();
    // Seeded 2x2 grid: indices 0 and 2 are alive, 1 and 3 dead.
    assert_eq!(u.render_string(), "◼◻\n◼◻\n");

    let mut v = Universe::new(3, 2, UniverseMode::FixedSizeNonPeriodic).unwrap();
    clear(&mut v);
    v.set_alive(1, 2).unwrap();
    assert_eq!(v.render_string(), "◻◻◻\n◻◻◼\n");
}
