use game_of_life::webgl::{create_colors, create_vertices};
use game_of_life::{Cell, Universe, UniverseMode};

#[test]
fn vertex_buffer_has_twelve_components_per_cell() {
    assert_eq!(create_vertices(4, 3).len(), 4 * 3 * 12);
    assert_eq!(create_vertices(1, 1).len(), 12);
    assert_eq!(create_vertices(7, 2).len(), 7 * 2 * 12);
}

#[test]
fn single_cell_quad_is_two_triangles() {
    // Cell (0, 0): triangles (west,north) (east,north) (east,south) and
    // (west,north) (west,south) (east,south) in lattice units.
    let v = create_vertices(1, 1);
    assert_eq!(v, vec![0, 0, 1, 0, 1, 1, 0, 0, 0, 1, 1, 1]);
}

#[test]
fn vertex_buffer_is_row_major() {
    let v = create_vertices(2, 2);
    // Second cell of the first row spans lattice columns 1..=2, rows 0..=1.
    assert_eq!(&v[12..24], &[1, 0, 2, 0, 2, 1, 1, 0, 1, 1, 2, 1]);
    // First cell of the second row spans lattice columns 0..=1, rows 1..=2.
    assert_eq!(&v[24..36], &[0, 1, 1, 1, 1, 2, 0, 1, 0, 2, 1, 2]);
}

#[test]
fn color_buffer_repeats_each_cell_six_times() {
    let cells = vec![Cell::Alive, Cell::Dead, Cell::Alive];
    let colors = create_colors(&cells);
    assert_eq!(colors.len(), 3 * 6);
    assert_eq!(&colors[0..6], &[1, 1, 1, 1, 1, 1]);
    assert_eq!(&colors[6..12], &[0, 0, 0, 0, 0, 0]);
    assert_eq!(&colors[12..18], &[1, 1, 1, 1, 1, 1]);
}

#[test]
fn universe_buffers_are_index_aligned() {
    let mut u = Universe::new(4, 3, UniverseMode::FixedSizeNonPeriodic).unwrap();
    for r in 0..3 {
        for c in 0..4 {
            if (r + c) % 2 == 0 {
                u.set_alive(r, c).unwrap();
            } else {
                u.set_dead(r, c).unwrap();
            }
        }
    }
    let vertices = u.webgl_vertices();
    let colors = u.webgl_colors();
    assert_eq!(vertices.len(), 4 * 3 * 12);
    assert_eq!(colors.len(), 4 * 3 * 6);
    assert_eq!(colors.len() * 2, vertices.len());
    let cells = u.cells();
    for q in 0..12usize {
        let expected = if cells[q] == Cell::Alive { 1 } else { 0 };
        for v in 0..6usize {
            assert_eq!(colors[q * 6 + v], expected, "color of vertex {} of cell {}", v, q);
        }
    }
}

#[test]
fn buffers_track_the_current_generation() {
    let mut u = Universe::new(3, 3, UniverseMode::FixedSizeNonPeriodic).unwrap();
    for r in 0..3 {
        for c in 0..3 {
            u.set_dead(r, c).unwrap();
        }
    }
    assert!(u.webgl_colors().iter().all(|&x| x == 0));
    u.set_alive(1, 1).unwrap();
    let colors = u.webgl_colors();
    let center = 1 * 3 + 1;
    for v in 0..6usize {
        assert_eq!(colors[center * 6 + v], 1);
    }
}
