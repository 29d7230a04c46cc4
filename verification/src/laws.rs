//! General laws of the engine, stated over the [`Board`] model and proved
//! once and for all.

use crate::webgl::{cell_color, colors_of, grid_vertices};
use crate::{lemma_index_roundtrip, lemma_linear_index, next_state};
use crate::{Board, Cell};
use vstd::prelude::*;

verus! {

/// Determinism: two equal boards step to equal boards — the transition is a
/// function of the grid state, dimensions and mode alone.
pub proof fn lemma_tick_deterministic(a: Board, b: Board)
    requires
        a == b,
    ensures
        a.step() == b.step(),
{
}

/// The live-neighbor count of any cell, in either topology, is at most 8.
pub proof fn lemma_neighbor_count_bounds(b: Board, r: int, c: int)
    ensures
        b.neighbor_count(r, c) <= 8,
{
    assert(b.neighbor_weight(r, c, -1, -1) <= 1);
    assert(b.neighbor_weight(r, c, -1, 0) <= 1);
    assert(b.neighbor_weight(r, c, -1, 1) <= 1);
    assert(b.neighbor_weight(r, c, 0, -1) <= 1);
    assert(b.neighbor_weight(r, c, 0, 1) <= 1);
    assert(b.neighbor_weight(r, c, 1, -1) <= 1);
    assert(b.neighbor_weight(r, c, 1, 0) <= 1);
    assert(b.neighbor_weight(r, c, 1, 1) <= 1);
}

/// Whether `(r, c)` is a corner of the board.
pub open spec fn is_corner(b: Board, r: int, c: int) -> bool {
    (r == 0 || r == b.height - 1) && (c == 0 || c == b.width - 1)
}

/// Whether `(r, c)` lies on the boundary of the board.
pub open spec fn on_boundary(b: Board, r: int, c: int) -> bool {
    r == 0 || r == b.height - 1 || c == 0 || c == b.width - 1
}

/// In the hard-edged topology a corner cell has at most 3 live neighbors:
/// the five offsets that leave the grid contribute nothing.
pub proof fn lemma_corner_neighbor_bound(b: Board, r: int, c: int)
    requires
        b.mode is FixedSizeNonPeriodic,
        b.in_bounds(r, c),
        is_corner(b, r, c),
    ensures
        b.neighbor_count(r, c) <= 3,
{
    lemma_neighbor_count_bounds(b, r, c);
}

/// In the hard-edged topology a non-corner boundary cell has at most 5 live
/// neighbors: the three offsets that leave the grid contribute nothing.
pub proof fn lemma_edge_neighbor_bound(b: Board, r: int, c: int)
    requires
        b.mode is FixedSizeNonPeriodic,
        b.in_bounds(r, c),
        on_boundary(b, r, c),
        !is_corner(b, r, c),
    ensures
        b.neighbor_count(r, c) <= 5,
{
    lemma_neighbor_count_bounds(b, r, c);
}

/// Writing a cell is immediately visible: the written cell reads back as
/// written and every other cell is untouched.  Together with the step
/// contract, which is stated over the pre-tick board, this makes a
/// mutation feed the very next tick as current-generation state.
pub proof fn lemma_mutation_immediacy(b: Board, r: int, c: int, state: Cell)
    requires
        b.wf(),
        b.in_bounds(r, c),
    ensures
        b.written(r, c, state).wf(),
        b.written(r, c, state).cell_at(r, c) == state,
        forall|x: int, y: int|
            b.in_bounds(x, y) && (x != r || y != c) ==> b.written(r, c, state).cell_at(x, y)
                == b.cell_at(x, y),
{
    lemma_index_roundtrip(b, r, c);
    assert forall|x: int, y: int|
        b.in_bounds(x, y) && (x != r || y != c) implies b.written(r, c, state).cell_at(x, y)
        == b.cell_at(x, y) by {
        lemma_index_roundtrip(b, x, y);
    }
}

/// A 2x2 block of live cells with everything else dead, sitting anywhere on
/// a hard-edged board.
pub open spec fn is_block_board(b: Board, r0: int, c0: int) -> bool {
    &&& b.wf()
    &&& b.mode is FixedSizeNonPeriodic
    &&& 0 <= r0 && r0 + 1 < b.height
    &&& 0 <= c0 && c0 + 1 < b.width
    &&& forall|r: int, c: int|
        b.in_bounds(r, c) ==> b.cell_at(r, c) == (if r0 <= r <= r0 + 1 && c0 <= c <= c0 + 1 {
            Cell::Alive
        } else {
            Cell::Dead
        })
}

/// Still life: a 2x2 block of live cells surrounded by dead cells is
/// unchanged by one step — every block cell has exactly 3 live neighbors
/// and survives, and no dead cell has more than 2.
#[verifier::rlimit(100)]
#[verifier::spinoff_prover]
pub proof fn lemma_block_still_life(b: Board, r0: int, c0: int)
    requires
        is_block_board(b, r0, c0),
    ensures
        b.step() == b,
{
    assert forall|i: int| 0 <= i < b.cells.len() implies b.next_cells()[i] == b.cells[i] by {
        lemma_linear_index(b, i);
        let r = b.row_of(i);
        let c = b.col_of(i);
        assert(b.next_cells()[i] == next_state(b.cells[i], b.neighbor_count(r, c)));
        assert(b.cells[i] == b.cell_at(r, c));
        if r0 <= r <= r0 + 1 && c0 <= c <= c0 + 1 {
            assert(b.neighbor_count(r, c) == 3);
            assert(b.cell_at(r, c) == Cell::Alive);
        } else {
            assert(b.neighbor_count(r, c) <= 2);
            assert(b.cell_at(r, c) == Cell::Dead);
        }
    }
    assert(b.next_cells() =~= b.cells);
    assert(b.step() =~= b);
}

/// Still life, iterated: the block board is unchanged by any number of
/// steps.
pub proof fn lemma_block_still_life_forever(b: Board, r0: int, c0: int, k: nat)
    requires
        is_block_board(b, r0, c0),
    ensures
        b.after(k) == b,
    decreases k,
{
    if k > 0 {
        lemma_block_still_life_forever(b, r0, c0, (k - 1) as nat);
        lemma_block_still_life(b, r0, c0);
    }
}

/// A horizontal 3-cell line of live cells centered at `(r, c)`, everything
/// else dead, on a hard-edged board with one cell of margin around the
/// line's bounding cross.
pub open spec fn is_horizontal_blinker(b: Board, r: int, c: int) -> bool {
    &&& b.wf()
    &&& b.mode is FixedSizeNonPeriodic
    &&& 1 <= r && r + 1 < b.height
    &&& 1 <= c && c + 1 < b.width
    &&& forall|x: int, y: int|
        b.in_bounds(x, y) ==> b.cell_at(x, y) == (if x == r && c - 1 <= y <= c + 1 {
            Cell::Alive
        } else {
            Cell::Dead
        })
}

/// A vertical 3-cell line of live cells centered at `(r, c)`, everything
/// else dead, on a hard-edged board with one cell of margin around the
/// line's bounding cross.
pub open spec fn is_vertical_blinker(b: Board, r: int, c: int) -> bool {
    &&& b.wf()
    &&& b.mode is FixedSizeNonPeriodic
    &&& 1 <= r && r + 1 < b.height
    &&& 1 <= c && c + 1 < b.width
    &&& forall|x: int, y: int|
        b.in_bounds(x, y) ==> b.cell_at(x, y) == (if y == c && r - 1 <= x <= r + 1 {
            Cell::Alive
        } else {
            Cell::Dead
        })
}

/// One step turns a horizontal blinker into the vertical blinker with the
/// same center.
#[verifier::rlimit(100)]
#[verifier::spinoff_prover]
pub proof fn lemma_blinker_turns_vertical(b: Board, r: int, c: int)
    requires
        is_horizontal_blinker(b, r, c),
    ensures
        is_vertical_blinker(b.step(), r, c),
{
    let s = b.step();
    assert(s.cells.len() == b.cells.len());
    assert forall|x: int, y: int| s.in_bounds(x, y) implies s.cell_at(x, y) == (if y == c && r - 1
        <= x <= r + 1 {
        Cell::Alive
    } else {
        Cell::Dead
    }) by {
        lemma_index_roundtrip(b, x, y);
    }
}

/// One step turns a vertical blinker into the horizontal blinker with the
/// same center.
#[verifier::rlimit(100)]
#[verifier::spinoff_prover]
pub proof fn lemma_blinker_turns_horizontal(b: Board, r: int, c: int)
    requires
        is_vertical_blinker(b, r, c),
    ensures
        is_horizontal_blinker(b.step(), r, c),
{
    let s = b.step();
    assert(s.cells.len() == b.cells.len());
    assert forall|x: int, y: int| s.in_bounds(x, y) implies s.cell_at(x, y) == (if x == r && c - 1
        <= y <= c + 1 {
        Cell::Alive
    } else {
        Cell::Dead
    }) by {
        lemma_index_roundtrip(b, x, y);
    }
}

/// The blinker oscillates with period 2: one step turns the horizontal
/// line vertical, a second step restores the original board exactly.
pub proof fn lemma_blinker_oscillates(b: Board, r: int, c: int)
    requires
        is_horizontal_blinker(b, r, c),
    ensures
        is_vertical_blinker(b.step(), r, c),
        b.step().step() == b,
{
    lemma_blinker_turns_vertical(b, r, c);
    lemma_blinker_turns_horizontal(b.step(), r, c);
    let s2 = b.step().step();
    assert forall|i: int| 0 <= i < b.cells.len() implies s2.cells[i] == b.cells[i] by {
        lemma_linear_index(b, i);
        let x = b.row_of(i);
        let y = b.col_of(i);
        assert(s2.cell_at(x, y) == b.cell_at(x, y));
    }
    assert(s2.cells =~= b.cells);
    assert(s2 =~= b);
}

/// Geometry buffer sizing and alignment: a `width x height` grid yields
/// exactly `width * height * 6` vertices of 2 components each, the color
/// buffer carries exactly one value per vertex, and the color of every
/// vertex of cell `q` is the color of cell `q`.
pub proof fn lemma_geometry_alignment(b: Board)
    requires
        b.wf(),
    ensures
        grid_vertices(b.width, b.height).len() == b.width * b.height * 12,
        colors_of(b.cells).len() == b.width * b.height * 6,
        colors_of(b.cells).len() * 2 == grid_vertices(b.width, b.height).len(),
        forall|k: int|
            0 <= k < colors_of(b.cells).len() ==> #[trigger] colors_of(b.cells)[k] == cell_color(
                b.cells[k / 6],
            ),
{
}

} // verus!
