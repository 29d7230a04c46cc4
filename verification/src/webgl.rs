//! Geometry buffers for rendering the grid.
//!
//! The drawable area is a normalized square split into one axis-aligned quad
//! per cell, each quad two triangles (6 vertices, a pure triangle list).
//! This module emits the buffers in lattice units: a vertex component is a
//! grid-line index, `0 ..= width` horizontally and `0 ..= height`
//! vertically.  A host maps a horizontal component `x` to the screen
//! coordinate `x * 2/width - 1` and a vertical component `y` to
//! `-(y * 2/height - 1)`; that per-value affine map is the only
//! floating-point step and lives with the host.

use crate::Cell;
use vstd::arithmetic::div_mod::lemma_fundamental_div_mod_converse;
use vstd::prelude::*;

verus! {

/// The color value of one cell: 1 for alive, 0 for dead.
pub open spec fn cell_color(c: Cell) -> u8 {
    if c is Alive {
        1
    } else {
        0
    }
}

/// Component `k` of the vertex buffer of a `width`-wide grid.  Each cell
/// contributes 12 components: 6 vertices of 2 components each, the two
/// triangles (west,north) (east,north) (east,south) and (west,north)
/// (west,south) (east,south), where west/east are the lattice columns
/// `j`/`j + 1` and north/south the lattice rows `i`/`i + 1` of the cell.
pub open spec fn vertex_component(width: int, k: int) -> u32 {
    let cell = k / 12;
    let t = k % 12;
    let i = cell / width;
    let j = cell % width;
    if t == 0 {
        j as u32
    } else if t == 1 {
        i as u32
    } else if t == 2 {
        (j + 1) as u32
    } else if t == 3 {
        i as u32
    } else if t == 4 {
        (j + 1) as u32
    } else if t == 5 {
        (i + 1) as u32
    } else if t == 6 {
        j as u32
    } else if t == 7 {
        i as u32
    } else if t == 8 {
        j as u32
    } else if t == 9 {
        (i + 1) as u32
    } else if t == 10 {
        (j + 1) as u32
    } else {
        (i + 1) as u32
    }
}

/// The full vertex buffer of a `width x height` grid, in lattice units:
/// cells in row-major order, 12 components per cell.
pub open spec fn grid_vertices(width: nat, height: nat) -> Seq<u32> {
    Seq::new(width * height * 12, |k: int| vertex_component(width as int, k))
}

/// The color buffer of a cell sequence: each cell's color repeated 6 times,
/// once per triangle-list vertex of that cell.
pub open spec fn colors_of(cells: Seq<Cell>) -> Seq<u8> {
    Seq::new(cells.len() * 6, |k: int| cell_color(cells[k / 6]))
}

/// Emits the triangle-list vertex buffer for a `width x height` grid in
/// lattice units, cells in row-major order, 12 components per cell.
pub fn create_vertices(width: u32, height: u32) -> (vertices: Vec<u32>)
    ensures
        vertices@ == grid_vertices(width as nat, height as nat),
{
    let mut vertices: Vec<u32> = Vec::new();
    let ghost target = grid_vertices(width as nat, height as nat);
    let mut i: u32 = 0;
    while i < height
        invariant
            i <= height,
            target == grid_vertices(width as nat, height as nat),
            vertices@.len() == i * width * 12,
            forall|k: int| 0 <= k < vertices@.len() ==> vertices@[k] == target[k],
        decreases height - i,
    {
        let mut j: u32 = 0;
        while j < width
            invariant
                i < height,
                j <= width,
                target == grid_vertices(width as nat, height as nat),
                vertices@.len() == (i * width + j) * 12,
                forall|k: int| 0 <= k < vertices@.len() ==> vertices@[k] == target[k],
            decreases width - j,
        {
            let ghost base = vertices@.len() as int;
            let column_west = j;
            let column_east = j + 1;
            let row_north = i;
            let row_south = i + 1;
            vertices.push(column_west);
            vertices.push(row_north);
            vertices.push(column_east);
            vertices.push(row_north);
            vertices.push(column_east);
            vertices.push(row_south);

            vertices.push(column_west);
            vertices.push(row_north);
            vertices.push(column_west);
            vertices.push(row_south);
            vertices.push(column_east);
            vertices.push(row_south);
            proof {
                assert((i * width + j) * 12 + 12 == (i * width + j + 1) * 12) by (nonlinear_arith);
                assert(i * width + j + 1 <= width * height) by (nonlinear_arith)
                    requires
                        i < height,
                        j < width;
                assert forall|k: int| base <= k < vertices@.len() implies vertices@[k] == target[k] by {
                    assert(i * width + j >= 0) by (nonlinear_arith)
                        requires
                            0 <= i,
                            0 <= j,
                            width >= 1;
                    lemma_fundamental_div_mod_converse(k, 12, i * width + j, k - base);
                    lemma_fundamental_div_mod_converse(i * width + j, width as int, i as int, j as int);
                }
            }
            j = j + 1;
        }
        proof {
            assert((i * width + width) * 12 == (i + 1) * width * 12) by (nonlinear_arith);
        }
        i = i + 1;
    }
    proof {
        assert(height * width * 12 == width * height * 12) by (nonlinear_arith);
        assert(vertices@ =~= target);
    }
    vertices
}

/// Emits the per-vertex color buffer: for each cell, its color value
/// repeated 6 times, index-aligned with the vertex buffer.
pub fn create_colors(cells: &Vec<Cell>) -> (colors: Vec<u8>)
    ensures
        colors@ == colors_of(cells@),
{
    let mut colors: Vec<u8> = Vec::new();
    let mut i: usize = 0;
    while i < cells.len()
        invariant
            i <= cells@.len(),
            colors@.len() == i * 6,
            forall|k: int| 0 <= k < colors@.len() ==> colors@[k] == colors_of(cells@)[k],
        decreases cells@.len() - i,
    {
        let c: u8 = match cells[i] {
            Cell::Alive => 1,
            Cell::Dead => 0,
        };
        let mut t: usize = 0;
        while t < 6
            invariant
                i < cells@.len(),
                t <= 6,
                c == cell_color(cells@[i as int]),
                colors@.len() == i * 6 + t,
                forall|k: int| 0 <= k < colors@.len() ==> colors@[k] == colors_of(cells@)[k],
            decreases 6 - t,
        {
            proof {
                lemma_fundamental_div_mod_converse(i * 6 + t, 6, i as int, t as int);
                assert(i * 6 + t < cells@.len() * 6) by (nonlinear_arith)
                    requires
                        i < cells@.len(),
                        0 <= t < 6;
            }
            colors.push(c);
            t = t + 1;
        }
        i = i + 1;
    }
    proof {
        assert(colors@ =~= colors_of(cells@));
    }
    colors
}

} // verus!
