//! A verified Conway's Game of Life engine on a fixed-size 2-D grid.
//!
//! A [`Universe`] owns the per-cell state buffer and advances it one
//! generation at a time with [`Universe::tick`].  Two boundary topologies are
//! supported: `FixedSizePeriodic` (the grid wraps at the edges, a torus) and
//! `FixedSizeNonPeriodic` (hard edges; cells outside the bounds do not exist
//! and contribute nothing to neighbor counts).
//!
//! The mathematical model of a grid is the ghost struct [`Board`]; every
//! public operation states its effect over that model.  The geometry buffers
//! a renderer consumes are produced by the [`webgl`] module, and the general
//! laws of the engine (determinism, neighbor-count bounds, the block still
//! life, the blinker oscillator) are stated and proved in [`laws`].

pub mod laws;
pub mod webgl;

use vstd::arithmetic::div_mod::{
    lemma_fundamental_div_mod, lemma_fundamental_div_mod_converse, lemma_mod_bound,
    lemma_mod_multiples_vanish, lemma_small_mod,
};
use vstd::prelude::*;
use vstd::string::StringExecFns;

verus! {

/// The state of one grid cell.
#[derive(Clone, Copy, Debug, PartialEq, Eq, Structural)]
pub enum Cell {
    Dead,
    Alive,
}

impl Cell {
    /// The opposite state.
    pub open spec fn flipped(self) -> Cell {
        match self {
            Cell::Dead => Cell::Alive,
            Cell::Alive => Cell::Dead,
        }
    }

    /// Flips this cell between `Alive` and `Dead`.
    pub fn toggle(&mut self)
        ensures
            *final(self) == old(self).flipped(),
    {
        *self = match *self {
            Cell::Dead => Cell::Alive,
            Cell::Alive => Cell::Dead,
        };
    }
}

/// How much a cell contributes to a live-neighbor count.
pub open spec fn weight(c: Cell) -> nat {
    if c is Alive {
        1
    } else {
        0
    }
}

/// The boundary topology of a universe.
#[derive(Clone, Copy, Debug, PartialEq, Eq, Structural)]
pub enum UniverseMode {
    /// The grid wraps at the edges (toroidal); every cell has 8 neighbors.
    FixedSizePeriodic,
    /// The grid has hard edges; coordinates outside the bounds do not exist.
    FixedSizeNonPeriodic,
}

/// Why an operation on a universe was rejected.
#[derive(Clone, Copy, Debug, PartialEq, Eq, Structural)]
pub enum GridError {
    /// A universe cannot be constructed with a zero width or height.
    InvalidDimensions,
    /// The addressed cell lies outside the grid.
    OutOfBounds,
}

/// The mathematical model of a universe: dimensions, topology and the
/// row-major cell sequence.  Cell `(row, col)` sits at index
/// `row * width + col`.
#[verifier::ext_equal]
pub ghost struct Board {
    pub width: nat,
    pub height: nat,
    pub mode: UniverseMode,
    pub cells: Seq<Cell>,
}

impl Board {
    /// A board is well formed when both dimensions are positive, the cell
    /// count fits the index arithmetic, and the cell sequence has exactly
    /// one entry per grid position.
    pub open spec fn wf(self) -> bool {
        &&& self.width >= 1
        &&& self.height >= 1
        &&& self.width * self.height <= u32::MAX
        &&& self.cells.len() == self.width * self.height
    }

    /// Whether `(r, c)` addresses a cell of this board.
    pub open spec fn in_bounds(self, r: int, c: int) -> bool {
        0 <= r < self.height && 0 <= c < self.width
    }

    /// The cell at `(r, c)`.
    pub open spec fn cell_at(self, r: int, c: int) -> Cell {
        self.cells[r * self.width + c]
    }

    /// What the neighbor at offset `(dr, dc)` from `(r, c)` contributes to
    /// the live-neighbor count.  In periodic mode the offset coordinate is
    /// reduced modulo the dimensions (Euclidean, so `-1` wraps to the far
    /// edge); in non-periodic mode an out-of-bounds neighbor contributes 0.
    pub open spec fn neighbor_weight(self, r: int, c: int, dr: int, dc: int) -> nat {
        match self.mode {
            UniverseMode::FixedSizePeriodic => weight(
                self.cell_at((r + dr) % self.height as int, (c + dc) % self.width as int),
            ),
            UniverseMode::FixedSizeNonPeriodic => if self.in_bounds(r + dr, c + dc) {
                weight(self.cell_at(r + dr, c + dc))
            } else {
                0
            },
        }
    }

    /// The number of live cells among the 8 neighbors of `(r, c)`.
    pub open spec fn neighbor_count(self, r: int, c: int) -> nat {
        self.neighbor_weight(r, c, -1, -1) + self.neighbor_weight(r, c, -1, 0)
            + self.neighbor_weight(r, c, -1, 1) + self.neighbor_weight(r, c, 0, -1)
            + self.neighbor_weight(r, c, 0, 1) + self.neighbor_weight(r, c, 1, -1)
            + self.neighbor_weight(r, c, 1, 0) + self.neighbor_weight(r, c, 1, 1)
    }

    /// The row of linear index `i`.
    pub open spec fn row_of(self, i: int) -> int {
        i / self.width as int
    }

    /// The column of linear index `i`.
    pub open spec fn col_of(self, i: int) -> int {
        i % self.width as int
    }

    /// The next generation of the cell sequence: every cell steps by the
    /// transition rule applied to its current state and live-neighbor count.
    pub open spec fn next_cells(self) -> Seq<Cell> {
        Seq::new(
            self.cells.len(),
            |i: int| next_state(self.cells[i], self.neighbor_count(self.row_of(i), self.col_of(i))),
        )
    }

    /// The board advanced by one generation.
    pub open spec fn step(self) -> Board {
        Board { cells: self.next_cells(), ..self }
    }

    /// The board advanced by `k` generations.
    pub open spec fn after(self, k: nat) -> Board
        decreases k,
    {
        if k == 0 {
            self
        } else {
            self.after((k - 1) as nat).step()
        }
    }

    /// The board with the cell at `(r, c)` replaced by `state`.
    pub open spec fn written(self, r: int, c: int, state: Cell) -> Board {
        Board { cells: self.cells.update(r * self.width as int + c, state), ..self }
    }

    /// The board with its topology switched and everything else untouched.
    pub open spec fn with_mode(self, mode: UniverseMode) -> Board {
        Board { mode, ..self }
    }

    /// The textual rendering: `height` lines of `width` glyphs, one per
    /// cell, row-major with row 0 first, each line terminated by a newline.
    pub open spec fn rendered(self) -> Seq<char> {
        Seq::new(
            self.height * (self.width + 1),
            |k: int|
                {
                    let stride = self.width + 1;
                    if k % stride as int == self.width as int {
                        '\n'
                    } else {
                        glyph(self.cell_at(k / stride as int, k % stride as int))
                    }
                },
        )
    }
}

/// The glyph a cell renders as.
pub open spec fn glyph(c: Cell) -> char {
    if c is Alive {
        '◼'
    } else {
        '◻'
    }
}

/// The Game of Life transition rule: a live cell survives with 2 or 3 live
/// neighbors and otherwise dies; a dead cell is born with exactly 3 live
/// neighbors and otherwise stays dead.
pub open spec fn next_state(cell: Cell, n: nat) -> Cell {
    match cell {
        Cell::Alive => if n == 2 || n == 3 {
            Cell::Alive
        } else {
            Cell::Dead
        },
        Cell::Dead => if n == 3 {
            Cell::Alive
        } else {
            Cell::Dead
        },
    }
}

/// The default seed: cell `i` starts alive exactly when `i` is divisible by
/// 2 or by 7.
pub open spec fn seed_cell(i: int) -> Cell {
    if i % 2 == 0 || i % 7 == 0 {
        Cell::Alive
    } else {
        Cell::Dead
    }
}

/// The seeded cell sequence of length `n`.
pub open spec fn seeded(n: nat) -> Seq<Cell> {
    Seq::new(n, |i: int| seed_cell(i))
}

/// The board a freshly constructed or reinitialized universe models.
pub open spec fn seeded_board(width: nat, height: nat, mode: UniverseMode) -> Board {
    Board { width, height, mode, cells: seeded(width * height) }
}

/// Row-major indices stay below the cell count.
pub proof fn lemma_row_major_bound(r: int, c: int, w: int, h: int)
    by (nonlinear_arith)
    requires
        0 <= r < h,
        0 <= c < w,
    ensures
        0 <= r * w + c < h * w,
        r * w + c < w * h,
{
}

/// A linear index decomposes into the row and column it encodes, and the
/// decomposition inverts the row-major encoding.
pub proof fn lemma_linear_index(b: Board, i: int)
    requires
        b.wf(),
        0 <= i < b.cells.len(),
    ensures
        0 <= b.row_of(i) < b.height,
        0 <= b.col_of(i) < b.width,
        b.row_of(i) * b.width + b.col_of(i) == i,
{
    let w = b.width as int;
    lemma_fundamental_div_mod(i, w);
    lemma_mod_bound(i, w);
    assert(0 <= i / w < b.height) by (nonlinear_arith)
        requires
            w >= 1,
            i == w * (i / w) + i % w,
            0 <= i % w < w,
            0 <= i < w * b.height;
}

/// The row-major encoding of an in-bounds coordinate decomposes back into
/// that coordinate.
pub proof fn lemma_index_roundtrip(b: Board, r: int, c: int)
    requires
        b.wf(),
        b.in_bounds(r, c),
    ensures
        0 <= r * b.width + c < b.cells.len(),
        b.row_of(r * b.width + c) == r,
        b.col_of(r * b.width + c) == c,
{
    let w = b.width as int;
    lemma_row_major_bound(r, c, w, b.height as int);
    lemma_fundamental_div_mod_converse(r * w + c, w, r, c);
}

/// Decrementing a coordinate of `[0, m)` modulo `m` wraps 0 to `m - 1`.
proof fn lemma_wrap_dec(x: int, m: int)
    requires
        0 <= x < m,
    ensures
        (x - 1) % m == if x == 0 {
            m - 1
        } else {
            x - 1
        },
{
    if x == 0 {
        lemma_mod_multiples_vanish(-1, m - 1, m);
        lemma_small_mod((m - 1) as nat, m as nat);
    } else {
        lemma_small_mod((x - 1) as nat, m as nat);
    }
}

/// Incrementing a coordinate of `[0, m)` modulo `m` wraps `m - 1` to 0.
proof fn lemma_wrap_inc(x: int, m: int)
    requires
        0 <= x < m,
    ensures
        (x + 1) % m == if x == m - 1 {
            0
        } else {
            x + 1
        },
{
    if x == m - 1 {
        lemma_mod_multiples_vanish(1, 0, m);
        lemma_small_mod(0, m as nat);
    } else {
        lemma_small_mod((x + 1) as nat, m as nat);
    }
}

/// The simulated universe: a `width x height` grid of cells with a chosen
/// boundary topology.
pub struct Universe {
    width: u32,
    height: u32,
    cells: Vec<Cell>,
    mode: UniverseMode,
}

impl View for Universe {
    type V = Board;

    closed spec fn view(&self) -> Board {
        Board {
            width: self.width as nat,
            height: self.height as nat,
            mode: self.mode,
            cells: self.cells@,
        }
    }
}

/// Builds the default seeded cell buffer of the given length.
fn seed_cells(total: u32) -> (cells: Vec<Cell>)
    ensures
        cells@ == seeded(total as nat),
{
    let mut cells: Vec<Cell> = Vec::new();
    let mut i: u32 = 0;
    while i < total
        invariant
            i <= total,
            cells@.len() == i,
            forall|k: int| 0 <= k < i ==> cells@[k] == seed_cell(k),
        decreases total - i,
    {
        if i % 2 == 0 || i % 7 == 0 {
            cells.push(Cell::Alive);
        } else {
            cells.push(Cell::Dead);
        }
        i = i + 1;
    }
    proof {
        assert(cells@ =~= seeded(total as nat));
    }
    cells
}

impl Universe {
    /// The universe models a well-formed board.
    pub open spec fn wf(&self) -> bool {
        self@.wf()
    }

    /// The linear index of cell `(row, column)`.
    fn get_index(&self, row: u32, column: u32) -> (idx: usize)
        requires
            self.wf(),
            self@.in_bounds(row as int, column as int),
        ensures
            idx == row * self@.width + column,
            idx < self@.cells.len(),
    {
        proof {
            lemma_row_major_bound(
                row as int,
                column as int,
                self@.width as int,
                self@.height as int,
            );
        }
        (row * self.width + column) as usize
    }

    /// Counts the live cells among the 8 neighbors of `(row, column)` under
    /// the universe's boundary topology.
    pub fn live_neighbor_count(&self, row: u32, column: u32) -> (count: u8)
        requires
            self.wf(),
            self@.in_bounds(row as int, column as int),
        ensures
            count as nat == self@.neighbor_count(row as int, column as int),
            count <= 8,
    {
        match self.mode {
            UniverseMode::FixedSizePeriodic => self.periodic_neighbor_count(row, column),
            UniverseMode::FixedSizeNonPeriodic => self.nonperiodic_neighbor_count(row, column),
        }
    }

    /// The live-neighbor count under the wrapping topology: all 8 offset
    /// coordinates are reduced modulo the dimensions and counted.
    #[verifier::rlimit(60)]
    fn periodic_neighbor_count(&self, row: u32, column: u32) -> (count: u8)
        requires
            self.wf(),
            self@.in_bounds(row as int, column as int),
            self@.mode is FixedSizePeriodic,
        ensures
            count as nat == self@.neighbor_count(row as int, column as int),
            count <= 8,
    {
        let ghost r = row as int;
        let ghost c = column as int;
        let ghost b = self@;
        let mut count: u8 = 0;
        let north = if row == 0 {
            self.height - 1
        } else {
            row - 1
        };
        let south = if row == self.height - 1 {
            0
        } else {
            row + 1
        };
        let west = if column == 0 {
            self.width - 1
        } else {
            column - 1
        };
        let east = if column == self.width - 1 {
            0
        } else {
            column + 1
        };
        proof {
            lemma_wrap_dec(row as int, self@.height as int);
            lemma_wrap_inc(row as int, self@.height as int);
            lemma_wrap_dec(column as int, self@.width as int);
            lemma_wrap_inc(column as int, self@.width as int);
            lemma_small_mod(row as nat, self@.height);
            lemma_small_mod(column as nat, self@.width);
        }
        let nw = self.get_index(north, west);
        count = count + self.cells[nw].as_u8();
        proof {
            assert(count as nat == b.neighbor_weight(r, c, -1, -1));
        }
        let n = self.get_index(north, column);
        count = count + self.cells[n].as_u8();
        proof {
            assert(count as nat == b.neighbor_weight(r, c, -1, -1) + b.neighbor_weight(
                r,
                c,
                -1,
                0,
            ));
        }
        let ne = self.get_index(north, east);
        count = count + self.cells[ne].as_u8();
        proof {
            assert(count as nat == b.neighbor_weight(r, c, -1, -1) + b.neighbor_weight(
                r,
                c,
                -1,
                0,
            ) + b.neighbor_weight(r, c, -1, 1));
        }
        let w = self.get_index(row, west);
        count = count + self.cells[w].as_u8();
        proof {
            assert(count as nat == b.neighbor_weight(r, c, -1, -1) + b.neighbor_weight(
                r,
                c,
                -1,
                0,
            ) + b.neighbor_weight(r, c, -1, 1) + b.neighbor_weight(r, c, 0, -1));
        }
        let e = self.get_index(row, east);
        count = count + self.cells[e].as_u8();
        proof {
            assert(count as nat == b.neighbor_weight(r, c, -1, -1) + b.neighbor_weight(
                r,
                c,
                -1,
                0,
            ) + b.neighbor_weight(r, c, -1, 1) + b.neighbor_weight(r, c, 0, -1)
                + b.neighbor_weight(r, c, 0, 1));
        }
        let sw = self.get_index(south, west);
        count = count + self.cells[sw].as_u8();
        proof {
            assert(count as nat == b.neighbor_weight(r, c, -1, -1) + b.neighbor_weight(
                r,
                c,
                -1,
                0,
            ) + b.neighbor_weight(r, c, -1, 1) + b.neighbor_weight(r, c, 0, -1)
                + b.neighbor_weight(r, c, 0, 1) + b.neighbor_weight(r, c, 1, -1));
        }
        let s = self.get_index(south, column);
        count = count + self.cells[s].as_u8();
        proof {
            assert(count as nat == b.neighbor_weight(r, c, -1, -1) + b.neighbor_weight(
                r,
                c,
                -1,
                0,
            ) + b.neighbor_weight(r, c, -1, 1) + b.neighbor_weight(r, c, 0, -1)
                + b.neighbor_weight(r, c, 0, 1) + b.neighbor_weight(r, c, 1, -1)
                + b.neighbor_weight(r, c, 1, 0));
        }
        let se = self.get_index(south, east);
        count = count + self.cells[se].as_u8();
        proof {
            assert(count as nat == b.neighbor_count(r, c));
        }
        count
    }

    /// The live-neighbor count under the hard-edged topology: offsets that
    /// leave the grid are excluded entirely — only 3 neighbors exist at a
    /// corner and 5 on a non-corner edge.
    #[verifier::rlimit(60)]
    fn nonperiodic_neighbor_count(&self, row: u32, column: u32) -> (count: u8)
        requires
            self.wf(),
            self@.in_bounds(row as int, column as int),
            self@.mode is FixedSizeNonPeriodic,
        ensures
            count as nat == self@.neighbor_count(row as int, column as int),
            count <= 8,
    {
        let ghost r = row as int;
        let ghost c = column as int;
        let ghost b = self@;
        let mut count: u8 = 0;
        let is_not_first_row = row != 0;
        let is_not_first_column = column != 0;
        let is_not_last_row = row != self.height - 1;
        let is_not_last_column = column != self.width - 1;

        let ghost north_sum = b.neighbor_weight(r, c, -1, -1) + b.neighbor_weight(
            r,
            c,
            -1,
            0,
        ) + b.neighbor_weight(r, c, -1, 1);
        let ghost mid_sum = north_sum + b.neighbor_weight(r, c, 0, -1)
            + b.neighbor_weight(r, c, 0, 1);

        if is_not_first_row {
            let n = self.get_index(row - 1, column);
            count = count + self.cells[n].as_u8();
            proof {
                assert(count as nat == b.neighbor_weight(r, c, -1, 0));
            }
            if is_not_first_column {
                let nw = self.get_index(row - 1, column - 1);
                count = count + self.cells[nw].as_u8();
            }
            proof {
                assert(count as nat == b.neighbor_weight(r, c, -1, 0) + b.neighbor_weight(
                    r,
                    c,
                    -1,
                    -1,
                ));
            }
            if is_not_last_column {
                let ne = self.get_index(row - 1, column + 1);
                count = count + self.cells[ne].as_u8();
            }
        }
        proof {
            assert(count as nat == north_sum);
        }
        if is_not_first_column {
            let w = self.get_index(row, column - 1);
            count = count + self.cells[w].as_u8();
        }
        proof {
            assert(count as nat == north_sum + b.neighbor_weight(r, c, 0, -1));
        }
        if is_not_last_column {
            let e = self.get_index(row, column + 1);
            count = count + self.cells[e].as_u8();
        }
        proof {
            assert(count as nat == mid_sum);
        }
        if is_not_last_row {
            let s = self.get_index(row + 1, column);
            count = count + self.cells[s].as_u8();
            proof {
                assert(count as nat == mid_sum + b.neighbor_weight(r, c, 1, 0));
            }
            if is_not_first_column {
                let sw = self.get_index(row + 1, column - 1);
                count = count + self.cells[sw].as_u8();
            }
            proof {
                assert(count as nat == mid_sum + b.neighbor_weight(r, c, 1, 0)
                    + b.neighbor_weight(r, c, 1, -1));
            }
            if is_not_last_column {
                let se = self.get_index(row + 1, column + 1);
                count = count + self.cells[se].as_u8();
            }
        }
        proof {
            assert(count as nat == b.neighbor_count(r, c));
        }
        count
    }

    /// Advances the universe by exactly one generation: every cell steps by
    /// the transition rule applied to the current (pre-tick) generation.
    pub fn tick(&mut self)
        requires
            old(self).wf(),
        ensures
            final(self).wf(),
            final(self)@ == old(self)@.step(),
    {
        let ghost b = self@;
        let mut next: Vec<Cell> = Vec::new();
        let mut row: u32 = 0;
        while row < self.height
            invariant
                *self == *old(self),
                self.wf(),
                b == self@,
                row <= self@.height,
                next@.len() == row * self@.width,
                forall|k: int| 0 <= k < next@.len() ==> next@[k] == b.next_cells()[k],
            decreases self@.height - row,
        {
            let mut col: u32 = 0;
            while col < self.width
                invariant
                    *self == *old(self),
                    self.wf(),
                    b == self@,
                    row < self@.height,
                    col <= self@.width,
                    next@.len() == row * self@.width + col,
                    forall|k: int| 0 <= k < next@.len() ==> next@[k] == b.next_cells()[k],
                decreases self@.width - col,
            {
                let idx = self.get_index(row, col);
                let cell = self.cells[idx];
                let live_neighbors = self.live_neighbor_count(row, col);

                let next_cell = match cell {
                    Cell::Alive => if live_neighbors == 2 || live_neighbors == 3 {
                        Cell::Alive
                    } else {
                        Cell::Dead
                    },
                    Cell::Dead => if live_neighbors == 3 {
                        Cell::Alive
                    } else {
                        Cell::Dead
                    },
                };
                proof {
                    lemma_index_roundtrip(b, row as int, col as int);
                }
                next.push(next_cell);
                col = col + 1;
            }
            proof {
                assert((row + 1) * b.width == row * b.width + b.width) by (nonlinear_arith);
            }
            row = row + 1;
        }
        proof {
            assert(b.height * b.width == b.width * b.height) by (nonlinear_arith);
            assert(next@ =~= b.next_cells());
        }
        self.cells = next;
        proof {
            assert(self@ =~= b.step());
        }
    }

    /// Constructs a `width x height` universe with the default seed pattern.
    /// Zero dimensions are rejected with `InvalidDimensions`.  The cell
    /// count must fit the 32-bit index arithmetic, so `width * height` may
    /// not exceed `u32::MAX`.
    pub fn new(width: u32, height: u32, mode: UniverseMode) -> (result: Result<
        Universe,
        GridError,
    >)
        requires
            width * height <= u32::MAX,
        ensures
            result is Ok <==> (width >= 1 && height >= 1),
            result matches Ok(u) ==> u.wf() && u@ == seeded_board(
                width as nat,
                height as nat,
                mode,
            ),
            result matches Err(e) ==> e == GridError::InvalidDimensions,
    {
        if width == 0 || height == 0 {
            return Err(GridError::InvalidDimensions);
        }
        let cells = seed_cells(width * height);
        let universe = Universe { width, height, cells, mode };
        proof {
            assert(universe@ =~= seeded_board(width as nat, height as nat, mode));
        }
        Ok(universe)
    }

    /// Replaces the dimensions and re-seeds every cell with the default
    /// pattern, keeping the boundary mode.  Zero dimensions are rejected
    /// with `InvalidDimensions` and leave the universe unchanged.  As with
    /// construction, `width * height` may not exceed `u32::MAX`.
    pub fn reinit_cells(&mut self, width: u32, height: u32) -> (result: Result<(), GridError>)
        requires
            old(self).wf(),
            width * height <= u32::MAX,
        ensures
            final(self).wf(),
            result is Ok <==> (width >= 1 && height >= 1),
            result is Ok ==> final(self)@ == seeded_board(
                width as nat,
                height as nat,
                old(self)@.mode,
            ),
            result matches Err(e) ==> e == GridError::InvalidDimensions && *final(self) == *old(
                self,
            ),
    {
        if width == 0 || height == 0 {
            return Err(GridError::InvalidDimensions);
        }
        self.width = width;
        self.height = height;
        self.cells = seed_cells(width * height);
        proof {
            assert(self@ =~= seeded_board(width as nat, height as nat, old(self)@.mode));
        }
        Ok(())
    }

    /// Switches the boundary topology; the cell buffer is untouched.
    pub fn set_mode(&mut self, mode: UniverseMode)
        ensures
            final(self)@ == old(self)@.with_mode(mode),
    {
        self.mode = mode;
        proof {
            assert(self@ =~= old(self)@.with_mode(mode));
        }
    }

    /// Flips the cell at `(row, col)` between `Alive` and `Dead`.
    /// Out-of-bounds coordinates are rejected and leave the universe
    /// unchanged.
    pub fn toggle_cell(&mut self, row: u32, col: u32) -> (result: Result<(), GridError>)
        requires
            old(self).wf(),
        ensures
            final(self).wf(),
            result is Ok <==> old(self)@.in_bounds(row as int, col as int),
            result is Ok ==> final(self)@ == old(self)@.written(
                row as int,
                col as int,
                old(self)@.cell_at(row as int, col as int).flipped(),
            ),
            result matches Err(e) ==> e == GridError::OutOfBounds && *final(self) == *old(self),
    {
        if row >= self.height || col >= self.width {
            return Err(GridError::OutOfBounds);
        }
        let idx = self.get_index(row, col);
        let mut cell = self.cells[idx];
        cell.toggle();
        self.cells[idx] = cell;
        proof {
            assert(self@ =~= old(self)@.written(
                row as int,
                col as int,
                old(self)@.cell_at(row as int, col as int).flipped(),
            ));
        }
        Ok(())
    }

    /// Sets the cell at `(row, col)` to `Alive`, effective immediately.
    /// Out-of-bounds coordinates are rejected and leave the universe
    /// unchanged.
    pub fn set_alive(&mut self, row: u32, col: u32) -> (result: Result<(), GridError>)
        requires
            old(self).wf(),
        ensures
            final(self).wf(),
            result is Ok <==> old(self)@.in_bounds(row as int, col as int),
            result is Ok ==> final(self)@ == old(self)@.written(row as int, col as int, Cell::Alive),
            result matches Err(e) ==> e == GridError::OutOfBounds && *final(self) == *old(self),
    {
        if row >= self.height || col >= self.width {
            return Err(GridError::OutOfBounds);
        }
        let idx = self.get_index(row, col);
        self.cells[idx] = Cell::Alive;
        proof {
            assert(self@ =~= old(self)@.written(row as int, col as int, Cell::Alive));
        }
        Ok(())
    }

    /// Sets the cell at `(row, col)` to `Dead`, effective immediately.
    /// Out-of-bounds coordinates are rejected and leave the universe
    /// unchanged.
    pub fn set_dead(&mut self, row: u32, col: u32) -> (result: Result<(), GridError>)
        requires
            old(self).wf(),
        ensures
            final(self).wf(),
            result is Ok <==> old(self)@.in_bounds(row as int, col as int),
            result is Ok ==> final(self)@ == old(self)@.written(row as int, col as int, Cell::Dead),
            result matches Err(e) ==> e == GridError::OutOfBounds && *final(self) == *old(self),
    {
        if row >= self.height || col >= self.width {
            return Err(GridError::OutOfBounds);
        }
        let idx = self.get_index(row, col);
        self.cells[idx] = Cell::Dead;
        proof {
            assert(self@ =~= old(self)@.written(row as int, col as int, Cell::Dead));
        }
        Ok(())
    }

    /// Reads the cell at `(row, col)`.  Out-of-bounds coordinates are
    /// rejected with `OutOfBounds`.
    pub fn get(&self, row: u32, col: u32) -> (result: Result<Cell, GridError>)
        requires
            self.wf(),
        ensures
            result is Ok <==> self@.in_bounds(row as int, col as int),
            result matches Ok(cell) ==> cell == self@.cell_at(row as int, col as int),
            result matches Err(e) ==> e == GridError::OutOfBounds,
    {
        if row >= self.height || col >= self.width {
            return Err(GridError::OutOfBounds);
        }
        let idx = self.get_index(row, col);
        Ok(self.cells[idx])
    }

    /// The grid width.
    pub fn width(&self) -> (w: u32)
        ensures
            w as nat == self@.width,
    {
        self.width
    }

    /// The grid height.
    pub fn height(&self) -> (h: u32)
        ensures
            h as nat == self@.height,
    {
        self.height
    }

    /// A read-only view of the cell buffer, row-major.
    pub fn cells(&self) -> (cells: &Vec<Cell>)
        ensures
            cells@ == self@.cells,
    {
        &self.cells
    }

    /// The per-vertex color buffer for the current generation.
    pub fn webgl_colors(&self) -> (colors: Vec<u8>)
        ensures
            colors@ == webgl::colors_of(self@.cells),
    {
        webgl::create_colors(&self.cells)
    }

    /// The triangle-list vertex buffer for the current dimensions, in
    /// lattice units (see [`webgl`]).
    pub fn webgl_vertices(&self) -> (vertices: Vec<u32>)
        ensures
            vertices@ == webgl::grid_vertices(self@.width, self@.height),
    {
        webgl::create_vertices(self.width, self.height)
    }

    /// Renders the grid as text: `height` newline-terminated lines of
    /// `width` glyphs each, row 0 first.
    pub fn render_string(&self) -> (s: String)
        requires
            self.wf(),
        ensures
            s@ == self@.rendered(),
    {
        let ghost b = self@;
        let ghost stride = b.width as int + 1;
        let mut s = String::from_str("");
        proof {
            reveal_strlit("");
            reveal_strlit("◼");
            reveal_strlit("◻");
            reveal_strlit("\n");
        }
        let mut row: u32 = 0;
        while row < self.height
            invariant
                self.wf(),
                b == self@,
                stride == b.width + 1,
                row <= b.height,
                s@.len() == row * stride,
                forall|k: int| 0 <= k < s@.len() ==> s@[k] == b.rendered()[k],
            decreases b.height - row,
        {
            let mut col: u32 = 0;
            while col < self.width
                invariant
                    self.wf(),
                    b == self@,
                    stride == b.width + 1,
                    row < b.height,
                    col <= b.width,
                    s@.len() == row * stride + col,
                    forall|k: int| 0 <= k < s@.len() ==> s@[k] == b.rendered()[k],
                decreases b.width - col,
            {
                proof {
                    reveal_strlit("◼");
                    reveal_strlit("◻");
                    lemma_fundamental_div_mod_converse(
                        row as int * stride + col,
                        stride,
                        row as int,
                        col as int,
                    );
                    lemma_row_major_bound(row as int, col as int, stride, b.height as int);
                    lemma_index_roundtrip(b, row as int, col as int);
                }
                let idx = self.get_index(row, col);
                if matches!(self.cells[idx], Cell::Alive) {
                    s.append("◼");
                } else {
                    s.append("◻");
                }
                col = col + 1;
            }
            proof {
                reveal_strlit("\n");
                lemma_fundamental_div_mod_converse(
                    row as int * stride + b.width as int,
                    stride,
                    row as int,
                    b.width as int,
                );
                lemma_row_major_bound(row as int, b.width as int, stride, b.height as int);
                assert((row + 1) * stride == row * stride + stride) by (nonlinear_arith);
            }
            s.append("\n");
            row = row + 1;
        }
        proof {
            assert(s@ =~= b.rendered());
        }
        s
    }
}

impl Cell {
    /// This cell's contribution to a live-neighbor count, as a byte.
    pub fn as_u8(self) -> (v: u8)
        ensures
            v as nat == weight(self),
            v <= 1,
    {
        match self {
            Cell::Alive => 1,
            Cell::Dead => 0,
        }
    }
}

} // verus!
