//! The grid itself: a row-major matrix of boolean cell states together
//! with the spec-level model that the contracts are stated over.

use vstd::arithmetic::div_mod::lemma_mod_self_0;
use vstd::arithmetic::div_mod::lemma_small_mod;
use vstd::prelude::*;

verus! {

/// Number of rows of the abstract grid.
pub open spec fn row_count(g: Seq<Seq<bool>>) -> nat {
    g.len()
}

/// Number of columns of the abstract grid: the length of the first row,
/// or zero when there are no rows.
pub open spec fn col_count(g: Seq<Seq<bool>>) -> nat {
    if g.len() == 0 {
        0
    } else {
        g[0].len()
    }
}

/// Every row has the same length: the matrix is rectangular.
pub open spec fn rectangular(g: Seq<Seq<bool>>) -> bool {
    forall|r: int| 0 <= r < g.len() ==> (#[trigger] g[r]).len() == col_count(g)
}

/// Total cell lookup: out-of-bounds positions read as dead.
pub open spec fn cell(g: Seq<Seq<bool>>, r: int, c: int) -> bool {
    0 <= r < g.len() && 0 <= c < g[r].len() && g[r][c]
}

/// Toroidal reduction of a coordinate that lies at most one dimension
/// below zero: negative coordinates wrap by adding the dimension once,
/// the rest are reduced modulo the dimension.
pub open spec fn wrapped(i: int, n: int) -> int {
    if i < 0 {
        i + n
    } else {
        i % n
    }
}

/// Whether the Moore neighbor of (r, c) at offset (dr, dc) is alive.
/// Bounded mode reads positions outside the grid as dead; wrapping mode
/// joins each edge to the opposite one, and a grid with a zero-sized
/// dimension has no live neighbors at all.
pub open spec fn neighbor(
    g: Seq<Seq<bool>>,
    r: int,
    c: int,
    dr: int,
    dc: int,
    wrap: bool,
) -> bool {
    if wrap {
        row_count(g) > 0 && col_count(g) > 0 && cell(
            g,
            wrapped(r + dr, row_count(g) as int),
            wrapped(c + dc, col_count(g) as int),
        )
    } else {
        cell(g, r + dr, c + dc)
    }
}

/// 1 for a live cell, 0 for a dead one.
pub open spec fn live(b: bool) -> int {
    if b {
        1
    } else {
        0
    }
}

/// Count of live cells among the eight Moore neighbors of (r, c).
pub open spec fn neighbor_count(g: Seq<Seq<bool>>, r: int, c: int, wrap: bool) -> int {
    live(neighbor(g, r, c, -1, -1, wrap)) + live(neighbor(g, r, c, -1, 0, wrap)) + live(
        neighbor(g, r, c, -1, 1, wrap),
    ) + live(neighbor(g, r, c, 0, -1, wrap)) + live(neighbor(g, r, c, 0, 1, wrap)) + live(
        neighbor(g, r, c, 1, -1, wrap),
    ) + live(neighbor(g, r, c, 1, 0, wrap)) + live(neighbor(g, r, c, 1, 1, wrap))
}

/// The standard rule: a cell is alive in the next generation iff it has
/// exactly three live neighbors, or it is alive now and has exactly two.
pub open spec fn next_alive(alive: bool, n: int) -> bool {
    n == 3 || (alive && n == 2)
}

/// The grid after one generation under the given neighbor-counting mode.
pub open spec fn stepped(g: Seq<Seq<bool>>, wrap: bool) -> Seq<Seq<bool>> {
    Seq::new(
        row_count(g),
        |r: int| Seq::new(col_count(g), |c: int| next_alive(g[r][c], neighbor_count(g, r, c, wrap))),
    )
}

/// An all-dead grid of the given dimensions.
pub open spec fn dead_grid(rows: nat, cols: nat) -> Seq<Seq<bool>> {
    Seq::new(rows, |r: int| Seq::new(cols, |c: int| false))
}

/// The given grid brought to the given dimensions: positions inside both
/// the old and the new bounds keep their value, all others are dead.
pub open spec fn resized(g: Seq<Seq<bool>>, rows: nat, cols: nat) -> Seq<Seq<bool>> {
    Seq::new(rows, |r: int| Seq::new(cols, |c: int| cell(g, r, c)))
}

/// A Game of Life grid: a rectangular, row-major matrix of cells, where
/// `true` is alive and `false` is dead.
#[derive(Clone)]
pub struct Grid {
    cells: Vec<Vec<bool>>,
}

impl View for Grid {
    type V = Seq<Seq<bool>>;

    closed spec fn view(&self) -> Seq<Seq<bool>> {
        self.cells@.map_values(|row: Vec<bool>| row@)
    }
}

impl Grid {
    /// The matrix is rectangular. Constructors establish this and every
    /// mutation preserves it.
    pub open spec fn wf(&self) -> bool {
        rectangular(self@)
    }

    /// A row of the given length with every cell dead.
    fn dead_row(cols: usize) -> (row: Vec<bool>)
        ensures
            row@.len() == cols,
            forall|c: int| 0 <= c < cols ==> !row@[c],
    {
        let mut row: Vec<bool> = Vec::new();
        while row.len() < cols
            invariant
                row@.len() <= cols,
                forall|c: int| 0 <= c < row@.len() ==> !row@[c],
            decreases cols - row@.len(),
        {
            row.push(false);
        }
        row
    }

    /// Make a grid of the given dimensions with every cell dead. Either
    /// dimension may be zero, giving an empty grid.
    pub fn new(rows: usize, cols: usize) -> (g: Grid)
        ensures
            g.wf(),
            g@ == dead_grid(rows as nat, cols as nat),
    {
        let mut cells: Vec<Vec<bool>> = Vec::new();
        while cells.len() < rows
            invariant
                cells@.len() <= rows,
                forall|r: int|
                    0 <= r < cells@.len() ==> {
                        &&& (#[trigger] cells@[r])@.len() == cols
                        &&& forall|c: int| 0 <= c < cols ==> !cells@[r]@[c]
                    },
            decreases rows - cells@.len(),
        {
            cells.push(Self::dead_row(cols));
        }
        let g = Grid { cells };
        proof {
            assert(g@ =~~= dead_grid(rows as nat, cols as nat));
        }
        g
    }

    /// The number of rows.
    pub fn rows(&self) -> (n: usize)
        ensures
            n == row_count(self@),
    {
        self.cells.len()
    }

    /// The number of columns: the length of the first row, or zero when
    /// there are no rows.
    pub fn cols(&self) -> (n: usize)
        ensures
            n == col_count(self@),
    {
        if self.cells.len() == 0 {
            0
        } else {
            self.cells[0].len()
        }
    }

    /// Read the cell at (row, col). Out-of-bounds positions read as dead,
    /// so this never fails, whatever the dimensions.
    pub fn get(&self, row: usize, col: usize) -> (b: bool)
        requires
            self.wf(),
        ensures
            b == cell(self@, row as int, col as int),
    {
        if row >= self.rows() || col >= self.cols() {
            false
        } else {
            proof {
                assert(self@[row as int] == self.cells@[row as int]@);
                assert(self@[row as int].len() == col_count(self@));
            }
            self.cells[row][col]
        }
    }

    /// Write the cell at (row, col), which must be in bounds; no other
    /// cell changes.
    pub fn set(&mut self, row: usize, col: usize, value: bool)
        requires
            old(self).wf(),
            row < row_count(old(self)@),
            col < col_count(old(self)@),
        ensures
            final(self).wf(),
            final(self)@ == old(self)@.update(
                row as int,
                old(self)@[row as int].update(col as int, value),
            ),
    {
        proof {
            assert(self@[row as int] == self.cells@[row as int]@);
            assert(self@[row as int].len() == col_count(self@));
        }
        self.cells[row][col] = value;
        proof {
            assert(self@ =~~= old(self)@.update(
                row as int,
                old(self)@[row as int].update(col as int, value),
            ));
        }
    }

    /// Set every cell dead, keeping the dimensions.
    pub fn clear(&mut self)
        ensures
            final(self).wf(),
            final(self)@ == dead_grid(row_count(old(self)@), col_count(old(self)@)),
    {
        let rows = self.rows();
        let cols = self.cols();
        *self = Grid::new(rows, cols);
    }

    /// Bring the grid to exactly `rows` by `cols`. Cells inside both the
    /// old and the new bounds keep their values, new space is dead, and
    /// cells outside the new bounds are discarded; the origin cell keeps
    /// its position.
    pub fn resize(&mut self, rows: usize, cols: usize)
        requires
            old(self).wf(),
        ensures
            final(self).wf(),
            final(self)@ == resized(old(self)@, rows as nat, cols as nat),
    {
        let mut cells: Vec<Vec<bool>> = Vec::new();
        while cells.len() < rows
            invariant
                self.wf(),
                cells@.len() <= rows,
                forall|i: int|
                    0 <= i < cells@.len() ==> (#[trigger] cells@[i])@ == resized(
                        self@,
                        rows as nat,
                        cols as nat,
                    )[i],
            decreases rows - cells@.len(),
        {
            let r = cells.len();
            let mut row: Vec<bool> = Vec::new();
            while row.len() < cols
                invariant
                    self.wf(),
                    r < rows,
                    row@.len() <= cols,
                    forall|j: int| 0 <= j < row@.len() ==> row@[j] == cell(self@, r as int, j),
                decreases cols - row@.len(),
            {
                let c = row.len();
                let alive = self.get(r, c);
                row.push(alive);
            }
            proof {
                assert(row@ =~= resized(self@, rows as nat, cols as nat)[r as int]);
            }
            cells.push(row);
        }
        self.cells = cells;
        proof {
            assert(self@ =~~= resized(old(self)@, rows as nat, cols as nat));
        }
    }

    /// Read the Moore neighbor of in-bounds (r, c) at offset (dr, dc),
    /// bounded or wrapping.
    fn neighbor_at(&self, r: usize, c: usize, dr: i8, dc: i8, wrap: bool) -> (b: bool)
        requires
            self.wf(),
            r < row_count(self@),
            c < col_count(self@),
            -1 <= dr <= 1,
            -1 <= dc <= 1,
        ensures
            b == neighbor(self@, r as int, c as int, dr as int, dc as int, wrap),
    {
        let rows = self.rows();
        let cols = self.cols();
        if wrap {
            let nr = if dr < 0 {
                if r == 0 {
                    rows - 1
                } else {
                    r - 1
                }
            } else if dr > 0 {
                if r + 1 == rows {
                    0
                } else {
                    r + 1
                }
            } else {
                r
            };
            let nc = if dc < 0 {
                if c == 0 {
                    cols - 1
                } else {
                    c - 1
                }
            } else if dc > 0 {
                if c + 1 == cols {
                    0
                } else {
                    c + 1
                }
            } else {
                c
            };
            proof {
                lemma_wrapped_step(r as int, dr as int, rows as int);
                lemma_wrapped_step(c as int, dc as int, cols as int);
            }
            self.get(nr, nc)
        } else {
            if (dr < 0 && r == 0) || (dc < 0 && c == 0) {
                false
            } else {
                let nr = if dr < 0 {
                    r - 1
                } else if dr > 0 {
                    r + 1
                } else {
                    r
                };
                let nc = if dc < 0 {
                    c - 1
                } else if dc > 0 {
                    c + 1
                } else {
                    c
                };
                self.get(nr, nc)
            }
        }
    }

    /// Count the live cells among the eight Moore neighbors of the
    /// in-bounds cell (r, c). Bounded counting (`wrap` false) treats
    /// positions outside the grid as dead; wrapping counting joins each
    /// edge to the opposite one.
    pub fn count_neighbors(&self, r: usize, c: usize, wrap: bool) -> (n: usize)
        requires
            self.wf(),
            r < row_count(self@),
            c < col_count(self@),
        ensures
            n == neighbor_count(self@, r as int, c as int, wrap),
    {
        let mut n: usize = 0;
        if self.neighbor_at(r, c, -1, -1, wrap) {
            n += 1;
        }
        if self.neighbor_at(r, c, -1, 0, wrap) {
            n += 1;
        }
        if self.neighbor_at(r, c, -1, 1, wrap) {
            n += 1;
        }
        if self.neighbor_at(r, c, 0, -1, wrap) {
            n += 1;
        }
        if self.neighbor_at(r, c, 0, 1, wrap) {
            n += 1;
        }
        if self.neighbor_at(r, c, 1, -1, wrap) {
            n += 1;
        }
        if self.neighbor_at(r, c, 1, 0, wrap) {
            n += 1;
        }
        if self.neighbor_at(r, c, 1, 1, wrap) {
            n += 1;
        }
        n
    }

    /// Advance one generation in place. The next generation is computed
    /// in full from the current one before it replaces it, so no cell
    /// update observes another cell's new value. `wrap` selects the
    /// neighbor-counting mode for this step only.
    pub fn step(&mut self, wrap: bool)
        requires
            old(self).wf(),
        ensures
            final(self).wf(),
            final(self)@ == stepped(old(self)@, wrap),
    {
        let rows = self.rows();
        let cols = self.cols();
        let mut cells: Vec<Vec<bool>> = Vec::new();
        while cells.len() < rows
            invariant
                self.wf(),
                rows == row_count(self@),
                cols == col_count(self@),
                cells@.len() <= rows,
                forall|i: int|
                    0 <= i < cells@.len() ==> (#[trigger] cells@[i])@ == stepped(self@, wrap)[i],
            decreases rows - cells@.len(),
        {
            let r = cells.len();
            let mut row: Vec<bool> = Vec::new();
            while row.len() < cols
                invariant
                    self.wf(),
                    rows == row_count(self@),
                    cols == col_count(self@),
                    r < rows,
                    row@.len() <= cols,
                    forall|j: int|
                        0 <= j < row@.len() ==> row@[j] == next_alive(
                            self@[r as int][j],
                            neighbor_count(self@, r as int, j, wrap),
                        ),
                decreases cols - row@.len(),
            {
                let c = row.len();
                let count = self.count_neighbors(r, c, wrap);
                let alive = self.get(r, c);
                row.push(count == 3 || (alive && count == 2));
            }
            proof {
                assert(row@ =~= stepped(self@, wrap)[r as int]);
            }
            cells.push(row);
        }
        self.cells = cells;
        proof {
            assert(self@ =~~= stepped(old(self)@, wrap));
        }
    }
}

impl Default for Grid {
    /// An empty, zero-by-zero grid.
    fn default() -> (g: Grid)
        ensures
            g.wf(),
            g@ == dead_grid(0, 0),
    {
        Grid::new(0, 0)
    }
}

/// For an in-bounds coordinate `i` offset by at most one step, the
/// edge-adjusted coordinate equals the toroidal reduction.
proof fn lemma_wrapped_step(i: int, d: int, n: int)
    requires
        0 <= i < n,
        -1 <= d <= 1,
    ensures
        wrapped(i + d, n) == if i + d < 0 {
            n - 1
        } else if i + d >= n {
            0
        } else {
            i + d
        },
{
    if i + d >= n {
        lemma_mod_self_0(n);
    } else if i + d >= 0 {
        lemma_small_mod((i + d) as nat, n as nat);
    }
}

} // verus!
