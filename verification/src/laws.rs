//! Grid-wide laws, each proved once and for all over the abstract model
//! that the `Grid` contracts are stated in.

use crate::grid::cell;
use crate::grid::col_count;
use crate::grid::dead_grid;
use crate::grid::neighbor_count;
use crate::grid::next_alive;
use crate::grid::rectangular;
use crate::grid::resized;
use crate::grid::row_count;
use crate::grid::stepped;
use vstd::prelude::*;

verus! {

/// Out-of-bounds positions always read as dead, whatever the grid's
/// dimensions, including zero by zero.
pub proof fn lemma_out_of_bounds_dead(g: Seq<Seq<bool>>, r: int, c: int)
    requires
        rectangular(g),
        !(0 <= r < row_count(g) && 0 <= c < col_count(g)),
    ensures
        !cell(g, r, c),
{
}

/// A write is read back exactly: after writing `v` at in-bounds (r, c),
/// that position reads `v` and every other position is unchanged.
pub proof fn lemma_write_then_read(g: Seq<Seq<bool>>, r: int, c: int, v: bool)
    requires
        rectangular(g),
        0 <= r < row_count(g),
        0 <= c < col_count(g),
    ensures
        cell(g.update(r, g[r].update(c, v)), r, c) == v,
        forall|r2: int, c2: int|
            !(r2 == r && c2 == c) ==> cell(g.update(r, g[r].update(c, v)), r2, c2) == cell(
                g,
                r2,
                c2,
            ),
{
}

/// Resizing keeps the value of every cell that lies inside both the old
/// and the new bounds, makes every other cell of the result dead, and
/// gives the result exactly the requested dimensions.
pub proof fn lemma_resize_preserves_overlap(g: Seq<Seq<bool>>, rows: nat, cols: nat)
    requires
        rectangular(g),
    ensures
        row_count(resized(g, rows, cols)) == rows,
        rows > 0 ==> col_count(resized(g, rows, cols)) == cols,
        rectangular(resized(g, rows, cols)),
        forall|r: int, c: int|
            0 <= r < rows && 0 <= c < cols && r < row_count(g) && c < col_count(g) ==> #[trigger] resized(
                g,
                rows,
                cols,
            )[r][c] == g[r][c],
        forall|r: int, c: int|
            0 <= r < rows && 0 <= c < cols && !(r < row_count(g) && c < col_count(g))
                ==> !(#[trigger] resized(g, rows, cols)[r][c]),
{
    assert forall|r: int, c: int|
        0 <= r < rows && 0 <= c < cols && !(r < row_count(g) && c < col_count(
            g,
        )) implies !(#[trigger] resized(g, rows, cols)[r][c]) by {
        lemma_out_of_bounds_dead(g, r, c);
    }
}

/// Stepping is deterministic: it is a pure function of the grid contents
/// and the `wrap` flag, so equal grids stepped in the same mode give
/// equal results.
pub proof fn lemma_step_deterministic(g1: Seq<Seq<bool>>, g2: Seq<Seq<bool>>, wrap: bool)
    requires
        g1 == g2,
    ensures
        stepped(g1, wrap) == stepped(g2, wrap),
{
}

/// A step never changes the shape of the grid, whatever the mode and
/// the dimensions, zero-sized ones included.
pub proof fn lemma_step_keeps_shape(g: Seq<Seq<bool>>, wrap: bool)
    ensures
        row_count(stepped(g, wrap)) == row_count(g),
        col_count(stepped(g, wrap)) == col_count(g),
        rectangular(stepped(g, wrap)),
{
}

/// The life rule at one in-bounds cell: exactly three live neighbors
/// give life, a live cell with two survives, and every other cell —
/// underpopulated (at most one neighbor), overpopulated (four or more),
/// or dead without exactly three — is dead in the next generation.
pub proof fn lemma_life_rule(g: Seq<Seq<bool>>, r: int, c: int, wrap: bool)
    requires
        rectangular(g),
        0 <= r < row_count(g),
        0 <= c < col_count(g),
    ensures
        stepped(g, wrap)[r][c] == next_alive(g[r][c], neighbor_count(g, r, c, wrap)),
        g[r][c] && neighbor_count(g, r, c, wrap) <= 1 ==> !stepped(g, wrap)[r][c],
        neighbor_count(g, r, c, wrap) >= 4 ==> !stepped(g, wrap)[r][c],
        !g[r][c] && neighbor_count(g, r, c, wrap) == 3 ==> stepped(g, wrap)[r][c],
        g[r][c] && (neighbor_count(g, r, c, wrap) == 2 || neighbor_count(g, r, c, wrap) == 3)
            ==> stepped(g, wrap)[r][c],
        !g[r][c] && neighbor_count(g, r, c, wrap) != 3 ==> !stepped(g, wrap)[r][c],
{
}

/// A cleared grid keeps its dimensions and every in-bounds position
/// reads as dead.
pub proof fn lemma_cleared_all_dead(rows: nat, cols: nat)
    ensures
        row_count(dead_grid(rows, cols)) == rows,
        rows > 0 ==> col_count(dead_grid(rows, cols)) == cols,
        rectangular(dead_grid(rows, cols)),
        forall|r: int, c: int| !cell(dead_grid(rows, cols), r, c),
{
}

} // verus!
