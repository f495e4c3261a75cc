//! The simulation driver: one Life transition per call, computed from a
//! snapshot of the whole prior generation, plus rendering of a generation
//! to text.

use crate::grid::{Cell, Grid};
use vstd::prelude::*;
use vstd::string::StringExecFns;

verus! {

/// The classic Life rule for the cell at index `i` of grid `g`, judged
/// against the complete generation `g`: alive with exactly three live
/// neighbors, unchanged with exactly two, dead otherwise.
pub open spec fn next_alive(g: Grid, i: int) -> bool {
    let n = g.live_count(g.data@[i].position.x as int, g.data@[i].position.y as int);
    if n == 3 {
        true
    } else if n == 2 {
        g.data@[i].is_alive
    } else {
        false
    }
}

/// Advances the grid by exactly one generation. Every cell's new state is
/// computed from the same prior generation (no cell's mid-update state
/// affects another cell), and the row-major order of coordinates is
/// preserved bit-for-bit: only the alive flags change.
pub fn update_cells(grid: &mut Grid)
    requires
        old(grid).populated(),
    ensures
        final(grid).populated(),
        final(grid).width == old(grid).width,
        final(grid).height == old(grid).height,
        final(grid).data@.len() == old(grid).data@.len(),
        forall|i: int|
            0 <= i < old(grid).data@.len() ==> (#[trigger] final(grid).data@[i]).position == old(
                grid,
            ).data@[i].position,
        forall|i: int|
            0 <= i < old(grid).data@.len() ==> (#[trigger] final(grid).data@[i]).is_alive
                == next_alive(*old(grid), i),
{
    let n = grid.data.len();
    let mut new_data: Vec<Cell> = Vec::new();
    let mut idx: usize = 0;
    while idx < n
        invariant
            grid.populated(),
            *grid == *old(grid),
            n == grid.data@.len(),
            idx <= n,
            new_data@.len() == idx as int,
            forall|i: int|
                0 <= i < idx ==> (#[trigger] new_data@[i]).position == grid.data@[i].position,
            forall|i: int|
                0 <= i < idx ==> (#[trigger] new_data@[i]).is_alive == next_alive(*grid, i),
        decreases n - idx,
    {
        let neighbors = grid.cell_neighbors(idx);
        let cell = grid.data[idx];
        let is_alive = if neighbors == 3 {
            true
        } else if neighbors == 2 {
            cell.is_alive
        } else {
            false
        };
        new_data.push(Cell { position: cell.position, is_alive });
        idx = idx + 1;
    }
    grid.data = new_data;
}

/// A transition never creates life out of nothing: on a populated grid whose
/// cells are all dead, every neighbor count is zero, so every cell of the
/// next generation is dead as well.
pub proof fn lemma_all_dead_stays_dead(g: Grid)
    requires
        g.populated(),
        forall|i: int| 0 <= i < g.data@.len() ==> !(#[trigger] g.data@[i]).is_alive,
    ensures
        forall|i: int| 0 <= i < g.data@.len() ==> !next_alive(g, i),
{
    assert forall|x: int, y: int| !g.live_at(x, y) by {
        if g.in_bounds(x, y) {
            crate::grid::lemma_index_in_range(g, x, y);
        }
    }
}

/// The text glyph of one cell: a green hash for a live cell, a red dot for
/// a dead one.
pub open spec fn glyph(alive: bool) -> Seq<char> {
    if alive {
        " \x1b[32m#\x1b[0m "@
    } else {
        " \x1b[31m.\x1b[0m "@
    }
}

/// A line break before the cell at index `i` exactly when its row differs
/// from the previous cell's row.
pub open spec fn break_before(g: Grid, i: int) -> Seq<char> {
    if i > 0 && g.data@[i].position.y != g.data@[i - 1].position.y {
        seq!['\n']
    } else {
        Seq::empty()
    }
}

/// The rendering of the first `n` cells of `g`, in row-major order.
pub open spec fn rendered_upto(g: Grid, n: int) -> Seq<char>
    decreases n,
{
    if n <= 0 {
        Seq::empty()
    } else {
        rendered_upto(g, n - 1) + break_before(g, n - 1) + glyph(g.data@[n - 1].is_alive)
    }
}

/// The rendering of the whole grid: one glyph per cell in row-major order,
/// with a line break wherever the row coordinate changes.
pub open spec fn rendered(g: Grid) -> Seq<char> {
    rendered_upto(g, g.data@.len() as int)
}

/// Renders the committed generation as text, row by row. Printing the
/// result is the caller's business.
pub fn display_grid(grid: &Grid) -> (out: String)
    requires
        grid.populated(),
    ensures
        out@ == rendered(*grid),
{
    let mut output = String::new();
    let mut current_row: i32 = 0;
    let n = grid.data.len();
    let mut i: usize = 0;
    while i < n
        invariant
            grid.populated(),
            n == grid.data@.len(),
            i <= n,
            output@ == rendered_upto(*grid, i as int),
            current_row == if i == 0 {
                0
            } else {
                grid.data@[i - 1].position.y as int
            },
        decreases n - i,
    {
        proof {
            if i == 0 {
                assert(grid.data@[0].position.y == 0) by {
                    lemma_first_row(*grid);
                }
            }
        }
        if grid.data[i].position.y != current_row {
            output.append("\n");
            current_row = current_row + 1;
            proof {
                lemma_row_of_next(*grid, i as int);
            }
        }
        if grid.data[i].is_alive {
            output.append(" \x1b[32m#\x1b[0m ");
        } else {
            output.append(" \x1b[31m.\x1b[0m ");
        }
        proof {
            reveal_strlit("\n");
            assert(output@ =~= rendered_upto(*grid, i as int + 1));
        }
        i = i + 1;
    }
    output
}

/// On a populated grid the first cell sits in row zero.
proof fn lemma_first_row(g: Grid)
    requires
        g.populated(),
        g.data@.len() > 0,
    ensures
        g.data@[0].position.y == 0,
{
    let p = g.data@[0].position;
    assert(p.y as int * g.width as int + p.x as int == 0);
    assert(p.y == 0) by (nonlinear_arith)
        requires
            0 <= p.x < g.width as int,
            0 <= p.y,
            p.y as int * g.width as int + p.x as int == 0,
    ;
}

/// In row-major order, consecutive cells sit either in the same row or in
/// adjacent rows.
proof fn lemma_row_of_next(g: Grid, i: int)
    requires
        g.populated(),
        0 < i < g.data@.len(),
    ensures
        g.data@[i].position.y == g.data@[i - 1].position.y || g.data@[i].position.y == g.data@[i
            - 1].position.y + 1,
{
    let p = g.data@[i].position;
    let q = g.data@[i - 1].position;
    assert(p.y == q.y || p.y == q.y + 1) by (nonlinear_arith)
        requires
            0 <= p.x < g.width as int,
            0 <= q.x < g.width as int,
            (p.y as int) * (g.width as int) + p.x as int == (q.y as int) * (g.width as int)
                + q.x as int + 1,
    ;
}

} // verus!
