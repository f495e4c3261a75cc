//! The grid: a row-major collection of cells with neighbor lookup.

use rand::Rng;
use vstd::prelude::*;

verus! {

/// A grid coordinate. Not bounds-checked on construction: positions outside
/// the grid's rectangle are used deliberately to probe for edge neighbors.
#[derive(Clone, Copy, PartialEq, Eq, Structural)]
pub struct Position {
    pub x: i32,
    pub y: i32,
}

/// One cell: a coordinate together with its alive state.
#[derive(Clone, Copy, PartialEq, Eq, Structural)]
pub struct Cell {
    pub position: Position,
    pub is_alive: bool,
}

/// A fixed-size rectangular grid of cells, stored in row-major order.
pub struct Grid {
    pub data: Vec<Cell>,
    pub width: i32,
    pub height: i32,
}

impl Grid {
    /// The dimensions describe a rectangle whose cell count fits in `usize`.
    pub open spec fn dims_ok(self) -> bool {
        &&& 0 <= self.width
        &&& 0 <= self.height
        &&& (self.width as int) * (self.height as int) <= usize::MAX as int
    }

    /// `(x, y)` lies inside the grid's declared rectangle.
    pub open spec fn in_bounds(self, x: int, y: int) -> bool {
        0 <= x < self.width && 0 <= y < self.height
    }

    /// The row-major index of coordinate `(x, y)`.
    pub open spec fn index_of(self, x: int, y: int) -> int {
        y * self.width + x
    }

    /// The grid is fully populated: exactly one cell per coordinate of the
    /// rectangle, in row-major order, every position in bounds, and each
    /// cell's index equal to the row-major index of its position.
    pub open spec fn populated(self) -> bool {
        &&& self.dims_ok()
        &&& self.data@.len() == (self.width as int) * (self.height as int)
        &&& forall|i: int| 0 <= i < self.data@.len() ==> self.in_bounds(
            (#[trigger] self.data@[i]).position.x as int,
            self.data@[i].position.y as int,
        )
        &&& forall|i: int| 0 <= i < self.data@.len() ==> i == self.index_of(
            (#[trigger] self.data@[i]).position.x as int,
            self.data@[i].position.y as int,
        )
    }

    /// The cell stored at in-bounds coordinate `(x, y)`.
    pub open spec fn cell_at(self, x: int, y: int) -> Cell {
        self.data@[self.index_of(x, y)]
    }

    /// Whether a live cell occupies `(x, y)`; coordinates outside the
    /// rectangle are never live (the grid does not wrap around).
    pub open spec fn live_at(self, x: int, y: int) -> bool {
        self.in_bounds(x, y) && self.cell_at(x, y).is_alive
    }

    /// 1 if a live cell occupies `(x, y)`, else 0.
    pub open spec fn live_ind(self, x: int, y: int) -> int {
        if self.live_at(x, y) {
            1
        } else {
            0
        }
    }

    /// The number of live cells among the 8 compass neighbors of `(x, y)`.
    pub open spec fn live_count(self, x: int, y: int) -> int {
        self.live_ind(x - 1, y - 1) + self.live_ind(x, y - 1) + self.live_ind(x + 1, y - 1)
            + self.live_ind(x - 1, y) + self.live_ind(x + 1, y) + self.live_ind(x - 1, y + 1)
            + self.live_ind(x, y + 1) + self.live_ind(x + 1, y + 1)
    }

    /// An empty grid sized for a `width x height` rectangle; no cells yet.
    pub fn new(width: i32, height: i32) -> (g: Grid)
        requires
            0 <= width,
            0 <= height,
            (width as int) * (height as int) <= usize::MAX as int,
        ensures
            g.width == width,
            g.height == height,
            g.data@.len() == 0,
            g.dims_ok(),
    {
        Grid { data: Vec::new(), width, height }
    }

    /// Appends one cell at the end of the row-major order.
    pub fn add_cell(&mut self, cell: Cell)
        ensures
            final(self).data@ == old(self).data@.push(cell),
            final(self).width == old(self).width,
            final(self).height == old(self).height,
    {
        self.data.push(cell);
    }

    /// Populates an empty grid with one dead cell per coordinate, in
    /// row-major order (all cells of row 0, then row 1, and so on).
    pub fn fill(&mut self)
        requires
            old(self).data@.len() == 0,
            old(self).dims_ok(),
        ensures
            final(self).populated(),
            final(self).width == old(self).width,
            final(self).height == old(self).height,
            forall|i: int|
                0 <= i < final(self).data@.len() ==> !(#[trigger] final(self).data@[i]).is_alive,
    {
        let width = self.width;
        let height = self.height;
        let mut h: i32 = 0;
        while h < height
            invariant
                0 <= h <= height,
                self.width == width,
                self.height == height,
                self.dims_ok(),
                self.data@.len() == (h as int) * (width as int),
                forall|i: int| 0 <= i < self.data@.len() ==> self.in_bounds(
                    (#[trigger] self.data@[i]).position.x as int,
                    self.data@[i].position.y as int,
                ),
                forall|i: int| 0 <= i < self.data@.len() ==> i == self.index_of(
                    (#[trigger] self.data@[i]).position.x as int,
                    self.data@[i].position.y as int,
                ),
                forall|i: int| 0 <= i < self.data@.len() ==> !(#[trigger] self.data@[i]).is_alive,
            decreases height - h,
        {
            let mut w: i32 = 0;
            while w < width
                invariant
                    0 <= h < height,
                    0 <= w <= width,
                    self.width == width,
                    self.height == height,
                    self.dims_ok(),
                    self.data@.len() == (h as int) * (width as int) + w as int,
                    forall|i: int| 0 <= i < self.data@.len() ==> self.in_bounds(
                        (#[trigger] self.data@[i]).position.x as int,
                        self.data@[i].position.y as int,
                    ),
                    forall|i: int| 0 <= i < self.data@.len() ==> i == self.index_of(
                        (#[trigger] self.data@[i]).position.x as int,
                        self.data@[i].position.y as int,
                    ),
                    forall|i: int|
                        0 <= i < self.data@.len() ==> !(#[trigger] self.data@[i]).is_alive,
                decreases width - w,
            {
                proof {
                    lemma_row_fits(h as int, w as int, width as int, height as int);
                }
                self.add_cell(Cell { position: Position { x: w, y: h }, is_alive: false });
                w = w + 1;
            }
            proof {
                lemma_row_step(h as int, width as int);
            }
            h = h + 1;
        }
        proof {
            lemma_mul_comm(height as int, width as int);
        }
    }

    /// Populates an empty grid with one cell per coordinate in row-major
    /// order, drawing each cell's alive state independently with
    /// probability one in five.
    pub fn fill_random(&mut self)
        requires
            old(self).data@.len() == 0,
            old(self).dims_ok(),
        ensures
            final(self).populated(),
            final(self).width == old(self).width,
            final(self).height == old(self).height,
    {
        let width = self.width;
        let height = self.height;
        let mut h: i32 = 0;
        while h < height
            invariant
                0 <= h <= height,
                self.width == width,
                self.height == height,
                self.dims_ok(),
                self.data@.len() == (h as int) * (width as int),
                forall|i: int| 0 <= i < self.data@.len() ==> self.in_bounds(
                    (#[trigger] self.data@[i]).position.x as int,
                    self.data@[i].position.y as int,
                ),
                forall|i: int| 0 <= i < self.data@.len() ==> i == self.index_of(
                    (#[trigger] self.data@[i]).position.x as int,
                    self.data@[i].position.y as int,
                ),
            decreases height - h,
        {
            let mut w: i32 = 0;
            while w < width
                invariant
                    0 <= h < height,
                    0 <= w <= width,
                    self.width == width,
                    self.height == height,
                    self.dims_ok(),
                    self.data@.len() == (h as int) * (width as int) + w as int,
                    forall|i: int| 0 <= i < self.data@.len() ==> self.in_bounds(
                        (#[trigger] self.data@[i]).position.x as int,
                        self.data@[i].position.y as int,
                    ),
                    forall|i: int| 0 <= i < self.data@.len() ==> i == self.index_of(
                        (#[trigger] self.data@[i]).position.x as int,
                        self.data@[i].position.y as int,
                    ),
                decreases width - w,
            {
                proof {
                    lemma_row_fits(h as int, w as int, width as int, height as int);
                }
                let rand_val = random_below(5);
                let is_alive = rand_val == 0;
                self.add_cell(Cell { position: Position { x: w, y: h }, is_alive });
                w = w + 1;
            }
            proof {
                lemma_row_step(h as int, width as int);
            }
            h = h + 1;
        }
        proof {
            lemma_mul_comm(height as int, width as int);
        }
    }

    /// Exact-match lookup by coordinate: returns the cell that occupies the
    /// position, or nothing when no cell does (which, on a populated grid,
    /// happens exactly for positions outside the rectangle).
    pub fn find_cell(&self, cell_position: Position) -> (r: Option<&Cell>)
        requires
            self.populated(),
        ensures
            match r {
                Some(c) => self.in_bounds(cell_position.x as int, cell_position.y as int) && *c
                    == self.cell_at(cell_position.x as int, cell_position.y as int),
                None => !self.in_bounds(cell_position.x as int, cell_position.y as int),
            },
    {
        let n = self.data.len();
        let mut k: usize = 0;
        while k < n
            invariant
                self.populated(),
                n == self.data@.len(),
                k <= n,
                forall|j: int|
                    0 <= j < k ==> !((#[trigger] self.data@[j]).position.x == cell_position.x
                        && self.data@[j].position.y == cell_position.y),
            decreases n - k,
        {
            let c = &self.data[k];
            if c.position.x == cell_position.x && c.position.y == cell_position.y {
                return Some(c);
            }
            k = k + 1;
        }
        proof {
            let x = cell_position.x as int;
            let y = cell_position.y as int;
            if self.in_bounds(x, y) {
                lemma_index_in_range(*self, x, y);
                let j = self.index_of(x, y);
                let p = self.data@[j].position;
                lemma_index_unique(self.width as int, p.x as int, p.y as int, x, y);
            }
        }
        None
    }

    /// Whether a live cell occupies `(x, y)`; out-of-bounds probes report no
    /// live cell, so edges do not wrap around.
    fn probe_live(&self, x: i32, y: i32) -> (r: bool)
        requires
            self.populated(),
        ensures
            r == self.live_at(x as int, y as int),
    {
        match self.find_cell(Position { x, y }) {
            Some(c) => c.is_alive,
            None => false,
        }
    }

    /// Counts the live cells among the 8 compass neighbors of the cell at
    /// `cell`. Coordinates outside the rectangle contribute nothing: the
    /// grid is bounded, not toroidal.
    pub fn cell_neighbors(&self, cell: usize) -> (r: i32)
        requires
            self.populated(),
            cell < self.data@.len(),
        ensures
            0 <= r <= 8,
            r as int == self.live_count(
                self.data@[cell as int].position.x as int,
                self.data@[cell as int].position.y as int,
            ),
    {
        let x = self.data[cell].position.x;
        let y = self.data[cell].position.y;
        let mut neighbors: i32 = 0;
        if self.probe_live(x - 1, y - 1) {
            neighbors = neighbors + 1;
        }
        if self.probe_live(x, y - 1) {
            neighbors = neighbors + 1;
        }
        if self.probe_live(x + 1, y - 1) {
            neighbors = neighbors + 1;
        }
        if self.probe_live(x - 1, y) {
            neighbors = neighbors + 1;
        }
        if self.probe_live(x + 1, y) {
            neighbors = neighbors + 1;
        }
        if self.probe_live(x - 1, y + 1) {
            neighbors = neighbors + 1;
        }
        if self.probe_live(x, y + 1) {
            neighbors = neighbors + 1;
        }
        if self.probe_live(x + 1, y + 1) {
            neighbors = neighbors + 1;
        }
        neighbors
    }
}

/// On a populated grid the neighbor count of an in-bounds cell is at most 8;
/// at most 5 on an edge of the rectangle, and at most 3 in a corner, since
/// out-of-bounds coordinates never hold a live cell.
pub proof fn lemma_neighbor_bounds(g: Grid, x: int, y: int)
    requires
        g.populated(),
        g.in_bounds(x, y),
    ensures
        0 <= g.live_count(x, y) <= 8,
        x == 0 || x == g.width - 1 || y == 0 || y == g.height - 1 ==> g.live_count(x, y) <= 5,
        (x == 0 || x == g.width - 1) && (y == 0 || y == g.height - 1) ==> g.live_count(x, y) <= 3,
{
}

/// Relies on rand::thread_rng and rand::Rng::gen_range: draws a value
/// uniformly from `0..n`, which is in range and panics only when the range
/// is empty (ruled out by the precondition). Nothing else is promised of a
/// random draw.
#[verifier::external_body]
fn random_below(n: i32) -> (r: i32)
    requires
        1 <= n,
    ensures
        0 <= r < n,
{
    rand::thread_rng().gen_range(0..n)
}

/// A cell appended at column `w` of row `h` lands at an index inside the
/// grid's rectangle, and row-major bookkeeping stays within `usize`.
proof fn lemma_row_fits(h: int, w: int, width: int, height: int)
    requires
        0 <= h < height,
        0 <= w < width,
        width * height <= usize::MAX as int,
    ensures
        0 <= h * width + w,
        h * width + w + 1 <= width * height,
{
    assert(0 <= h * width + w && h * width + w + 1 <= width * height) by (nonlinear_arith)
        requires
            0 <= h < height,
            0 <= w < width,
    ;
}

/// Multiplication of row and column counts commutes.
proof fn lemma_mul_comm(a: int, b: int)
    ensures
        a * b == b * a,
{
    assert(a * b == b * a) by (nonlinear_arith);
}

/// Finishing row `h` leaves exactly `h + 1` full rows of cells.
proof fn lemma_row_step(h: int, width: int)
    ensures
        h * width + width == (h + 1) * width,
{
    assert(h * width + width == (h + 1) * width) by (nonlinear_arith);
}

/// The row-major index of an in-bounds coordinate lies inside the data.
pub proof fn lemma_index_in_range(g: Grid, x: int, y: int)
    requires
        g.populated(),
        g.in_bounds(x, y),
    ensures
        0 <= g.index_of(x, y) < g.data@.len(),
{
    assert(0 <= y * g.width + x < g.width * g.height) by (nonlinear_arith)
        requires
            0 <= x < g.width,
            0 <= y < g.height,
    ;
}

/// Two distinct in-bounds coordinates have distinct row-major indices.
pub proof fn lemma_index_unique(w: int, x1: int, y1: int, x2: int, y2: int)
    requires
        0 <= x1 < w,
        0 <= x2 < w,
        y1 * w + x1 == y2 * w + x2,
    ensures
        x1 == x2 && y1 == y2,
{
    assert(x1 == x2 && y1 == y2) by (nonlinear_arith)
        requires
            0 <= x1 < w,
            0 <= x2 < w,
            y1 * w + x1 == y2 * w + x2,
    ;
}

} // verus!
