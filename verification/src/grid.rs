//! The mathematical model of a universe.
//!
//! A grid is a flat buffer of `width * height` cells. A coordinate pair
//! `(x, y)` addresses the cell at flat index `x * width + y`, so `x` selects
//! one of the `height` rows of the buffer and `y` one of the `width` cells
//! inside that row. Neighborhoods follow the same convention: `x` wraps
//! modulo `height` and `y` wraps modulo `width`. On a square grid, where the
//! two bounds coincide, the order in which they are named makes no
//! difference.

use vstd::prelude::*;
use vstd::arithmetic::div_mod::lemma_fundamental_div_mod;
use vstd::arithmetic::div_mod::lemma_fundamental_div_mod_converse;
use vstd::arithmetic::div_mod::lemma_mod_bound;
use crate::cell::Cell;

verus! {

/// Dimensions and cell buffer of one generation.
pub struct Grid {
    pub width: nat,
    pub height: nat,
    pub cells: Seq<Cell>,
}

impl Grid {
    /// Both dimensions are positive and the buffer holds exactly
    /// `width * height` cells.
    pub open spec fn wf(self) -> bool {
        &&& self.width > 0
        &&& self.height > 0
        &&& self.cells.len() == self.width * self.height
    }

    /// `x` and `y` address a cell of the grid.
    pub open spec fn in_bounds(self, x: int, y: int) -> bool {
        0 <= x < self.height && 0 <= y < self.width
    }

    /// Flat index of the cell at `(x, y)`.
    pub open spec fn index(self, x: int, y: int) -> int {
        x * self.width + y
    }

    /// The cell at `(x, y)`.
    pub open spec fn cell(self, x: int, y: int) -> Cell {
        self.cells[self.index(x, y)]
    }

    /// What the cell reached from `(x, y)` by the offsets `delta_row` and
    /// `delta_col` adds to the neighbor count of `(x, y)`. The offsets wrap
    /// around the edges. A pair of zero offsets stands for the cell itself
    /// and adds nothing.
    pub open spec fn neighbor(self, x: int, y: int, delta_row: int, delta_col: int) -> nat {
        if delta_row == 0 && delta_col == 0 {
            0
        } else {
            self.cell(
                (x + delta_row) % (self.height as int),
                (y + delta_col) % (self.width as int),
            ).weight()
        }
    }

    /// Number of live cells around `(x, y)` on the torus.
    ///
    /// The row offsets are `height - 1`, `0` and `1`, the column offsets
    /// `width - 1`, `0` and `1`; the sum runs over the eight pairs other
    /// than the middle one. On a grid with fewer than three rows or columns
    /// some of these pairs reach the same cell, which is then counted once
    /// per pair, and a pair whose offsets are both zero is left out.
    pub open spec fn live_neighbors(self, x: int, y: int) -> nat {
        let up = self.height - 1;
        let left = self.width - 1;
        self.neighbor(x, y, up, left) + self.neighbor(x, y, up, 0) + self.neighbor(x, y, up, 1)
            + self.neighbor(x, y, 0, left) + self.neighbor(x, y, 0, 1)
            + self.neighbor(x, y, 1, left) + self.neighbor(x, y, 1, 0) + self.neighbor(x, y, 1, 1)
    }

    /// State of the cell at flat index `i` in the next generation.
    pub open spec fn next_cell(self, i: int) -> Cell {
        self.cells[i].evolve(
            self.live_neighbors(i / (self.width as int), i % (self.width as int)),
        )
    }

    /// The next generation: every cell evolves by the neighbor count it has
    /// in this generation.
    pub open spec fn step(self) -> Grid {
        Grid {
            width: self.width,
            height: self.height,
            cells: Seq::new(self.cells.len(), |i: int| self.next_cell(i)),
        }
    }

    /// The grid `n` generations later.
    pub open spec fn after(self, n: nat) -> Grid
        decreases n,
    {
        if n == 0 {
            self
        } else {
            self.after((n - 1) as nat).step()
        }
    }

    /// Text of row `x`: one glyph per cell of the row.
    pub open spec fn line(self, x: int) -> Seq<char> {
        Seq::new(self.width, |y: int| self.cell(x, y).glyph())
    }

    /// The grid as text: the rows from first to last, each followed by a
    /// newline.
    pub open spec fn rendered(self) -> Seq<char> {
        Seq::new(
            self.height * (self.width + 1),
            |k: int|
                {
                    let x = k / (self.width + 1) as int;
                    let y = k % (self.width + 1) as int;
                    if y == self.width {
                        '\n'
                    } else {
                        self.cell(x, y).glyph()
                    }
                },
        )
    }

    /// Line `x` of the rendered text: its `width + 1` characters, the newline
    /// included.
    pub open spec fn rendered_line(self, x: int) -> Seq<char> {
        self.rendered().subrange(x * (self.width + 1), (x + 1) * (self.width + 1))
    }

    /// The seed pattern: 64 rows of 64 cells, alive at every flat index that
    /// is a multiple of 2 or of 7.
    pub open spec fn seed() -> Grid {
        Grid { width: 64, height: 64, cells: Seq::new(4096, |i: int| Self::seed_cell(i)) }
    }

    /// State of the cell at flat index `i` of the seed pattern.
    pub open spec fn seed_cell(i: int) -> Cell {
        if i % 2 == 0 || i % 7 == 0 {
            Cell::Alive
        } else {
            Cell::Dead
        }
    }

    /// A pair of coordinates inside the grid has a flat index inside the
    /// buffer, and the pair can be read back from the index.
    pub proof fn lemma_index(self, x: int, y: int)
        requires
            self.wf(),
            self.in_bounds(x, y),
        ensures
            0 <= self.index(x, y) < self.cells.len(),
            self.index(x, y) / (self.width as int) == x,
            self.index(x, y) % (self.width as int) == y,
    {
        let w = self.width as int;
        let h = self.height as int;
        lemma_row_major(x, y, h, w);
        assert(h * w == w * h) by (nonlinear_arith);
    }

    /// A flat index inside the buffer is the index of the coordinates
    /// `(i / width, i % width)`, which lie inside the grid.
    pub proof fn lemma_flat_index(self, i: int)
        requires
            self.wf(),
            0 <= i < self.cells.len(),
        ensures
            self.in_bounds(i / (self.width as int), i % (self.width as int)),
            self.index(i / (self.width as int), i % (self.width as int)) == i,
    {
        let w = self.width as int;
        let h = self.height as int;
        lemma_fundamental_div_mod(i, w);
        lemma_mod_bound(i, w);
        let x = i / w;
        assert(w * x == x * w) by (nonlinear_arith);
        assert(x < h) by (nonlinear_arith)
            requires
                x * w <= i,
                i < w * h,
                0 < w,
        ;
        assert(0 <= x) by (nonlinear_arith)
            requires
                x * w + w > 0,
                0 < w,
        ;
    }
}

/// Row-major addressing: in `rows` rows of `stride` positions each, offset
/// `y` of row `x` is position `x * stride + y`. Row `x` starts at
/// `x * stride` and ends where the next one starts, inside the whole; row
/// and offset can be read back from the position.
pub proof fn lemma_row_major(x: int, y: int, rows: int, stride: int)
    requires
        0 <= x < rows,
        0 <= y < stride,
    ensures
        0 <= x * stride,
        (x + 1) * stride == x * stride + stride,
        (x + 1) * stride <= rows * stride,
        (x * stride + y) / stride == x,
        (x * stride + y) % stride == y,
{
    lemma_fundamental_div_mod_converse(x * stride + y, stride, x, y);
    assert(0 <= x * stride) by (nonlinear_arith)
        requires
            0 <= x,
            0 < stride,
    ;
    assert((x + 1) * stride == x * stride + stride) by (nonlinear_arith);
    assert((x + 1) * stride <= rows * stride) by (nonlinear_arith)
        requires
            x + 1 <= rows,
            0 < stride,
    ;
}

} // verus!
