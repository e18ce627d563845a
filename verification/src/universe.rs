//! The universe: a grid of cells that advances one generation per tick.

use vstd::prelude::*;
use crate::cell::Cell;
use crate::grid::lemma_row_major;
use crate::grid::Grid;

verus! {

/// Why a universe could not be built from the given parts.
#[derive(Clone, Copy, Debug, PartialEq, Eq, Structural)]
pub enum UniverseError {
    /// The width or the height is zero.
    InvalidDimensions,
    /// The number of cells is not `width * height`.
    CellCountMismatch,
}

/// A toroidal grid of cells with fixed dimensions.
///
/// The cells lie in one flat buffer, row after row. In a coordinate pair
/// `(x, y)` the first coordinate counts rows and the second counts the cells
/// of a row: `x` runs below the height, `y` below the width.
#[derive(Debug)]
pub struct Universe {
    width: u32,
    height: u32,
    cells: Vec<Cell>,
}

impl View for Universe {
    type V = Grid;

    closed spec fn view(&self) -> Grid {
        Grid { width: self.width as nat, height: self.height as nat, cells: self.cells@ }
    }
}

impl Universe {
    #[verifier::type_invariant]
    spec fn well_formed(&self) -> bool {
        self@.wf()
    }

    /// A universe of `height` rows of `width` cells, filled row by row from
    /// `cells`.
    pub fn with_cells(width: u32, height: u32, cells: Vec<Cell>) -> (built: Result<
        Universe,
        UniverseError,
    >)
        ensures
            match built {
                Ok(universe) => {
                    &&& width > 0
                    &&& height > 0
                    &&& cells@.len() == width * height
                    &&& universe@ == (Grid {
                        width: width as nat,
                        height: height as nat,
                        cells: cells@,
                    })
                    &&& universe@.wf()
                },
                Err(UniverseError::InvalidDimensions) => width == 0 || height == 0,
                Err(UniverseError::CellCountMismatch) => {
                    &&& width > 0
                    &&& height > 0
                    &&& cells@.len() != width * height
                },
            },
    {
        if width == 0 || height == 0 {
            return Err(UniverseError::InvalidDimensions);
        }
        assert(width * height <= u64::MAX) by (nonlinear_arith)
            requires
                width <= u32::MAX,
                height <= u32::MAX,
        ;
        let wanted: u64 = width as u64 * height as u64;
        if cells.len() as u64 != wanted {
            return Err(UniverseError::CellCountMismatch);
        }
        Ok(Universe { width, height, cells })
    }

    /// Number of cells in a row.
    pub fn width(&self) -> (width: u32)
        ensures
            width == self@.width,
            self@.wf(),
    {
        proof {
            use_type_invariant(self);
        }
        self.width
    }

    /// Number of rows.
    pub fn height(&self) -> (height: u32)
        ensures
            height == self@.height,
            self@.wf(),
    {
        proof {
            use_type_invariant(self);
        }
        self.height
    }

    /// The cell buffer, row after row.
    pub fn cells(&self) -> (cells: &[Cell])
        ensures
            cells@ == self@.cells,
            self@.wf(),
    {
        proof {
            use_type_invariant(self);
        }
        self.cells.as_slice()
    }

    /// The seed universe: 64 rows of 64 cells, alive at every flat index that
    /// is a multiple of 2 or of 7.
    pub fn new() -> (universe: Universe)
        ensures
            universe@ == Grid::seed(),
            universe@.wf(),
    {
        Universe::default()
    }

    /// Flat index of the cell at `(x, y)`: `x * width + y`.
    pub fn get_index(&self, x: u32, y: u32) -> (index: usize)
        requires
            self@.in_bounds(x as int, y as int),
        ensures
            index == self@.index(x as int, y as int),
            index < self@.cells.len(),
    {
        proof {
            use_type_invariant(self);
            self@.lemma_index(x as int, y as int);
            assert(0 <= x * self.width) by (nonlinear_arith);
            assert(self.cells@.len() == self.cells.len());
        }
        x as usize * self.width as usize + y as usize
    }

    /// What the offsets `delta_row` and `delta_col` add to the neighbor count
    /// of `(x, y)`.
    fn neighbor_value(&self, x: u32, y: u32, delta_row: u32, delta_col: u32) -> (value: u8)
        ensures
            value == self@.neighbor(x as int, y as int, delta_row as int, delta_col as int),
            value <= 1,
    {
        if delta_row == 0 && delta_col == 0 {
            return 0;
        }
        proof {
            use_type_invariant(self);
        }
        let row: u32 = ((x as u64 + delta_row as u64) % (self.height as u64)) as u32;
        let col: u32 = ((y as u64 + delta_col as u64) % (self.width as u64)) as u32;
        let index: usize = self.get_index(row, col);
        self.cells[index].value()
    }

    /// Number of live cells among the eight neighbors of `(x, y)`, with
    /// wraparound at the edges: `x` wraps modulo the height and `y` modulo
    /// the width. Coordinates beyond the grid wrap in the same way.
    pub fn live_neighbor_count(&self, x: u32, y: u32) -> (count: u8)
        ensures
            count == self@.live_neighbors(x as int, y as int),
            count <= 8,
    {
        proof {
            use_type_invariant(self);
        }
        let up: u32 = self.height - 1;
        let left: u32 = self.width - 1;
        let mut count: u8 = 0;
        count += self.neighbor_value(x, y, up, left);
        count += self.neighbor_value(x, y, up, 0);
        count += self.neighbor_value(x, y, up, 1);
        count += self.neighbor_value(x, y, 0, left);
        count += self.neighbor_value(x, y, 0, 1);
        count += self.neighbor_value(x, y, 1, left);
        count += self.neighbor_value(x, y, 1, 0);
        count += self.neighbor_value(x, y, 1, 1);
        count
    }

    /// Advances the universe by one generation. Every cell of the new
    /// generation is computed from the old one; the dimensions stay.
    pub fn tick(&mut self)
        ensures
            final(self)@ == old(self)@.step(),
            final(self)@.wf(),
    {
        proof {
            use_type_invariant(&*self);
        }
        let ghost before: Grid = self@;
        let mut next: Vec<Cell> = Vec::with_capacity(self.cells.len());
        let mut x: u32 = 0;
        while x < self.height
            invariant
                self@ == before,
                before.wf(),
                x <= self.height,
                next@.len() == x * self.width,
                forall|i: int| 0 <= i < next@.len() ==> next@[i] == before.next_cell(i),
            decreases self.height - x,
        {
            let mut y: u32 = 0;
            while y < self.width
                invariant
                    self@ == before,
                    before.wf(),
                    x < self.height,
                    y <= self.width,
                    next@.len() == x * self.width + y,
                    forall|i: int| 0 <= i < next@.len() ==> next@[i] == before.next_cell(i),
                decreases self.width - y,
            {
                let index: usize = self.get_index(x, y);
                let cell: Cell = self.cells[index];
                let neighbors: u8 = self.live_neighbor_count(x, y);
                proof {
                    before.lemma_index(x as int, y as int);
                }
                next.push(cell.next(neighbors));
                y += 1;
            }
            proof {
                assert((x + 1) * self.width == x * self.width + self.width) by (nonlinear_arith);
            }
            x += 1;
        }
        proof {
            assert(self.height * self.width == self.width * self.height) by (nonlinear_arith);
            assert(next@ =~= before.step().cells);
        }
        self.cells = next;
    }

    /// The universe as text: one line per row, one glyph per cell, a newline
    /// after every row.
    pub fn render(&self) -> (text: String)
        ensures
            text@ == self@.rendered(),
    {
        proof {
            use_type_invariant(self);
        }
        let ghost wanted: Seq<char> = self@.rendered();
        let ghost stride: int = self.width + 1;
        let mut text: String = String::new();
        let mut x: u32 = 0;
        while x < self.height
            invariant
                self@.wf(),
                wanted == self@.rendered(),
                stride == self.width + 1,
                x <= self.height,
                text@.len() == x * stride,
                forall|k: int| 0 <= k < text@.len() ==> text@[k] == wanted[k],
            decreases self.height - x,
        {
            let mut y: u32 = 0;
            while y < self.width
                invariant
                    self@.wf(),
                    wanted == self@.rendered(),
                    stride == self.width + 1,
                    x < self.height,
                    y <= self.width,
                    text@.len() == x * stride + y,
                    forall|k: int| 0 <= k < text@.len() ==> text@[k] == wanted[k],
                decreases self.width - y,
            {
                let index: usize = self.get_index(x, y);
                proof {
                    lemma_row_major(x as int, y as int, self.height as int, stride);
                }
                text.append(self.cells[index].symbol());
                y += 1;
            }
            proof {
                reveal_strlit("\n");
                lemma_row_major(x as int, y as int, self.height as int, stride);
            }
            text.append("\n");
            x += 1;
        }
        proof {
            assert(self.height * stride == self@.height * (self@.width + 1));
            assert(text@ =~= wanted);
        }
        text
    }
}

impl Default for Universe {
    /// The seed universe, as `Universe::new` builds it.
    fn default() -> (universe: Self)
        ensures
            universe@ == Grid::seed(),
            universe@.wf(),
    {
        let width: u32 = 64;
        let height: u32 = 64;
        let mut cells: Vec<Cell> = Vec::with_capacity(4096);
        let mut i: u32 = 0;
        while i < width * height
            invariant
                width == 64,
                height == 64,
                i <= 4096,
                cells@.len() == i,
                forall|k: int| 0 <= k < i ==> cells@[k] == Grid::seed_cell(k),
            decreases 4096 - i,
        {
            if i % 2 == 0 || i % 7 == 0 {
                cells.push(Cell::Alive);
            } else {
                cells.push(Cell::Dead);
            }
            i += 1;
        }
        proof {
            assert(cells@ =~= Grid::seed().cells);
        }
        Universe { width, height, cells }
    }
}

} // verus!
