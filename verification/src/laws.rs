//! Laws of the grid model: what holds of every well-formed grid and of
//! every generation that follows it.

use vstd::prelude::*;
use vstd::arithmetic::div_mod::lemma_fundamental_div_mod_converse;
use crate::cell::Cell;
use crate::grid::lemma_row_major;
use crate::grid::Grid;

verus! {

/// A step keeps the dimensions and the size of the buffer, so the next
/// generation of a well-formed grid is well formed.
pub proof fn lemma_step_wf(g: Grid)
    requires
        g.wf(),
    ensures
        g.step().wf(),
        g.step().width == g.width,
        g.step().height == g.height,
        g.step().cells.len() == g.cells.len(),
{
}

/// Every later generation of a well-formed grid is well formed and has the
/// dimensions of the first.
pub proof fn lemma_after_wf(g: Grid, n: nat)
    requires
        g.wf(),
    ensures
        g.after(n).wf(),
        g.after(n).width == g.width,
        g.after(n).height == g.height,
    decreases n,
{
    if n > 0 {
        lemma_after_wf(g, (n - 1) as nat);
        lemma_step_wf(g.after((n - 1) as nat));
    }
}

/// Generations compose: `n` generations after the `m`-th comes generation
/// `m + n`.
pub proof fn lemma_after_add(g: Grid, m: nat, n: nat)
    ensures
        g.after(m).after(n) == g.after(m + n),
    decreases n,
{
    if n > 0 {
        lemma_after_add(g, m, (n - 1) as nat);
    }
}

/// Evolution is a function of the state alone: two grids with the same
/// dimensions and the same cells have the same generation `n`, for every
/// `n`.
pub proof fn lemma_evolution_is_deterministic(a: Grid, b: Grid, n: nat)
    requires
        a.width == b.width,
        a.height == b.height,
        a.cells.len() == b.cells.len(),
        forall|i: int| 0 <= i < a.cells.len() ==> a.cells[i] == b.cells[i],
    ensures
        a.after(n) == b.after(n),
{
    assert(a.cells =~= b.cells);
}

/// In coordinates: the next state of the cell at `(x, y)` is its current
/// state evolved by its current neighbor count.
pub proof fn lemma_step_cell(g: Grid, x: int, y: int)
    requires
        g.wf(),
        g.in_bounds(x, y),
    ensures
        g.step().cell(x, y) == g.cell(x, y).evolve(g.live_neighbors(x, y)),
{
    g.lemma_index(x, y);
}

/// No cell has more than eight live neighbors.
pub proof fn lemma_live_neighbors_bound(g: Grid, x: int, y: int)
    ensures
        g.live_neighbors(x, y) <= 8,
{
}

/// Birth: a dead cell is alive in the next generation exactly when three of
/// its neighbors are alive now.
pub proof fn lemma_birth(g: Grid, x: int, y: int)
    requires
        g.wf(),
        g.in_bounds(x, y),
        g.cell(x, y) == Cell::Dead,
    ensures
        g.live_neighbors(x, y) == 3 ==> g.step().cell(x, y) == Cell::Alive,
        g.live_neighbors(x, y) != 3 ==> g.step().cell(x, y) == Cell::Dead,
{
    lemma_step_cell(g, x, y);
}

/// Underpopulation and overpopulation: a live cell with fewer than two or
/// more than three live neighbors is dead in the next generation; with two
/// or three it stays alive.
pub proof fn lemma_survival(g: Grid, x: int, y: int)
    requires
        g.wf(),
        g.in_bounds(x, y),
        g.cell(x, y) == Cell::Alive,
    ensures
        g.live_neighbors(x, y) < 2 ==> g.step().cell(x, y) == Cell::Dead,
        g.live_neighbors(x, y) > 3 ==> g.step().cell(x, y) == Cell::Dead,
        g.live_neighbors(x, y) == 2 || g.live_neighbors(x, y) == 3 ==> g.step().cell(x, y)
            == Cell::Alive,
{
    lemma_step_cell(g, x, y);
}

/// Shape of the rendered text, in every generation: it consists of `height`
/// lines of `width + 1` characters; each line holds the `width` glyphs of
/// its row, none of which is a newline, and ends in a newline.
pub proof fn lemma_render_shape(g: Grid, n: nat)
    requires
        g.wf(),
    ensures
        g.after(n).rendered().len() == g.height * (g.width + 1),
        forall|x: int|
            0 <= x < g.height ==> #[trigger] g.after(n).rendered_line(x) == g.after(n).line(
                x,
            ).push('\n'),
        forall|x: int, y: int|
            0 <= x < g.height && 0 <= y < g.width ==> (#[trigger] g.after(n).line(x)[y]) != '\n',
        forall|x: int| 0 <= x < g.height ==> (#[trigger] g.after(n).line(x)).len() == g.width,
{
    lemma_after_wf(g, n);
    let now = g.after(n);
    let stride = (now.width + 1) as int;
    assert forall|x: int| 0 <= x < now.height implies #[trigger] now.rendered_line(x) == now.line(
        x,
    ).push('\n') by {
        lemma_row_major(x, 0, now.height as int, stride);
        let got = now.rendered_line(x);
        let wanted = now.line(x).push('\n');
        assert(got.len() == wanted.len());
        assert forall|y: int| 0 <= y < stride implies got[y] == wanted[y] by {
            lemma_row_major(x, y, now.height as int, stride);
        }
        assert(got =~= wanted);
    }
}

/// One step up, no step and one step down from `x` on a ring of `size`
/// positions.
proof fn lemma_wrap(x: int, size: int)
    requires
        0 <= x < size,
    ensures
        (x + 0) % size == x,
        (x + 1) % size == if x == size - 1 {
            0
        } else {
            x + 1
        },
        (x + (size - 1)) % size == if x == 0 {
            size - 1
        } else {
            x - 1
        },
{
    lemma_fundamental_div_mod_converse(x, size, 0, x);
    if x == size - 1 {
        lemma_fundamental_div_mod_converse(x + 1, size, 1, 0);
    } else {
        lemma_fundamental_div_mod_converse(x + 1, size, 0, x + 1);
    }
    if x == 0 {
        lemma_fundamental_div_mod_converse(x + (size - 1), size, 0, size - 1);
    } else {
        lemma_fundamental_div_mod_converse(x + (size - 1), size, 1, x - 1);
    }
}

/// `a` is `b` or lies next to it on a ring of `size` positions.
pub open spec fn adjacent(a: int, b: int, size: int) -> bool {
    a == b || a == (b + 1) % size || a == (b + (size - 1)) % size
}

/// The only live cell of the grid is the one at `(0, 0)`.
pub open spec fn lone_corner(g: Grid) -> bool {
    forall|x: int, y: int|
        g.in_bounds(x, y) ==> #[trigger] g.cell(x, y) == if x == 0 && y == 0 {
            Cell::Alive
        } else {
            Cell::Dead
        }
}

/// Toroidal wraparound: on a grid of at least three rows and three columns
/// whose only live cell is at `(0, 0)`, the cells around `(0, 0)`, across
/// the edges too, count exactly one live neighbor, and every other cell
/// counts none. In particular each of the other three corners counts one.
pub proof fn lemma_corner_wraparound(g: Grid, x: int, y: int)
    requires
        g.wf(),
        g.width >= 3,
        g.height >= 3,
        lone_corner(g),
        g.in_bounds(x, y),
    ensures
        g.live_neighbors(x, y) == if (x != 0 || y != 0) && adjacent(x, 0, g.height as int)
            && adjacent(y, 0, g.width as int) {
            1nat
        } else {
            0nat
        },
        g.live_neighbors(g.height - 1, g.width - 1) == 1,
        g.live_neighbors(g.height - 1, 0) == 1,
        g.live_neighbors(0, g.width - 1) == 1,
{
    let h = g.height as int;
    let w = g.width as int;
    lemma_wrap(0, h);
    lemma_wrap(0, w);
    lemma_lone_corner_count(g, x, y);
    lemma_lone_corner_count(g, h - 1, w - 1);
    lemma_lone_corner_count(g, h - 1, 0);
    lemma_lone_corner_count(g, 0, w - 1);
}

/// The neighbor count of `(x, y)` when the only live cell is at `(0, 0)`.
proof fn lemma_lone_corner_count(g: Grid, x: int, y: int)
    requires
        g.wf(),
        g.width >= 3,
        g.height >= 3,
        lone_corner(g),
        g.in_bounds(x, y),
    ensures
        g.live_neighbors(x, y) == if (x != 0 || y != 0) && (x == 0 || x == 1 || x == g.height - 1)
            && (y == 0 || y == 1 || y == g.width - 1) {
            1nat
        } else {
            0nat
        },
{
    let h = g.height as int;
    let w = g.width as int;
    lemma_wrap(x, h);
    lemma_wrap(y, w);
    let up = (x + (h - 1)) % h;
    let down = (x + 1) % h;
    let left = (y + (w - 1)) % w;
    let right = (y + 1) % w;
    assert(g.in_bounds(up, left) && g.in_bounds(up, y) && g.in_bounds(up, right));
    assert(g.in_bounds(x, left) && g.in_bounds(x, right));
    assert(g.in_bounds(down, left) && g.in_bounds(down, y) && g.in_bounds(down, right));
}

/// The live cells of the grid are the four cells of the block whose first
/// row is `r` and whose first column is `c`; the block may reach across an
/// edge.
pub open spec fn is_block(g: Grid, r: int, c: int) -> bool {
    forall|x: int, y: int|
        g.in_bounds(x, y) ==> #[trigger] g.cell(x, y) == if (x == r || x == (r + 1) % (
        g.height as int)) && (y == c || y == (c + 1) % (g.width as int)) {
            Cell::Alive
        } else {
            Cell::Dead
        }
}

/// Stasis of the block: on a grid of at least three rows and three columns,
/// a block of two by two live cells among dead cells is the same in every
/// later generation.
pub proof fn lemma_block_is_still(g: Grid, r: int, c: int, n: nat)
    requires
        g.wf(),
        g.width >= 3,
        g.height >= 3,
        g.in_bounds(r, c),
        is_block(g, r, c),
    ensures
        g.after(n) == g,
    decreases n,
{
    if n > 0 {
        lemma_block_is_still(g, r, c, (n - 1) as nat);
        assert forall|i: int| 0 <= i < g.cells.len() implies g.next_cell(i) == g.cells[i] by {
            lemma_block_cell_is_still(g, r, c, i);
        }
        assert(g.step().cells =~= g.cells);
    }
}

/// A cell of a grid that holds one block keeps its state in the next
/// generation.
proof fn lemma_block_cell_is_still(g: Grid, r: int, c: int, i: int)
    requires
        g.wf(),
        g.width >= 3,
        g.height >= 3,
        g.in_bounds(r, c),
        is_block(g, r, c),
        0 <= i < g.cells.len(),
    ensures
        g.next_cell(i) == g.cells[i],
{
    let h = g.height as int;
    let w = g.width as int;
    let x = i / w;
    let y = i % w;
    g.lemma_flat_index(i);
    lemma_wrap(x, h);
    lemma_wrap(y, w);
    lemma_wrap(r, h);
    lemma_wrap(c, w);
    let up = (x + (h - 1)) % h;
    let down = (x + 1) % h;
    let left = (y + (w - 1)) % w;
    let right = (y + 1) % w;
    assert(g.in_bounds(up, left) && g.in_bounds(up, y) && g.in_bounds(up, right));
    assert(g.in_bounds(x, left) && g.in_bounds(x, y) && g.in_bounds(x, right));
    assert(g.in_bounds(down, left) && g.in_bounds(down, y) && g.in_bounds(down, right));
    assert(g.cells[i] == g.cell(x, y));
}

} // verus!
