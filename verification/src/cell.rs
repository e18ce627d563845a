//! The two-valued state of one grid position and its transition rule.

use vstd::prelude::*;

verus! {

/// The state of one grid position.
#[derive(Clone, Copy, Debug, PartialEq, Eq, Structural)]
pub enum Cell {
    Dead,
    Alive,
}

impl Cell {
    /// What the cell adds to a neighbor count: 1 when alive, 0 when dead.
    pub open spec fn weight(self) -> nat {
        match self {
            Cell::Dead => 0,
            Cell::Alive => 1,
        }
    }

    /// The state that follows this one when `live_neighbors` of the
    /// surrounding cells are alive: a live cell survives with two or three
    /// live neighbors, a dead cell is born with exactly three, and every
    /// other cell is dead in the next generation.
    pub open spec fn evolve(self, live_neighbors: nat) -> Cell {
        match self {
            Cell::Alive => if live_neighbors == 2 || live_neighbors == 3 {
                Cell::Alive
            } else {
                Cell::Dead
            },
            Cell::Dead => if live_neighbors == 3 {
                Cell::Alive
            } else {
                Cell::Dead
            },
        }
    }

    /// The character that stands for the cell in rendered text: a space for
    /// a dead cell, a filled circle for a live one.
    pub open spec fn glyph(self) -> char {
        match self {
            Cell::Dead => ' ',
            Cell::Alive => '\u{25cf}',
        }
    }

    /// The cell as a small integer that can be summed: 1 when alive, 0 when
    /// dead.
    pub fn value(self) -> (v: u8)
        ensures
            v == self.weight(),
    {
        match self {
            Cell::Dead => 0,
            Cell::Alive => 1,
        }
    }

    /// Applies the transition rule to one cell.
    pub fn next(self, live_neighbors: u8) -> (cell: Cell)
        ensures
            cell == self.evolve(live_neighbors as nat),
    {
        match self {
            Cell::Alive => if live_neighbors == 2 || live_neighbors == 3 {
                Cell::Alive
            } else {
                Cell::Dead
            },
            Cell::Dead => if live_neighbors == 3 {
                Cell::Alive
            } else {
                Cell::Dead
            },
        }
    }

    /// The cell's glyph as a one-character string.
    pub fn symbol(self) -> (text: &'static str)
        ensures
            text@ == seq![self.glyph()],
    {
        match self {
            Cell::Dead => {
                proof {
                    reveal_strlit(" ");
                }
                assert(" "@ =~= seq![' ']);
                " "
            },
            Cell::Alive => {
                proof {
                    reveal_strlit("\u{25cf}");
                }
                assert("\u{25cf}"@ =~= seq!['\u{25cf}']);
                "\u{25cf}"
            },
        }
    }
}

} // verus!
