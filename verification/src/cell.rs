//! The state of one cell and the rule that decides its next state.

use vstd::prelude::*;

verus! {

/// One cell of the grid: either dead or alive.
#[derive(Clone, Copy, PartialEq, Eq, Structural, Debug)]
pub enum Cell {
    Dead,
    Alive,
}

impl Cell {
    /// What this cell adds to a count of live cells: 1 if alive, 0 if dead.
    pub open spec fn live(self) -> nat {
        match self {
            Cell::Dead => 0,
            Cell::Alive => 1,
        }
    }

    /// The state of a cell in the next generation, given its state now and the
    /// number of its neighbours that are alive now: a cell is alive next iff it
    /// has exactly three live neighbours, or is alive and has exactly two.
    pub open spec fn successor(self, live_neighbors: nat) -> Cell {
        if live_neighbors == 3 || (self == Cell::Alive && live_neighbors == 2) {
            Cell::Alive
        } else {
            Cell::Dead
        }
    }

    /// The three characters that stand for a cell in text: `[ ]` for a dead
    /// cell and `[x]` for a live one.
    pub open spec fn glyph(self) -> Seq<char> {
        match self {
            Cell::Dead => seq!['[', ' ', ']'],
            Cell::Alive => seq!['[', 'x', ']'],
        }
    }

    /// 1 for a live cell, 0 for a dead one.
    pub fn count(self) -> (n: u8)
        ensures
            n == self.live(),
    {
        match self {
            Cell::Dead => 0,
            Cell::Alive => 1,
        }
    }

    /// Applies the rules of the game to one cell with `live_neighbors` live
    /// neighbours.
    pub fn next(self, live_neighbors: u8) -> (out: Cell)
        ensures
            out == self.successor(live_neighbors as nat),
    {
        match (self, live_neighbors) {
            // A live cell with fewer than two live neighbours dies of underpopulation.
            (Cell::Alive, x) if x < 2 => Cell::Dead,
            // A live cell with two or three live neighbours lives on.
            (Cell::Alive, 2) | (Cell::Alive, 3) => Cell::Alive,
            // A live cell with more than three live neighbours dies of overpopulation.
            (Cell::Alive, x) if x > 3 => Cell::Dead,
            // A dead cell with exactly three live neighbours comes alive.
            (Cell::Dead, 3) => Cell::Alive,
            // Every other cell stays as it is.
            (otherwise, _) => otherwise,
        }
    }
}

} // verus!
