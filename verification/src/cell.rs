//! The state of a single cell, and the rule that gives its next state.

use vstd::prelude::*;

verus! {

/// State of one cell of the grid.
#[derive(Copy, Clone, Debug, PartialEq, Eq, Structural)]
pub enum Cell {
    /// The cell is dead.
    Dead,
    /// The cell is alive.
    Alive,
}

impl Cell {
    /// The state of a cell in the next generation, given its state now and
    /// the number of its neighbours that are alive now.
    ///
    /// A live cell with fewer than two live neighbours dies, one with two or
    /// three lives on, one with more than three dies; a dead cell with
    /// exactly three live neighbours comes alive, any other stays dead.
    pub open spec fn successor(self, live_neighbors: nat) -> Cell {
        match self {
            Cell::Alive => if live_neighbors == 2 || live_neighbors == 3 {
                Cell::Alive
            } else {
                Cell::Dead
            },
            Cell::Dead => if live_neighbors == 3 {
                Cell::Alive
            } else {
                Cell::Dead
            },
        }
    }

    /// The character that stands for the state in a picture of the grid: a
    /// hollow square for a dead cell, a filled one for a live cell.
    pub open spec fn glyph(self) -> char {
        match self {
            Cell::Dead => '\u{25FB}',
            Cell::Alive => '\u{25FC}',
        }
    }

    /// The upper-case name of the state.
    pub open spec fn label_text(self) -> Seq<char> {
        match self {
            Cell::Alive => "ALIVE"@,
            Cell::Dead => "DEAD"@,
        }
    }

    /// The upper-case name of the state, as it is shown to a user.
    pub fn label(&self) -> (text: &'static str)
        ensures
            text@ == self.label_text(),
    {
        match *self {
            Cell::Alive => "ALIVE",
            Cell::Dead => "DEAD",
        }
    }
}

} // verus!
