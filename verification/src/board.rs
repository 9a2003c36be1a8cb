//! The mathematical model of a grid: its dimensions and the state of every
//! cell, addressed by `(row, column)`.
//!
//! Everything in this file is specification. The executable types are
//! specified in terms of it.

use vstd::prelude::*;
use crate::cell::Cell;

verus! {

/// A rectangular board of `rows` by `cols` cells.
///
/// The edges are hard: a position outside the rectangle holds no cell, and
/// nothing wraps around to the opposite edge.
pub struct Board {
    /// Number of rows.
    pub rows: nat,
    /// Number of columns.
    pub cols: nat,
    /// State of each cell, keyed by `(row, column)`.
    pub cells: Map<(int, int), Cell>,
}

impl Board {
    /// Whether `(row, col)` is a position of the board.
    pub open spec fn in_bounds(self, row: int, col: int) -> bool {
        0 <= row < self.rows && 0 <= col < self.cols
    }

    /// A board is well formed when it holds exactly one state for each of
    /// its positions, and none for any other.
    pub open spec fn wf(self) -> bool {
        forall|p: (int, int)| self.cells.dom().contains(p) <==> self.in_bounds(p.0, p.1)
    }

    /// Whether `(row, col)` is a position of the board whose cell is alive.
    /// A position outside the board holds no live cell.
    pub open spec fn alive(self, row: int, col: int) -> bool {
        self.in_bounds(row, col) && self.cells[(row, col)] == Cell::Alive
    }

    /// The board of the given dimensions on which every cell is dead.
    pub open spec fn blank(rows: nat, cols: nat) -> Board {
        Board {
            rows,
            cols,
            cells: Map::new(
                |p: (int, int)| 0 <= p.0 < rows && 0 <= p.1 < cols,
                |p: (int, int)| Cell::Dead,
            ),
        }
    }

    /// This board with the cell at `(row, col)` replaced by `state`.
    pub open spec fn put(self, row: int, col: int, state: Cell) -> Board {
        Board { rows: self.rows, cols: self.cols, cells: self.cells.insert((row, col), state) }
    }

    /// Whether `(row, col)` occurs in `coords`.
    pub open spec fn listed(coords: Seq<(u32, u32)>, row: int, col: int) -> bool {
        exists|i: int|
            0 <= i < coords.len() && (#[trigger] coords[i]).0 == row && coords[i].1 == col
    }

    /// Whether every coordinate of `coords` is a position of the board.
    pub open spec fn all_inside(self, coords: Seq<(u32, u32)>) -> bool {
        forall|i: int|
            0 <= i < coords.len() ==> self.in_bounds(
                (#[trigger] coords[i]).0 as int,
                coords[i].1 as int,
            )
    }

    /// Whether `k` is the index of the first coordinate of `coords` that is
    /// not a position of the board.
    pub open spec fn first_outside(self, coords: Seq<(u32, u32)>, k: int) -> bool {
        &&& 0 <= k < coords.len()
        &&& !self.in_bounds(coords[k].0 as int, coords[k].1 as int)
        &&& self.all_inside(coords.take(k))
    }

    /// This board with every cell that `coords` lists alive, and every
    /// other cell as it was.
    pub open spec fn with_alive(self, coords: Seq<(u32, u32)>) -> Board {
        Board {
            rows: self.rows,
            cols: self.cols,
            cells: Map::new(
                |p: (int, int)| self.in_bounds(p.0, p.1),
                |p: (int, int)|
                    if Self::listed(coords, p.0, p.1) {
                        Cell::Alive
                    } else {
                        self.cells[p]
                    },
            ),
        }
    }

    /// Whether at least one cell of the board is alive.
    pub open spec fn any_alive(self) -> bool {
        exists|row: int, col: int| #[trigger] self.alive(row, col)
    }

    /// 1 if `(row, col)` holds a live cell, 0 if it holds a dead one or lies
    /// outside the board.
    pub open spec fn live_at(self, row: int, col: int) -> nat {
        if self.alive(row, col) {
            1
        } else {
            0
        }
    }

    /// Number of live cells among the up to eight neighbours of
    /// `(row, col)`: the cells of the three-by-three block around it, the
    /// centre left out. Neighbour positions beyond an edge count nothing.
    pub open spec fn neighbor_count(self, row: int, col: int) -> nat {
        self.live_at(row - 1, col - 1) + self.live_at(row - 1, col) + self.live_at(row - 1, col + 1)
            + self.live_at(row, col - 1) + self.live_at(row, col + 1)
            + self.live_at(row + 1, col - 1) + self.live_at(row + 1, col) + self.live_at(row + 1, col + 1)
    }

    /// The state that the cell at `(row, col)` has in the next generation.
    pub open spec fn next_cell(self, row: int, col: int) -> Cell {
        self.cells[(row, col)].successor(self.neighbor_count(row, col))
    }

    /// The next generation: every cell takes the state that the rule gives
    /// it from this board, all at once.
    pub open spec fn next(self) -> Board {
        Board {
            rows: self.rows,
            cols: self.cols,
            cells: Map::new(
                |p: (int, int)| self.in_bounds(p.0, p.1),
                |p: (int, int)| self.next_cell(p.0, p.1),
            ),
        }
    }

    /// The picture of one row: the glyph of each of its cells from left to
    /// right, then a line feed.
    pub open spec fn row_text(self, row: int) -> Seq<char> {
        Seq::new(self.cols, |col: int| self.cells[(row, col)].glyph()).push('\n')
    }

    /// The picture of the first `count` rows, one line for each.
    pub open spec fn rows_text(self, count: nat) -> Seq<char>
        decreases count,
    {
        if count == 0 {
            Seq::empty()
        } else {
            self.rows_text((count - 1) as nat) + self.row_text(count - 1)
        }
    }

    /// The picture of the board: one line for each row, from the top.
    pub open spec fn text(self) -> Seq<char> {
        self.rows_text(self.rows)
    }

    /// Marking the cells of a list that ends in `(row, col)` alive is
    /// marking those before it, then the cell at `(row, col)`.
    pub proof fn lemma_with_alive_push(self, coords: Seq<(u32, u32)>, row: u32, col: u32)
        requires
            self.wf(),
            self.in_bounds(row as int, col as int),
        ensures
            self.with_alive(coords.push((row, col))) == self.with_alive(coords).put(
                row as int,
                col as int,
                Cell::Alive,
            ),
    {
        let longer = coords.push((row, col));
        let marked = self.with_alive(longer);
        let stepwise = self.with_alive(coords).put(row as int, col as int, Cell::Alive);
        assert forall|p: (int, int)| self.in_bounds(p.0, p.1) implies Self::listed(longer, p.0, p.1)
            == (Self::listed(coords, p.0, p.1) || p == (row as int, col as int)) by {
            if Self::listed(coords, p.0, p.1) {
                let i = choose|i: int|
                    0 <= i < coords.len() && (#[trigger] coords[i]).0 == p.0 && coords[i].1 == p.1;
                assert(longer[i] == coords[i]);
            }
            if p == (row as int, col as int) {
                assert(longer[coords.len() as int] == (row, col));
            }
            if Self::listed(longer, p.0, p.1) {
                let i = choose|i: int|
                    0 <= i < longer.len() && (#[trigger] longer[i]).0 == p.0 && longer[i].1 == p.1;
                if i < coords.len() {
                    assert(coords[i] == longer[i]);
                }
            }
        }
        assert(marked.cells =~= stepwise.cells);
    }

    /// Marking no cell changes nothing.
    pub proof fn lemma_with_alive_none(self)
        requires
            self.wf(),
        ensures
            self.with_alive(Seq::empty()) == self,
    {
        assert(self.with_alive(Seq::empty()).cells =~= self.cells);
    }
}

} // verus!
