//! The grid of cells: storage, indexed access and neighbour counting.

use vstd::prelude::*;
use vstd::string::StringExecFns;
use crate::board::Board;
use crate::cell::Cell;
use crate::error::GridError;

verus! {

/// A position `(row, col)` of a grid of `rows` by `cols` cells has a
/// row-major index below the number of cells.
proof fn lemma_index_in_range(row: int, col: int, rows: int, cols: int)
    by (nonlinear_arith)
    requires
        0 <= row < rows,
        0 <= col < cols,
    ensures
        0 <= row * cols + col < rows * cols,
{
}

/// Two positions of one grid with the same row-major index are the same
/// position.
proof fn lemma_index_injective(row1: int, col1: int, row2: int, col2: int, cols: int)
    by (nonlinear_arith)
    requires
        0 <= col1 < cols,
        0 <= col2 < cols,
        row1 * cols + col1 == row2 * cols + col2,
    ensures
        row1 == row2,
        col1 == col2,
{
}

/// Every row-major index below the number of cells belongs to a position
/// of the grid: its quotient by the width is the row, its remainder the
/// column.
proof fn lemma_index_has_position(index: int, rows: int, cols: int)
    requires
        0 <= rows,
        0 <= cols,
        0 <= index < rows * cols,
    ensures
        0 < cols,
        0 <= index / cols < rows,
        0 <= index % cols < cols,
        (index / cols) * cols + index % cols == index,
{
    assert(0 < cols) by (nonlinear_arith)
        requires
            0 <= cols,
            0 <= index < rows * cols,
    ;
    vstd::arithmetic::div_mod::lemma_fundamental_div_mod(index, cols);
    vstd::arithmetic::div_mod::lemma_mod_bound(index, cols);
    let row = index / cols;
    assert(cols * row == row * cols) by (nonlinear_arith);
    assert(0 <= row < rows) by (nonlinear_arith)
        requires
            0 < cols,
            0 <= index < rows * cols,
            row * cols + index % cols == index,
            0 <= index % cols < cols,
    ;
}

/// A rectangular grid of cells with fixed dimensions.
///
/// The cells are stored row by row: the cell at `(row, col)` has index
/// `row * num_cols + col`.
pub struct Grid {
    /// Number of rows (height).
    num_rows: u32,
    /// Number of columns (width).
    num_cols: u32,
    /// The cells, in row-major order.
    grid: Vec<Cell>,
}

impl View for Grid {
    type V = Board;

    /// The board that the grid holds.
    closed spec fn view(&self) -> Board {
        Board {
            rows: self.num_rows as nat,
            cols: self.num_cols as nat,
            cells: Map::new(
                |p: (int, int)| 0 <= p.0 < self.num_rows && 0 <= p.1 < self.num_cols,
                |p: (int, int)| self.grid@[p.0 * self.num_cols + p.1],
            ),
        }
    }
}

impl Grid {
    /// A grid is well formed when it stores exactly one cell for each
    /// position. Every grid that this module hands out is well formed.
    pub closed spec fn wf(&self) -> bool {
        &&& self.grid@.len() == self.num_rows * self.num_cols
        &&& self.num_rows * self.num_cols <= usize::MAX
    }

    /// The board of every grid is well formed.
    pub proof fn lemma_view_wf(&self)
        ensures
            self@.wf(),
    {
    }

    /// Creates a grid of the given dimensions with every cell dead. Either
    /// dimension may be zero, which gives a grid without cells.
    ///
    /// The number of cells may not exceed `isize::MAX`, the most that one
    /// allocation can hold.
    pub fn new(num_rows: u32, num_cols: u32) -> (grid: Grid)
        requires
            num_rows * num_cols <= isize::MAX,
        ensures
            grid.wf(),
            grid@ == Board::blank(num_rows as nat, num_cols as nat),
    {
        assert(num_rows * num_cols >= 0) by (nonlinear_arith);
        let count: usize = num_rows as usize * num_cols as usize;
        let grid = Grid { num_rows: num_rows, num_cols: num_cols, grid: vec![Cell::Dead; count] };
        assert(grid@.cells =~= Board::blank(num_rows as nat, num_cols as nat).cells) by {
            assert forall|p: (int, int)| 0 <= p.0 < num_rows && 0 <= p.1 < num_cols implies grid.grid@[p.0
                * num_cols + p.1] == Cell::Dead by {
                lemma_index_in_range(p.0, p.1, num_rows as int, num_cols as int);
            }
        }
        grid
    }

    /// Number of rows of the grid.
    pub fn num_rows(&self) -> (rows: u32)
        ensures
            rows == self@.rows,
    {
        self.num_rows
    }

    /// Number of columns of the grid.
    pub fn num_cols(&self) -> (cols: u32)
        ensures
            cols == self@.cols,
    {
        self.num_cols
    }

    /// Converts a position to its row-major index.
    fn cell_to_index(&self, row: u32, col: u32) -> (index: usize)
        requires
            self.wf(),
            self@.in_bounds(row as int, col as int),
        ensures
            index == row * self.num_cols + col,
            index < self.grid@.len(),
    {
        proof {
            lemma_index_in_range(row as int, col as int, self.num_rows as int, self.num_cols as int);
            assert(row * self.num_cols >= 0) by (nonlinear_arith);
        }
        row as usize * self.num_cols as usize + col as usize
    }

    /// The cell at a position of the grid.
    pub(crate) fn cell(&self, row: u32, col: u32) -> (state: Cell)
        requires
            self.wf(),
            self@.in_bounds(row as int, col as int),
        ensures
            state == self@.cells[(row as int, col as int)],
    {
        let index = self.cell_to_index(row, col);
        self.grid[index]
    }

    /// Whether the cell at a position of the grid is alive.
    pub(crate) fn live(&self, row: u32, col: u32) -> (alive: bool)
        requires
            self.wf(),
            self@.in_bounds(row as int, col as int),
        ensures
            alive == self@.alive(row as int, col as int),
    {
        self.cell(row, col) == Cell::Alive
    }

    /// Returns the state of the cell at `(row, col)`, or
    /// [`GridError::OutOfBounds`] if the grid has no such position.
    pub fn get(&self, row: u32, col: u32) -> (result: Result<Cell, GridError>)
        requires
            self.wf(),
        ensures
            self@.in_bounds(row as int, col as int) ==> result == Ok::<Cell, GridError>(
                self@.cells[(row as int, col as int)],
            ),
            !self@.in_bounds(row as int, col as int) ==> result == Err::<Cell, GridError>(
                GridError::OutOfBounds,
            ),
    {
        if row < self.num_rows && col < self.num_cols {
            Ok(self.cell(row, col))
        } else {
            Err(GridError::OutOfBounds)
        }
    }

    /// Says whether the cell at `(row, col)` is alive, or reports
    /// [`GridError::OutOfBounds`] if the grid has no such position.
    pub fn is_cell_alive(&self, row: u32, col: u32) -> (result: Result<bool, GridError>)
        requires
            self.wf(),
        ensures
            self@.in_bounds(row as int, col as int) ==> result == Ok::<bool, GridError>(
                self@.alive(row as int, col as int),
            ),
            !self@.in_bounds(row as int, col as int) ==> result == Err::<bool, GridError>(
                GridError::OutOfBounds,
            ),
    {
        if row < self.num_rows && col < self.num_cols {
            Ok(self.live(row, col))
        } else {
            Err(GridError::OutOfBounds)
        }
    }

    /// Counts the live cells among the neighbours of `(row, col)`, or
    /// reports [`GridError::OutOfBounds`] if the grid has no such position.
    ///
    /// A cell in the interior has eight neighbours, one on an edge five, one
    /// in a corner three: positions beyond an edge are not looked at.
    pub fn get_neighbor_count(&self, row: u32, col: u32) -> (result: Result<u8, GridError>)
        requires
            self.wf(),
        ensures
            self@.in_bounds(row as int, col as int) ==> (result matches Ok(count) && count
                == self@.neighbor_count(row as int, col as int)),
            !self@.in_bounds(row as int, col as int) ==> result == Err::<u8, GridError>(
                GridError::OutOfBounds,
            ),
    {
        if row < self.num_rows && col < self.num_cols {
            Ok(self.neighbors(row, col))
        } else {
            Err(GridError::OutOfBounds)
        }
    }

    /// Counts the live cells among the neighbours of a position of the
    /// grid, looking at each of the eight in turn.
    pub(crate) fn neighbors(&self, row: u32, col: u32) -> (count: u8)
        requires
            self.wf(),
            self@.in_bounds(row as int, col as int),
        ensures
            count == self@.neighbor_count(row as int, col as int),
    {
        let ghost board = self@;
        let ghost r = row as int;
        let ghost c = col as int;
        let mut count: u8 = 0;

        // top left neighbor
        if (row > 0) && (col > 0) {
            if self.live(row - 1, col - 1) {
                count += 1;
            }
        }
        assert(count == board.live_at(r - 1, c - 1));

        // top center neighbor
        if row > 0 {
            if self.live(row - 1, col) {
                count += 1;
            }
        }
        assert(count == board.live_at(r - 1, c - 1) + board.live_at(r - 1, c));

        // top right neighbor
        if (row > 0) && ((col + 1) < self.num_cols) {
            if self.live(row - 1, col + 1) {
                count += 1;
            }
        }
        let ghost top = board.live_at(r - 1, c - 1) + board.live_at(r - 1, c) + board.live_at(
            r - 1,
            c + 1,
        );
        assert(count == top);

        // left neighbor
        if col > 0 {
            if self.live(row, col - 1) {
                count += 1;
            }
        }
        assert(count == top + board.live_at(r, c - 1));

        // right neighbor
        if (col + 1) < self.num_cols {
            if self.live(row, col + 1) {
                count += 1;
            }
        }
        let ghost middle = top + board.live_at(r, c - 1) + board.live_at(r, c + 1);
        assert(count == middle);

        // bottom left neighbor
        if ((row + 1) < self.num_rows) && (col > 0) {
            if self.live(row + 1, col - 1) {
                count += 1;
            }
        }
        assert(count == middle + board.live_at(r + 1, c - 1));

        // bottom center neighbor
        if (row + 1) < self.num_rows {
            if self.live(row + 1, col) {
                count += 1;
            }
        }
        assert(count == middle + board.live_at(r + 1, c - 1) + board.live_at(r + 1, c));

        // bottom right neighbor
        if ((row + 1) < self.num_rows) && ((col + 1) < self.num_cols) {
            if self.live(row + 1, col + 1) {
                count += 1;
            }
        }
        assert(count == board.neighbor_count(r, c));

        count
    }

    /// Overwrites the cell at a position of the grid.
    pub(crate) fn put(&mut self, row: u32, col: u32, state: Cell)
        requires
            old(self).wf(),
            old(self)@.in_bounds(row as int, col as int),
        ensures
            final(self).wf(),
            final(self)@ == old(self)@.put(row as int, col as int, state),
    {
        let index = self.cell_to_index(row, col);
        self.grid.set(index, state);
        proof {
            let cols = self.num_cols as int;
            assert forall|p: (int, int)| 0 <= p.0 < self.num_rows && 0 <= p.1 < self.num_cols implies (
            #[trigger] self@.cells[p]) == old(self)@.cells.insert((row as int, col as int), state)[p] by {
                if p != (row as int, col as int) {
                    if p.0 * cols + p.1 == row * cols + col {
                        lemma_index_injective(p.0, p.1, row as int, col as int, cols);
                    }
                    lemma_index_in_range(p.0, p.1, self.num_rows as int, cols);
                }
            }
            assert(self@.cells =~= old(self)@.cells.insert((row as int, col as int), state));
        }
    }

    /// Overwrites the cell at `(row, col)` with `state`, or reports
    /// [`GridError::OutOfBounds`] and changes nothing if the grid has no
    /// such position.
    pub fn set(&mut self, row: u32, col: u32, state: Cell) -> (result: Result<(), GridError>)
        requires
            old(self).wf(),
        ensures
            final(self).wf(),
            old(self)@.in_bounds(row as int, col as int) ==> result == Ok::<(), GridError>(())
                && final(self)@ == old(self)@.put(row as int, col as int, state),
            !old(self)@.in_bounds(row as int, col as int) ==> result == Err::<(), GridError>(
                GridError::OutOfBounds,
            ) && final(self)@ == old(self)@,
    {
        if row < self.num_rows && col < self.num_cols {
            self.put(row, col, state);
            Ok(())
        } else {
            Err(GridError::OutOfBounds)
        }
    }

    /// Marks each of the listed cells alive, in order, and leaves every
    /// other cell as it was.
    ///
    /// At the first coordinate that is not a position of the grid it stops
    /// and reports [`GridError::OutOfBounds`]; the cells listed before that
    /// one have then been marked.
    pub fn set_cells(&mut self, cells: &[(u32, u32)]) -> (result: Result<(), GridError>)
        requires
            old(self).wf(),
        ensures
            final(self).wf(),
            match result {
                Ok(_) => old(self)@.all_inside(cells@) && final(self)@ == old(self)@.with_alive(
                    cells@,
                ),
                Err(e) => e == GridError::OutOfBounds && exists|k: int| #[trigger]
                    old(self)@.first_outside(cells@, k) && final(self)@ == old(self)@.with_alive(
                        cells@.take(k),
                    ),
            },
    {
        proof {
            self.lemma_view_wf();
            self@.lemma_with_alive_none();
            assert(cells@.take(0) =~= Seq::empty());
        }
        for i in 0..cells.len()
            invariant
                self.wf(),
                old(self)@.wf(),
                old(self)@.all_inside(cells@.take(i as int)),
                self@ == old(self)@.with_alive(cells@.take(i as int)),
        {
            let (row, col) = cells[i];
            if row >= self.num_rows || col >= self.num_cols {
                assert(old(self)@.first_outside(cells@, i as int));
                return Err(GridError::OutOfBounds);
            }
            self.put(row, col, Cell::Alive);
            proof {
                let before = cells@.take(i as int);
                assert(cells@.take(i + 1) =~= before.push((row, col)));
                old(self)@.lemma_with_alive_push(before, row, col);
            }
        }
        assert(cells@.take(cells@.len() as int) =~= cells@);
        Ok(())
    }

    /// Says whether at least one cell of the grid is alive.
    pub fn is_any_cell_alive(&self) -> (alive: bool)
        requires
            self.wf(),
        ensures
            alive == self@.any_alive(),
    {
        let ghost rows = self.num_rows as int;
        let ghost cols = self.num_cols as int;
        let mut index: usize = 0;
        while index < self.grid.len()
            invariant
                self.wf(),
                rows == self.num_rows,
                cols == self.num_cols,
                index <= self.grid@.len(),
                forall|i: int| 0 <= i < index ==> self.grid@[i] != Cell::Alive,
            decreases self.grid@.len() - index,
        {
            if self.grid[index] == Cell::Alive {
                proof {
                    let i = index as int;
                    lemma_index_has_position(i, rows, cols);
                    assert(self@.alive(i / cols, i % cols));
                }
                return true;
            }
            index += 1;
        }
        assert forall|row: int, col: int| !#[trigger] self@.alive(row, col) by {
            if self@.in_bounds(row, col) {
                lemma_index_in_range(row, col, rows, cols);
            }
        }
        false
    }

    /// Draws the grid as text: one line for each row, a hollow square for
    /// each dead cell and a filled square for each live one.
    pub fn render(&self) -> (text: String)
        requires
            self.wf(),
        ensures
            text@ == self@.text(),
    {
        let mut text = String::new();
        for row in 0..self.num_rows
            invariant
                self.wf(),
                text@ == self@.rows_text(row as nat),
        {
            let ghost above = text@;
            for col in 0..self.num_cols
                invariant
                    self.wf(),
                    row < self.num_rows,
                    text@ == above + Seq::new(
                        col as nat,
                        |c: int| self@.cells[(row as int, c)].glyph(),
                    ),
            {
                let symbol = if self.cell(row, col) == Cell::Dead {
                    "\u{25FB}"
                } else {
                    "\u{25FC}"
                };
                proof {
                    reveal_strlit("\u{25FB}");
                    reveal_strlit("\u{25FC}");
                    assert(symbol@ =~= seq![self@.cells[(row as int, col as int)].glyph()]);
                }
                text.append(symbol);
                assert(text@ =~= above + Seq::new(
                    (col + 1) as nat,
                    |c: int| self@.cells[(row as int, c)].glyph(),
                ));
            }
            proof {
                reveal_strlit("\n");
            }
            text.append("\n");
            assert(text@ =~= above + self@.row_text(row as int));
        }
        text
    }
}

} // verus!
