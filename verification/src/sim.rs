//! The simulation: a grid, a generation counter, and the step that advances
//! both.

use vstd::prelude::*;
use crate::board::Board;
use crate::cell::Cell;
use crate::error::GridError;
use crate::grid::Grid;

verus! {

/// The mathematical model of a simulation: the board and the number of
/// generations that have passed.
pub struct SimState {
    /// The board as it stands.
    pub board: Board,
    /// Number of steps taken so far.
    pub generation: nat,
}

impl SimState {
    /// The state of a simulation that starts from `board`.
    pub open spec fn initial(board: Board) -> SimState {
        SimState { board, generation: 0 }
    }

    /// The state after one more generation.
    pub open spec fn step(self) -> SimState {
        SimState { board: self.board.next(), generation: self.generation + 1 }
    }

    /// The state after `n` more generations.
    pub open spec fn step_n(self, n: nat) -> SimState
        decreases n,
    {
        if n == 0 {
            self
        } else {
            self.step_n((n - 1) as nat).step()
        }
    }
}

/// A change of one cell that a step has decided on and not yet made.
struct Operation {
    /// Row of the cell.
    row: u32,
    /// Column of the cell.
    col: u32,
    /// The state that the cell is to take.
    state: Cell,
}

impl Operation {
    /// Creates the change of the cell at `(row, col)` to `state`.
    fn new(row: u32, col: u32, state: Cell) -> (operation: Operation)
        ensures
            operation == (Operation { row, col, state }),
    {
        Operation { row, col, state }
    }
}

/// Whether `operations` holds a change of the cell at `(row, col)`.
spec fn scheduled(operations: Seq<Operation>, row: int, col: int) -> bool {
    exists|i: int|
        0 <= i < operations.len() && (#[trigger] operations[i]).row == row && operations[i].col
            == col
}

/// Whether every change in `operations` is of a cell of `board`, to the
/// state that the cell has in the next generation.
spec fn sound(board: Board, operations: Seq<Operation>) -> bool {
    forall|i: int|
        0 <= i < operations.len() ==> {
            let operation = #[trigger] operations[i];
            &&& board.in_bounds(operation.row as int, operation.col as int)
            &&& operation.state == board.next_cell(operation.row as int, operation.col as int)
        }
}

/// Whether `operations` holds a change of every cell of `board` that comes
/// before `(row, col)` in row-major order and whose state differs in the
/// next generation.
spec fn complete(board: Board, operations: Seq<Operation>, row: int, col: int) -> bool {
    forall|r: int, c: int|
        board.in_bounds(r, c) && (r < row || (r == row && c < col)) && board.next_cell(r, c)
            != board.cells[(r, c)] ==> #[trigger] scheduled(operations, r, c)
}

/// A change that `operations` holds is still held after more are added.
proof fn lemma_scheduled_after_append(
    operations: Seq<Operation>,
    more: Seq<Operation>,
    row: int,
    col: int,
)
    requires
        scheduled(operations, row, col),
    ensures
        scheduled(operations + more, row, col),
{
    let i = choose|i: int|
        0 <= i < operations.len() && (#[trigger] operations[i]).row == row && operations[i].col
            == col;
    assert((operations + more)[i] == operations[i]);
}

/// A simulation of the Game of Life.
pub struct ConwaySim {
    /// The grid of the simulation.
    grid: Grid,
    /// The current generation.
    generation: u32,
}

impl View for ConwaySim {
    type V = SimState;

    /// The board and the generation of the simulation.
    closed spec fn view(&self) -> SimState {
        SimState { board: self.grid@, generation: self.generation as nat }
    }
}

impl ConwaySim {
    /// A simulation is well formed when its grid is. Every simulation that
    /// this module hands out is well formed.
    pub closed spec fn wf(&self) -> bool {
        self.grid.wf()
    }

    /// The board of every simulation is well formed.
    pub proof fn lemma_view_wf(&self)
        ensures
            self@.board.wf(),
    {
        self.grid.lemma_view_wf();
    }

    /// Creates a simulation at generation 0 over a grid of the given
    /// dimensions with every cell dead. The number of cells may not exceed
    /// `isize::MAX`.
    pub fn new(num_rows: u32, num_cols: u32) -> (sim: ConwaySim)
        requires
            num_rows * num_cols <= isize::MAX,
        ensures
            sim.wf(),
            sim@ == SimState::initial(Board::blank(num_rows as nat, num_cols as nat)),
    {
        ConwaySim { grid: Grid::new(num_rows, num_cols), generation: 0 }
    }

    /// Creates a simulation at generation 0 over the given grid.
    pub fn new_with_grid(grid: Grid) -> (sim: ConwaySim)
        requires
            grid.wf(),
        ensures
            sim.wf(),
            sim@ == SimState::initial(grid@),
    {
        ConwaySim { grid, generation: 0 }
    }

    /// The grid of the simulation.
    pub fn grid(&self) -> (grid: &Grid)
        requires
            self.wf(),
        ensures
            grid.wf(),
            grid@ == self@.board,
    {
        &self.grid
    }

    /// Number of steps taken so far.
    pub fn get_generation(&self) -> (generation: u32)
        ensures
            generation == self@.generation,
    {
        self.generation
    }

    /// Says whether the cell at `(row, col)` is alive, or reports
    /// [`GridError::OutOfBounds`] if the grid has no such position.
    pub fn is_cell_alive(&self, row: u32, col: u32) -> (result: Result<bool, GridError>)
        requires
            self.wf(),
        ensures
            self@.board.in_bounds(row as int, col as int) ==> result == Ok::<bool, GridError>(
                self@.board.alive(row as int, col as int),
            ),
            !self@.board.in_bounds(row as int, col as int) ==> result == Err::<bool, GridError>(
                GridError::OutOfBounds,
            ),
    {
        self.grid.is_cell_alive(row, col)
    }

    /// Says whether at least one cell of the grid is alive.
    pub fn is_any_cell_alive(&self) -> (alive: bool)
        requires
            self.wf(),
        ensures
            alive == self@.board.any_alive(),
    {
        self.grid.is_any_cell_alive()
    }

    /// Counts the live cells among the neighbours of `(row, col)`, or
    /// reports [`GridError::OutOfBounds`] if the grid has no such position.
    pub fn get_neighbor_count(&self, row: u32, col: u32) -> (result: Result<u8, GridError>)
        requires
            self.wf(),
        ensures
            self@.board.in_bounds(row as int, col as int) ==> (result matches Ok(count) && count
                == self@.board.neighbor_count(row as int, col as int)),
            !self@.board.in_bounds(row as int, col as int) ==> result == Err::<u8, GridError>(
                GridError::OutOfBounds,
            ),
    {
        self.grid.get_neighbor_count(row, col)
    }

    /// Draws the grid as text: one line for each row, a hollow square for
    /// each dead cell and a filled square for each live one.
    pub fn render(&self) -> (text: String)
        requires
            self.wf(),
        ensures
            text@ == self@.board.text(),
    {
        self.grid.render()
    }

    /// Marks each of the listed cells alive, in order, and leaves every
    /// other cell and the generation as they were.
    ///
    /// At the first coordinate that is not a position of the grid it stops
    /// and reports [`GridError::OutOfBounds`]; the cells listed before that
    /// one have then been marked.
    pub fn set_cells(&mut self, cells: &[(u32, u32)]) -> (result: Result<(), GridError>)
        requires
            old(self).wf(),
        ensures
            final(self).wf(),
            final(self)@.generation == old(self)@.generation,
            match result {
                Ok(_) => old(self)@.board.all_inside(cells@) && final(self)@.board
                    == old(self)@.board.with_alive(cells@),
                Err(e) => e == GridError::OutOfBounds && exists|k: int| #[trigger]
                    old(self)@.board.first_outside(cells@, k) && final(self)@.board
                        == old(self)@.board.with_alive(cells@.take(k)),
            },
    {
        let result = self.grid.set_cells(cells);
        proof {
            if let Err(e) = result {
                let k = choose|k: int| #[trigger]
                    old(self).grid@.first_outside(cells@, k) && self.grid@ == old(self).grid@.with_alive(
                        cells@.take(k),
                    );
                assert(old(self)@.board.first_outside(cells@, k));
            }
        }
        result
    }

    /// Applies the rule to the cell at a position of the grid: returns the
    /// change of that cell if its state differs in the next generation, and
    /// nothing if it keeps its state.
    fn apply_rules(&self, row: u32, col: u32) -> (operations: Vec<Operation>)
        requires
            self.wf(),
            self@.board.in_bounds(row as int, col as int),
        ensures
            operations@ == if self@.board.next_cell(row as int, col as int)
                == self@.board.cells[(row as int, col as int)] {
                Seq::<Operation>::empty()
            } else {
                seq![
                    Operation { row, col, state: self@.board.next_cell(row as int, col as int) },
                ]
            },
    {
        let mut operations: Vec<Operation> = Vec::new();

        // the number of live neighbors of the cell
        let neighbor_count = self.grid.neighbors(row, col);

        // whether the cell itself is alive
        let alive = self.grid.live(row, col);

        if alive {
            if neighbor_count < 2 {
                // fewer than two live neighbors: the cell dies, as if by
                // under-population
                operations.push(Operation::new(row, col, Cell::Dead));
            } else if neighbor_count <= 3 {
                // two or three live neighbors: the cell lives on
            } else {
                // more than three live neighbors: the cell dies, as if by
                // overcrowding
                operations.push(Operation::new(row, col, Cell::Dead));
            }
        } else {
            if neighbor_count == 3 {
                // exactly three live neighbors: the cell comes alive, as if
                // by reproduction
                operations.push(Operation::new(row, col, Cell::Alive));
            }
        }
        assert(operations@ =~= if self@.board.next_cell(row as int, col as int)
            == self@.board.cells[(row as int, col as int)] {
            Seq::<Operation>::empty()
        } else {
            seq![Operation { row, col, state: self@.board.next_cell(row as int, col as int) }]
        });

        operations
    }

    /// Advances the simulation by one generation.
    ///
    /// The rule is applied to every cell against the grid as it stands when
    /// the step begins; the changes it calls for are collected first and
    /// made only when every cell has been looked at. The generation counter
    /// must have room for one more step.
    pub fn step(&mut self)
        requires
            old(self).wf(),
            old(self)@.generation < u32::MAX,
        ensures
            final(self).wf(),
            final(self)@ == old(self)@.step(),
    {
        let mut operations: Vec<Operation> = Vec::new();

        // increment the generation
        self.generation += 1;

        let ghost board = self.grid@;
        let num_rows = self.grid.num_rows();
        let num_cols = self.grid.num_cols();
        proof {
            self.grid.lemma_view_wf();
        }

        // evaluate each cell of the grid
        for row in 0..num_rows
            invariant
                self.wf(),
                self.grid@ == board,
                self.generation == old(self).generation + 1,
                board.wf(),
                num_rows == board.rows,
                num_cols == board.cols,
                sound(board, operations@),
                complete(board, operations@, row as int, 0),
        {
            for col in 0..num_cols
                invariant
                    self.wf(),
                    self.grid@ == board,
                    self.generation == old(self).generation + 1,
                    board.wf(),
                    num_rows == board.rows,
                    num_cols == board.cols,
                    row < num_rows,
                    sound(board, operations@),
                    complete(board, operations@, row as int, col as int),
            {
                let ghost earlier = operations@;
                let mut results = self.apply_rules(row, col);
                let ghost found = results@;
                operations.append(&mut results);
                proof {
                    assert forall|r: int, c: int|
                        board.in_bounds(r, c) && (r < row || (r == row && c < col + 1))
                            && board.next_cell(r, c) != board.cells[(r, c)] implies #[trigger] scheduled(
                        operations@,
                        r,
                        c,
                    ) by {
                        if r == row && c == col {
                            assert(operations@[earlier.len() as int] == found[0]);
                        } else {
                            lemma_scheduled_after_append(earlier, found, r, c);
                        }
                    }
                }
            }
        }

        // make the changes
        for i in 0..operations.len()
            invariant
                self.wf(),
                self.generation == old(self).generation + 1,
                board.wf(),
                sound(board, operations@),
                self.grid@.rows == board.rows,
                self.grid@.cols == board.cols,
                forall|r: int, c: int|
                    board.in_bounds(r, c) ==> #[trigger] self.grid@.cells[(r, c)] == if scheduled(
                        operations@.take(i as int),
                        r,
                        c,
                    ) {
                        board.next_cell(r, c)
                    } else {
                        board.cells[(r, c)]
                    },
        {
            let ghost current = self.grid@;
            let operation = &operations[i];
            self.grid.put(operation.row, operation.col, operation.state);
            proof {
                let done = operations@.take(i as int);
                let next_done = operations@.take(i + 1);
                assert forall|r: int, c: int| board.in_bounds(r, c) implies scheduled(next_done, r, c)
                    == (scheduled(done, r, c) || (operation.row == r && operation.col == c)) by {
                    if scheduled(done, r, c) {
                        let j = choose|j: int|
                            0 <= j < done.len() && (#[trigger] done[j]).row == r && done[j].col == c;
                        assert(next_done[j] == done[j]);
                    }
                    if operation.row == r && operation.col == c {
                        assert(next_done[i as int] == *operation);
                    }
                    if scheduled(next_done, r, c) {
                        let j = choose|j: int|
                            0 <= j < next_done.len() && (#[trigger] next_done[j]).row == r
                                && next_done[j].col == c;
                        if j < i {
                            assert(done[j] == next_done[j]);
                        }
                    }
                }
            }
        }
        proof {
            self.grid.lemma_view_wf();
            assert(operations@.take(operations@.len() as int) =~= operations@);
            assert(self.grid@.cells =~= board.next().cells);
        }
    }
}

} // verus!
