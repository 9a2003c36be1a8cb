//! What holds of every board and of every run of the simulation.

use vstd::prelude::*;
use crate::board::Board;
use crate::cell::Cell;
use crate::sim::SimState;

verus! {

/// A blank board is well formed, every one of its cells is dead, and so
/// none is alive.
pub proof fn lemma_blank_is_dead(rows: nat, cols: nat)
    ensures
        Board::blank(rows, cols).wf(),
        Board::blank(rows, cols).rows == rows,
        Board::blank(rows, cols).cols == cols,
        forall|row: int, col: int|
            Board::blank(rows, cols).in_bounds(row, col) ==> #[trigger] Board::blank(
                rows,
                cols,
            ).cells[(row, col)] == Cell::Dead,
        !Board::blank(rows, cols).any_alive(),
{
}

/// After the cell at a position of the board has been replaced, that cell
/// holds the new state, every other cell holds the state it had, and the
/// board is well formed as before.
pub proof fn lemma_put_then_get(board: Board, row: int, col: int, state: Cell)
    requires
        board.wf(),
        board.in_bounds(row, col),
    ensures
        board.put(row, col, state).wf(),
        board.put(row, col, state).rows == board.rows,
        board.put(row, col, state).cols == board.cols,
        board.put(row, col, state).cells[(row, col)] == state,
        forall|r: int, c: int|
            (r, c) != (row, col) ==> #[trigger] board.put(row, col, state).cells[(r, c)]
                == board.cells[(r, c)],
{
}

/// No cell has more than eight live neighbours.
pub proof fn lemma_neighbor_count_at_most_eight(board: Board, row: int, col: int)
    ensures
        board.neighbor_count(row, col) <= 8,
{
}

/// A cell whose eight neighbours are all alive has a neighbour count of
/// exactly eight.
pub proof fn lemma_neighbor_count_full(board: Board, row: int, col: int)
    requires
        forall|r: int, c: int|
            row - 1 <= r <= row + 1 && col - 1 <= c <= col + 1 && (r, c) != (row, col)
                ==> #[trigger] board.alive(r, c),
    ensures
        board.neighbor_count(row, col) == 8,
{
    assert(board.alive(row - 1, col - 1));
    assert(board.alive(row - 1, col));
    assert(board.alive(row - 1, col + 1));
    assert(board.alive(row, col - 1));
    assert(board.alive(row, col + 1));
    assert(board.alive(row + 1, col - 1));
    assert(board.alive(row + 1, col));
    assert(board.alive(row + 1, col + 1));
}

/// The corner cell `(0, 0)` never has more than three live neighbours, and
/// it has exactly three when the three cells around it are alive.
pub proof fn lemma_neighbor_count_corner(board: Board)
    ensures
        board.neighbor_count(0, 0) <= 3,
        board.alive(0, 1) && board.alive(1, 0) && board.alive(1, 1) ==> board.neighbor_count(0, 0)
            == 3,
{
}

/// The neighbour count of a cell depends on its eight neighbours only:
/// replacing the cell itself, or any cell that is more than one row or more
/// than one column away, leaves the count as it was.
pub proof fn lemma_neighbor_count_is_local(
    board: Board,
    row: int,
    col: int,
    other_row: int,
    other_col: int,
    state: Cell,
)
    requires
        (other_row, other_col) == (row, col) || other_row < row - 1 || other_row > row + 1
            || other_col < col - 1 || other_col > col + 1,
    ensures
        board.put(other_row, other_col, state).neighbor_count(row, col) == board.neighbor_count(
            row,
            col,
        ),
{
}

/// The edges do not wrap around: the last cell of the first row is no
/// neighbour of the first cell of that row, so replacing it leaves the
/// neighbour count of `(0, 0)` as it was. A board of exactly two columns is
/// left out, where the last cell of the row is the one next to the first.
pub proof fn lemma_no_wraparound(board: Board, state: Cell)
    requires
        board.cols != 2,
    ensures
        board.put(0, board.cols - 1, state).neighbor_count(0, 0) == board.neighbor_count(0, 0),
{
    if board.cols >= 1 {
        lemma_neighbor_count_is_local(board, 0, 0, 0, board.cols - 1, state);
    }
}

/// On a board with a single row, the neighbour count of `(0, 0)` is that of
/// the one cell to its right.
pub proof fn lemma_single_row_corner(board: Board)
    requires
        board.rows == 1,
    ensures
        board.neighbor_count(0, 0) == board.live_at(0, 1),
{
}

/// The next generation has the dimensions of this one and is well formed.
pub proof fn lemma_next_wf(board: Board)
    ensures
        board.next().wf(),
        board.next().rows == board.rows,
        board.next().cols == board.cols,
{
}

/// A live cell without a live neighbour is dead in the next generation.
pub proof fn lemma_isolated_cell_dies(board: Board, row: int, col: int)
    requires
        board.alive(row, col),
        board.neighbor_count(row, col) == 0,
    ensures
        !board.next().alive(row, col),
{
}

/// On a board without a live cell every neighbour count is zero.
pub proof fn lemma_no_live_neighbors(board: Board, row: int, col: int)
    requires
        !board.any_alive(),
    ensures
        board.neighbor_count(row, col) == 0,
{
    assert(!board.alive(row - 1, col - 1));
    assert(!board.alive(row - 1, col));
    assert(!board.alive(row - 1, col + 1));
    assert(!board.alive(row, col - 1));
    assert(!board.alive(row, col + 1));
    assert(!board.alive(row + 1, col - 1));
    assert(!board.alive(row + 1, col));
    assert(!board.alive(row + 1, col + 1));
}

/// A board without a live cell has none in the next generation either.
pub proof fn lemma_dead_stays_dead(board: Board)
    requires
        !board.any_alive(),
    ensures
        !board.next().any_alive(),
{
    assert forall|row: int, col: int| !#[trigger] board.next().alive(row, col) by {
        if board.in_bounds(row, col) {
            lemma_no_live_neighbors(board, row, col);
            assert(!board.alive(row, col));
        }
    }
}

/// A board whose only live cell is the one at `(row, col)` has no live
/// cell in the next generation.
pub proof fn lemma_lone_cell_dies(board: Board, row: int, col: int)
    requires
        forall|r: int, c: int| #[trigger] board.alive(r, c) ==> (r, c) == (row, col),
    ensures
        !board.next().any_alive(),
{
    assert forall|r: int, c: int| !#[trigger] board.next().alive(r, c) by {
        if board.in_bounds(r, c) {
            if (r, c) == (row, col) {
                assert(!board.alive(r - 1, c - 1));
                assert(!board.alive(r - 1, c));
                assert(!board.alive(r - 1, c + 1));
                assert(!board.alive(r, c - 1));
                assert(!board.alive(r, c + 1));
                assert(!board.alive(r + 1, c - 1));
                assert(!board.alive(r + 1, c));
                assert(!board.alive(r + 1, c + 1));
                assert(board.neighbor_count(r, c) == 0);
            } else {
                assert(!board.alive(r, c));
                assert(board.neighbor_count(r, c) <= 1) by {
                    lemma_at_most_one_live_neighbor(board, row, col, r, c);
                }
            }
        }
    }
}

/// Where at most the cell at `(row, col)` is alive, no cell has more than
/// one live neighbour.
proof fn lemma_at_most_one_live_neighbor(board: Board, row: int, col: int, r: int, c: int)
    requires
        forall|r: int, c: int| #[trigger] board.alive(r, c) ==> (r, c) == (row, col),
    ensures
        board.neighbor_count(r, c) <= 1,
{
    assert(board.alive(r - 1, c - 1) ==> (r - 1, c - 1) == (row, col));
    assert(board.alive(r - 1, c) ==> (r - 1, c) == (row, col));
    assert(board.alive(r - 1, c + 1) ==> (r - 1, c + 1) == (row, col));
    assert(board.alive(r, c - 1) ==> (r, c - 1) == (row, col));
    assert(board.alive(r, c + 1) ==> (r, c + 1) == (row, col));
    assert(board.alive(r + 1, c - 1) ==> (r + 1, c - 1) == (row, col));
    assert(board.alive(r + 1, c) ==> (r + 1, c) == (row, col));
    assert(board.alive(r + 1, c + 1) ==> (r + 1, c + 1) == (row, col));
}

/// After `n` steps the generation has grown by exactly `n`, whatever the
/// board holds, and the board keeps its dimensions.
pub proof fn lemma_generation_counts_steps(state: SimState, n: nat)
    ensures
        state.step_n(n).generation == state.generation + n,
        state.step_n(n).board.rows == state.board.rows,
        state.step_n(n).board.cols == state.board.cols,
    decreases n,
{
    if n > 0 {
        lemma_generation_counts_steps(state, (n - 1) as nat);
    }
}

/// Once no cell is alive, none is alive after any number of further steps.
pub proof fn lemma_extinction_is_final(state: SimState, n: nat)
    requires
        !state.board.any_alive(),
    ensures
        !state.step_n(n).board.any_alive(),
    decreases n,
{
    if n > 0 {
        lemma_extinction_is_final(state, (n - 1) as nat);
        lemma_dead_stays_dead(state.step_n((n - 1) as nat).board);
    }
}

/// A simulation whose only live cell is the one at `(row, col)` has no live
/// cell after one step, nor after any greater number of steps.
pub proof fn lemma_lone_cell_extinction(state: SimState, row: int, col: int, n: nat)
    requires
        forall|r: int, c: int| #[trigger] state.board.alive(r, c) ==> (r, c) == (row, col),
        n >= 1,
    ensures
        !state.step_n(n).board.any_alive(),
    decreases n,
{
    if n == 1 {
        assert(state.step_n(0) == state);
        assert(state.step_n(1) == state.step());
        lemma_lone_cell_dies(state.board, row, col);
    } else {
        lemma_lone_cell_extinction(state, row, col, (n - 1) as nat);
        lemma_dead_stays_dead(state.step_n((n - 1) as nat).board);
    }
}

/// A board that its own next generation equals stays as it is for any
/// number of steps, while the generation goes on counting.
pub proof fn lemma_still_life_forever(state: SimState, n: nat)
    requires
        state.board.next() == state.board,
    ensures
        state.step_n(n).board == state.board,
        state.step_n(n).generation == state.generation + n,
    decreases n,
{
    if n > 0 {
        lemma_still_life_forever(state, (n - 1) as nat);
    }
}

/// 1 if `(r, c)` is one of the four cells of the two-by-two square with
/// `(row, col)` at its top left, else 0.
spec fn in_square(row: int, col: int, r: int, c: int) -> nat {
    if row <= r <= row + 1 && col <= c <= col + 1 {
        1
    } else {
        0
    }
}

/// A cell of a two-by-two square has the other three as neighbours; a cell
/// outside it has at most two of the four.
proof fn lemma_square_neighbors(row: int, col: int, r: int, c: int)
    ensures
        ({
            let around = in_square(row, col, r - 1, c - 1) + in_square(row, col, r - 1, c)
                + in_square(row, col, r - 1, c + 1) + in_square(row, col, r, c - 1) + in_square(
                row,
                col,
                r,
                c + 1,
            ) + in_square(row, col, r + 1, c - 1) + in_square(row, col, r + 1, c) + in_square(
                row,
                col,
                r + 1,
                c + 1,
            );
            if in_square(row, col, r, c) == 1 {
                around == 3
            } else {
                around <= 2
            }
        }),
{
}

/// On a board whose live cells are exactly the four cells of the
/// two-by-two square with `(row, col)` at its top left, the rule leaves the
/// cell at `(r, c)` as it is.
proof fn lemma_block_keeps_cell(board: Board, row: int, col: int, r: int, c: int)
    requires
        board.in_bounds(r, c),
        forall|r: int, c: int| #[trigger]
            board.alive(r, c) <==> row <= r <= row + 1 && col <= c <= col + 1,
    ensures
        board.next_cell(r, c) == board.cells[(r, c)],
{
    assert(board.live_at(r, c) == in_square(row, col, r, c));
    assert(board.live_at(r - 1, c - 1) == in_square(row, col, r - 1, c - 1));
    assert(board.live_at(r - 1, c) == in_square(row, col, r - 1, c));
    assert(board.live_at(r - 1, c + 1) == in_square(row, col, r - 1, c + 1));
    assert(board.live_at(r, c - 1) == in_square(row, col, r, c - 1));
    assert(board.live_at(r, c + 1) == in_square(row, col, r, c + 1));
    assert(board.live_at(r + 1, c - 1) == in_square(row, col, r + 1, c - 1));
    assert(board.live_at(r + 1, c) == in_square(row, col, r + 1, c));
    assert(board.live_at(r + 1, c + 1) == in_square(row, col, r + 1, c + 1));
    lemma_square_neighbors(row, col, r, c);
}

/// A well-formed board on which the rule leaves every cell as it is, is
/// its own next generation.
pub proof fn lemma_unchanged_cells_make_a_still_life(board: Board)
    requires
        board.wf(),
        forall|r: int, c: int|
            board.in_bounds(r, c) ==> #[trigger] board.next_cell(r, c) == board.cells[(r, c)],
    ensures
        board.next() == board,
{
    assert forall|p: (int, int)| board.in_bounds(p.0, p.1) implies board.next().cells[p]
        == board.cells[p] by {
        assert(board.next_cell(p.0, p.1) == board.cells[(p.0, p.1)]);
    }
    assert(board.next().cells =~= board.cells);
}

/// The block is a still life: a board whose live cells are exactly the four
/// cells of the two-by-two square with `(row, col)` at its top left is its
/// own next generation, wherever on the board the square lies.
pub proof fn lemma_block_is_still(board: Board, row: int, col: int)
    requires
        board.wf(),
        board.in_bounds(row, col),
        board.in_bounds(row + 1, col + 1),
        forall|r: int, c: int| #[trigger]
            board.alive(r, c) <==> row <= r <= row + 1 && col <= c <= col + 1,
    ensures
        board.next() == board,
{
    assert forall|r: int, c: int| board.in_bounds(r, c) implies #[trigger] board.next_cell(r, c)
        == board.cells[(r, c)] by {
        lemma_block_keeps_cell(board, row, col, r, c);
    }
    lemma_unchanged_cells_make_a_still_life(board);
}

/// The blinker turns: a board whose live cells are exactly the three cells
/// of the horizontal bar centred on `(row, col)`, with a free row above and
/// below, has in the next generation exactly the three cells of the
/// vertical bar centred on `(row, col)` alive.
pub proof fn lemma_blinker_turns_upright(board: Board, row: int, col: int)
    requires
        board.wf(),
        board.in_bounds(row - 1, col - 1),
        board.in_bounds(row + 1, col + 1),
        forall|r: int, c: int| #[trigger]
            board.alive(r, c) <==> r == row && col - 1 <= c <= col + 1,
    ensures
        forall|r: int, c: int| #[trigger]
            board.next().alive(r, c) <==> c == col && row - 1 <= r <= row + 1,
{
    assert forall|r: int, c: int| #[trigger]
        board.next().alive(r, c) <==> c == col && row - 1 <= r <= row + 1 by {
        if board.in_bounds(r, c) {
            assert(board.alive(r, c) <==> board.cells[(r, c)] == Cell::Alive);
            assert(board.cells[(r, c)] == Cell::Alive || board.cells[(r, c)] == Cell::Dead);
            if c == col && (r == row - 1 || r == row + 1) {
                assert(board.neighbor_count(r, c) == 3);
            } else if r == row && c == col {
                assert(board.neighbor_count(r, c) == 2);
            } else if r == row && (c == col - 1 || c == col + 1) {
                assert(board.neighbor_count(r, c) == 1);
            } else {
                assert(board.neighbor_count(r, c) <= 2);
            }
        }
    }
}

/// The blinker turns back: a board whose live cells are exactly the three
/// cells of the vertical bar centred on `(row, col)`, with a free column to
/// the left and to the right, has in the next generation exactly the three
/// cells of the horizontal bar centred on `(row, col)` alive.
pub proof fn lemma_blinker_turns_flat(board: Board, row: int, col: int)
    requires
        board.wf(),
        board.in_bounds(row - 1, col - 1),
        board.in_bounds(row + 1, col + 1),
        forall|r: int, c: int| #[trigger]
            board.alive(r, c) <==> c == col && row - 1 <= r <= row + 1,
    ensures
        forall|r: int, c: int| #[trigger]
            board.next().alive(r, c) <==> r == row && col - 1 <= c <= col + 1,
{
    assert forall|r: int, c: int| #[trigger]
        board.next().alive(r, c) <==> r == row && col - 1 <= c <= col + 1 by {
        if board.in_bounds(r, c) {
            assert(board.alive(r, c) <==> board.cells[(r, c)] == Cell::Alive);
            assert(board.cells[(r, c)] == Cell::Alive || board.cells[(r, c)] == Cell::Dead);
            if r == row && (c == col - 1 || c == col + 1) {
                assert(board.neighbor_count(r, c) == 3);
            } else if r == row && c == col {
                assert(board.neighbor_count(r, c) == 2);
            } else if c == col && (r == row - 1 || r == row + 1) {
                assert(board.neighbor_count(r, c) == 1);
            } else {
                assert(board.neighbor_count(r, c) <= 2);
            }
        }
    }
}

/// Two well-formed boards of the same dimensions with the same live cells
/// are the same board.
pub proof fn lemma_same_live_cells(first: Board, second: Board)
    requires
        first.wf(),
        second.wf(),
        first.rows == second.rows,
        first.cols == second.cols,
        forall|r: int, c: int| #[trigger] first.alive(r, c) <==> second.alive(r, c),
    ensures
        first == second,
{
    assert forall|p: (int, int)| first.in_bounds(p.0, p.1) implies first.cells[p]
        == second.cells[p] by {
        assert(first.alive(p.0, p.1) <==> second.alive(p.0, p.1));
        assert(first.cells[p] == Cell::Alive || first.cells[p] == Cell::Dead);
        assert(second.cells[p] == Cell::Alive || second.cells[p] == Cell::Dead);
    }
    assert(first.cells =~= second.cells);
}

/// The blinker has period two: a board that holds the horizontal bar and
/// nothing else is, after two generations, the board it was.
pub proof fn lemma_blinker_has_period_two(board: Board, row: int, col: int)
    requires
        board.wf(),
        board.in_bounds(row - 1, col - 1),
        board.in_bounds(row + 1, col + 1),
        forall|r: int, c: int| #[trigger]
            board.alive(r, c) <==> r == row && col - 1 <= c <= col + 1,
    ensures
        board.next().next() == board,
{
    lemma_blinker_turns_upright(board, row, col);
    lemma_next_wf(board);
    lemma_blinker_turns_flat(board.next(), row, col);
    lemma_next_wf(board.next());
    lemma_same_live_cells(board.next().next(), board);
}

} // verus!
