use game_of_life::{Cell, Grid, GridError};

fn live_cells(grid: &Grid) -> Vec<(u32, u32)> {
    let mut cells = Vec::new();
    for row in 0..grid.num_rows() {
        for col in 0..grid.num_cols() {
            if grid.get(row, col) == Ok(Cell::Alive) {
                cells.push((row, col));
            }
        }
    }
    cells
}

#[test]
fn new_grid_has_the_given_dimensions() {
    let grid = Grid::new(3, 7);
    assert_eq!(grid.num_rows(), 3);
    assert_eq!(grid.num_cols(), 7);
}

#[test]
fn new_grid_is_all_dead() {
    for (rows, cols) in [(1, 1), (1, 6), (6, 1), (4, 5), (9, 9)] {
        let grid = Grid::new(rows, cols);
        for row in 0..rows {
            for col in 0..cols {
                assert_eq!(grid.get(row, col), Ok(Cell::Dead));
                assert_eq!(grid.is_cell_alive(row, col), Ok(false));
            }
        }
        assert!(!grid.is_any_cell_alive());
    }
}

#[test]
fn empty_grids_are_valid() {
    for (rows, cols) in [(0, 0), (0, 5), (5, 0)] {
        let mut grid = Grid::new(rows, cols);
        assert_eq!(grid.num_rows(), rows);
        assert_eq!(grid.num_cols(), cols);
        assert!(!grid.is_any_cell_alive());
        assert_eq!(grid.get(0, 0), Err(GridError::OutOfBounds));
        assert_eq!(grid.set(0, 0, Cell::Alive), Err(GridError::OutOfBounds));
        assert_eq!(grid.set_cells(&[]), Ok(()));
        assert!(!grid.is_any_cell_alive());
    }
}

#[test]
fn get_after_set_returns_the_state() {
    let mut grid = Grid::new(4, 6);
    for row in 0..4 {
        for col in 0..6 {
            assert_eq!(grid.set(row, col, Cell::Alive), Ok(()));
            assert_eq!(grid.get(row, col), Ok(Cell::Alive));
            assert_eq!(live_cells(&grid), vec![(row, col)]);
            assert_eq!(grid.set(row, col, Cell::Dead), Ok(()));
            assert_eq!(grid.get(row, col), Ok(Cell::Dead));
            assert_eq!(live_cells(&grid), vec![]);
        }
    }
}

#[test]
fn set_leaves_the_other_cells_alone() {
    let mut grid = Grid::new(3, 3);
    assert_eq!(grid.set(0, 2, Cell::Alive), Ok(()));
    assert_eq!(grid.set(1, 0, Cell::Alive), Ok(()));
    assert_eq!(grid.set(2, 1, Cell::Alive), Ok(()));
    assert_eq!(live_cells(&grid), vec![(0, 2), (1, 0), (2, 1)]);
    assert_eq!(grid.set(1, 0, Cell::Dead), Ok(()));
    assert_eq!(live_cells(&grid), vec![(0, 2), (2, 1)]);
    assert_eq!(grid.set(0, 2, Cell::Alive), Ok(()));
    assert_eq!(live_cells(&grid), vec![(0, 2), (2, 1)]);
}

#[test]
fn get_outside_the_grid_is_an_error() {
    let grid = Grid::new(3, 5);
    assert_eq!(grid.get(3, 0), Err(GridError::OutOfBounds));
    assert_eq!(grid.get(0, 5), Err(GridError::OutOfBounds));
    assert_eq!(grid.get(1, 5), Err(GridError::OutOfBounds));
    assert_eq!(grid.get(3, 5), Err(GridError::OutOfBounds));
    assert_eq!(grid.get(u32::MAX, u32::MAX), Err(GridError::OutOfBounds));
    assert_eq!(grid.is_cell_alive(3, 0), Err(GridError::OutOfBounds));
    assert_eq!(grid.is_cell_alive(0, 5), Err(GridError::OutOfBounds));
    assert_eq!(grid.get_neighbor_count(3, 0), Err(GridError::OutOfBounds));
    assert_eq!(grid.get_neighbor_count(0, 5), Err(GridError::OutOfBounds));
    assert_eq!(grid.get_neighbor_count(u32::MAX, 0), Err(GridError::OutOfBounds));
}

#[test]
fn set_outside_the_grid_is_an_error_and_changes_nothing() {
    let mut grid = Grid::new(3, 5);
    assert_eq!(grid.set(1, 1, Cell::Alive), Ok(()));
    assert_eq!(grid.set(3, 0, Cell::Alive), Err(GridError::OutOfBounds));
    assert_eq!(grid.set(0, 5, Cell::Alive), Err(GridError::OutOfBounds));
    assert_eq!(grid.set(u32::MAX, 2, Cell::Alive), Err(GridError::OutOfBounds));
    assert_eq!(live_cells(&grid), vec![(1, 1)]);
}

#[test]
fn a_column_past_the_edge_is_not_the_next_row() {
    let mut grid = Grid::new(3, 5);
    assert_eq!(grid.set(1, 0, Cell::Alive), Ok(()));
    // (0, 5) would share its row-major index with (1, 0)
    assert_eq!(grid.get(0, 5), Err(GridError::OutOfBounds));
    assert_eq!(grid.set(0, 6, Cell::Alive), Err(GridError::OutOfBounds));
    assert_eq!(grid.set_cells(&[(0, 7)]), Err(GridError::OutOfBounds));
    assert_eq!(live_cells(&grid), vec![(1, 0)]);
}

#[test]
fn set_cells_marks_the_listed_cells() {
    let mut grid = Grid::new(5, 5);
    assert_eq!(grid.set_cells(&[(2, 1), (2, 2), (2, 3)]), Ok(()));
    assert_eq!(live_cells(&grid), vec![(2, 1), (2, 2), (2, 3)]);
    assert_eq!(grid.set_cells(&[(0, 0), (2, 2), (4, 4), (0, 0)]), Ok(()));
    assert_eq!(live_cells(&grid), vec![(0, 0), (2, 1), (2, 2), (2, 3), (4, 4)]);
    assert!(grid.is_any_cell_alive());
}

#[test]
fn set_cells_stops_at_the_first_coordinate_outside() {
    let mut grid = Grid::new(4, 4);
    assert_eq!(
        grid.set_cells(&[(0, 1), (3, 3), (4, 0), (1, 1), (9, 9)]),
        Err(GridError::OutOfBounds)
    );
    assert_eq!(live_cells(&grid), vec![(0, 1), (3, 3)]);
    assert_eq!(grid.set_cells(&[(0, 4), (2, 2)]), Err(GridError::OutOfBounds));
    assert_eq!(live_cells(&grid), vec![(0, 1), (3, 3)]);
}

#[test]
fn any_cell_alive_finds_a_single_live_cell() {
    for (row, col) in [(0, 0), (0, 3), (2, 0), (2, 3), (1, 2)] {
        let mut grid = Grid::new(3, 4);
        assert!(!grid.is_any_cell_alive());
        assert_eq!(grid.set(row, col, Cell::Alive), Ok(()));
        assert!(grid.is_any_cell_alive());
        assert_eq!(grid.set(row, col, Cell::Dead), Ok(()));
        assert!(!grid.is_any_cell_alive());
    }
}

#[test]
fn neighbor_count_with_all_eight_alive_is_eight() {
    let mut grid = Grid::new(3, 3);
    assert_eq!(
        grid.set_cells(&[(0, 0), (0, 1), (0, 2), (1, 0), (1, 2), (2, 0), (2, 1), (2, 2)]),
        Ok(())
    );
    assert_eq!(grid.get_neighbor_count(1, 1), Ok(8));
    // the cell itself is not counted
    assert_eq!(grid.set(1, 1, Cell::Alive), Ok(()));
    assert_eq!(grid.get_neighbor_count(1, 1), Ok(8));
}

#[test]
fn neighbor_count_on_a_full_grid() {
    let mut grid = Grid::new(3, 4);
    for row in 0..3 {
        for col in 0..4 {
            assert_eq!(grid.set(row, col, Cell::Alive), Ok(()));
        }
    }
    let expected = [[3, 5, 5, 3], [5, 8, 8, 5], [3, 5, 5, 3]];
    for row in 0..3u32 {
        for col in 0..4u32 {
            assert_eq!(
                grid.get_neighbor_count(row, col),
                Ok(expected[row as usize][col as usize])
            );
        }
    }
}

#[test]
fn neighbor_count_looks_at_each_of_the_eight() {
    let around = [(0, 0), (0, 1), (0, 2), (1, 0), (1, 2), (2, 0), (2, 1), (2, 2)];
    for &(row, col) in around.iter() {
        let mut grid = Grid::new(3, 3);
        assert_eq!(grid.set(row, col, Cell::Alive), Ok(()));
        assert_eq!(grid.get_neighbor_count(1, 1), Ok(1));
    }
    let mut grid = Grid::new(3, 3);
    let mut expected = 0;
    for &(row, col) in around.iter() {
        assert_eq!(grid.get_neighbor_count(1, 1), Ok(expected));
        assert_eq!(grid.set(row, col, Cell::Alive), Ok(()));
        expected += 1;
    }
    assert_eq!(grid.get_neighbor_count(1, 1), Ok(8));
}

#[test]
fn corner_cell_has_at_most_three_neighbors() {
    let mut grid = Grid::new(2, 2);
    assert_eq!(grid.set_cells(&[(0, 0), (0, 1), (1, 0), (1, 1)]), Ok(()));
    assert_eq!(grid.get_neighbor_count(0, 0), Ok(3));
    assert_eq!(grid.get_neighbor_count(0, 1), Ok(3));
    assert_eq!(grid.get_neighbor_count(1, 0), Ok(3));
    assert_eq!(grid.get_neighbor_count(1, 1), Ok(3));

    let mut wide = Grid::new(4, 6);
    for row in 0..4 {
        for col in 0..6 {
            assert_eq!(wide.set(row, col, Cell::Alive), Ok(()));
        }
    }
    assert_eq!(wide.get_neighbor_count(0, 0), Ok(3));
    assert_eq!(wide.get_neighbor_count(0, 5), Ok(3));
    assert_eq!(wide.get_neighbor_count(3, 0), Ok(3));
    assert_eq!(wide.get_neighbor_count(3, 5), Ok(3));
}

#[test]
fn single_row_does_not_wrap_around() {
    for cols in [3u32, 4, 7] {
        let mut grid = Grid::new(1, cols);
        assert_eq!(grid.set(0, cols - 1, Cell::Alive), Ok(()));
        assert_eq!(grid.get_neighbor_count(0, 0), Ok(0));
        assert_eq!(grid.set(0, 0, Cell::Alive), Ok(()));
        assert_eq!(grid.get_neighbor_count(0, cols - 1), Ok(0));
        assert_eq!(grid.set(0, 1, Cell::Alive), Ok(()));
        assert_eq!(grid.get_neighbor_count(0, 0), Ok(1));
    }
}

#[test]
fn row_ends_do_not_touch_the_next_row() {
    let mut grid = Grid::new(3, 4);
    // the last cell of a row and the first of the next are adjacent in
    // storage, not on the grid
    assert_eq!(grid.set(0, 3, Cell::Alive), Ok(()));
    assert_eq!(grid.get_neighbor_count(1, 0), Ok(0));
    assert_eq!(grid.get_neighbor_count(0, 0), Ok(0));
    assert_eq!(grid.set(0, 3, Cell::Dead), Ok(()));
    assert_eq!(grid.set(2, 0, Cell::Alive), Ok(()));
    assert_eq!(grid.get_neighbor_count(1, 3), Ok(0));
    assert_eq!(grid.get_neighbor_count(0, 0), Ok(0));
    assert_eq!(grid.get_neighbor_count(1, 1), Ok(1));
}

#[test]
fn single_cell_grid_has_no_neighbors() {
    let mut grid = Grid::new(1, 1);
    assert_eq!(grid.get_neighbor_count(0, 0), Ok(0));
    assert_eq!(grid.set(0, 0, Cell::Alive), Ok(()));
    assert_eq!(grid.get_neighbor_count(0, 0), Ok(0));
}

#[test]
fn render_draws_one_line_for_each_row() {
    let mut grid = Grid::new(2, 3);
    assert_eq!(grid.render(), "\u{25FB}\u{25FB}\u{25FB}\n\u{25FB}\u{25FB}\u{25FB}\n");
    assert_eq!(grid.set_cells(&[(0, 1), (1, 0), (1, 2)]), Ok(()));
    assert_eq!(grid.render(), "\u{25FB}\u{25FC}\u{25FB}\n\u{25FC}\u{25FB}\u{25FC}\n");
}

#[test]
fn render_of_empty_grids() {
    assert_eq!(Grid::new(0, 0).render(), "");
    assert_eq!(Grid::new(0, 4).render(), "");
    assert_eq!(Grid::new(3, 0).render(), "\n\n\n");
}

#[test]
fn cell_labels() {
    assert_eq!(Cell::Alive.label(), "ALIVE");
    assert_eq!(Cell::Dead.label(), "DEAD");
}
