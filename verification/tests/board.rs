use game_of_life::{Board, BoardError, Cell};

fn board(width: u32, height: u32, seeds: &[(u32, u32)]) -> Board {
    let mut board = Board::new(width, height).unwrap();
    board.init_state(seeds.to_vec()).unwrap();
    board
}

fn alive(board: &Board) -> Vec<usize> {
    board
        .cells()
        .iter()
        .enumerate()
        .filter(|(_, cell)| cell.alive)
        .map(|(index, _)| index)
        .collect()
}

#[test]
fn new_board_is_dead_and_has_one_cell_per_position() {
    for (width, height) in [(1u32, 1u32), (3, 3), (4, 3), (1, 7), (30, 30)] {
        let board = Board::new(width, height).unwrap();
        assert_eq!(board.width(), width);
        assert_eq!(board.height(), height);
        assert_eq!(board.cells().len(), (width * height) as usize);
        assert!(board.cells().iter().all(|cell| !cell.alive));
    }
}

#[test]
fn new_refuses_zero_width() {
    assert_eq!(Board::new(0, 5).unwrap_err(), BoardError::InvalidDimension);
}

#[test]
fn new_refuses_zero_height() {
    assert_eq!(Board::new(5, 0).unwrap_err(), BoardError::InvalidDimension);
}

#[test]
fn new_refuses_zero_by_zero() {
    assert_eq!(Board::new(0, 0).unwrap_err(), BoardError::InvalidDimension);
}

#[test]
fn calculate_index_is_row_times_width_plus_column() {
    let board = Board::new(4, 3).unwrap();
    assert_eq!(board.calculate_index((0, 0)), Ok(0));
    assert_eq!(board.calculate_index((0, 3)), Ok(3));
    assert_eq!(board.calculate_index((1, 0)), Ok(4));
    assert_eq!(board.calculate_index((1, 2)), Ok(6));
    assert_eq!(board.calculate_index((2, 3)), Ok(11));
}

#[test]
fn calculate_index_gives_every_position_its_own_slot() {
    let board = Board::new(5, 4).unwrap();
    let mut seen = vec![false; 20];
    for row in 0..4 {
        for col in 0..5 {
            let index = board.calculate_index((row, col)).unwrap();
            assert!(!seen[index]);
            seen[index] = true;
        }
    }
    assert!(seen.iter().all(|&s| s));
}

#[test]
fn calculate_index_refuses_a_row_below_the_board() {
    let board = Board::new(4, 3).unwrap();
    assert_eq!(board.calculate_index((3, 0)), Err(BoardError::IndexOutOfBounds));
    assert_eq!(board.calculate_index((u32::MAX, 0)), Err(BoardError::IndexOutOfBounds));
}

#[test]
fn calculate_index_refuses_a_column_that_would_pass_for_the_next_row() {
    let board = Board::new(4, 3).unwrap();
    // 0 * 4 + 4 is a slot of the board, but column 4 is not a column of it.
    assert_eq!(board.calculate_index((0, 4)), Err(BoardError::IndexOutOfBounds));
    assert_eq!(board.calculate_index((1, 7)), Err(BoardError::IndexOutOfBounds));
    assert_eq!(board.calculate_index((0, u32::MAX)), Err(BoardError::IndexOutOfBounds));
}

#[test]
fn seeding_marks_exactly_the_named_cells() {
    let board = board(3, 3, &[(0, 2), (2, 2), (1, 1)]);
    assert_eq!(alive(&board), vec![2, 4, 8]);
    assert_eq!(board.render(), "  \u{1F340}\n \u{1F340} \n  \u{1F340}\n");
}

#[test]
fn seeding_twice_with_one_coordinate_counts_once() {
    let board = board(3, 2, &[(1, 0), (1, 0), (0, 1), (1, 0)]);
    assert_eq!(alive(&board), vec![1, 3]);
}

#[test]
fn seeding_keeps_cells_that_were_alive() {
    let mut board = board(3, 3, &[(0, 0)]);
    assert_eq!(board.init_state(vec![(2, 2)]), Ok(()));
    assert_eq!(alive(&board), vec![0, 8]);
}

#[test]
fn seeding_with_nothing_changes_nothing() {
    let mut board = board(2, 2, &[(1, 1)]);
    assert_eq!(board.init_state(Vec::new()), Ok(()));
    assert_eq!(alive(&board), vec![3]);
}

#[test]
fn seeding_every_cell_is_accepted() {
    let board = board(2, 2, &[(0, 0), (0, 1), (1, 0), (1, 1)]);
    assert_eq!(alive(&board), vec![0, 1, 2, 3]);
}

#[test]
fn too_many_seeds_are_refused_and_the_board_stays_dead() {
    let mut board = Board::new(2, 2).unwrap();
    let seeds = vec![(0, 0), (0, 1), (1, 0), (1, 1), (0, 0)];
    assert_eq!(board.init_state(seeds), Err(BoardError::TooManySeeds));
    assert!(board.cells().iter().all(|cell| !cell.alive));
    assert_eq!(board.cells().len(), 4);
}

#[test]
fn too_many_seeds_leave_a_seeded_board_as_it_was() {
    let mut board = board(2, 1, &[(0, 1)]);
    assert_eq!(board.init_state(vec![(0, 0), (0, 0), (0, 0)]), Err(BoardError::TooManySeeds));
    assert_eq!(alive(&board), vec![1]);
}

#[test]
fn too_many_seeds_come_before_a_coordinate_off_the_board() {
    let mut board = Board::new(1, 1).unwrap();
    assert_eq!(board.init_state(vec![(9, 9), (0, 0)]), Err(BoardError::TooManySeeds));
}

#[test]
fn a_seed_off_the_board_is_refused_and_nothing_is_marked() {
    let mut board = Board::new(3, 3).unwrap();
    assert_eq!(
        board.init_state(vec![(0, 0), (1, 1), (3, 0)]),
        Err(BoardError::IndexOutOfBounds)
    );
    assert!(board.cells().iter().all(|cell| !cell.alive));
}

#[test]
fn a_seed_in_a_column_off_the_board_marks_no_other_cell() {
    let mut board = Board::new(3, 3).unwrap();
    // 0 * 3 + 3 would be the slot of (1, 0).
    assert_eq!(board.init_state(vec![(0, 3)]), Err(BoardError::IndexOutOfBounds));
    assert!(board.cells().iter().all(|cell| !cell.alive));
}

#[test]
fn cells_are_listed_row_by_row() {
    let board = board(3, 2, &[(0, 1), (1, 2)]);
    let expected: Vec<Cell> = [false, true, false, false, false, true]
        .iter()
        .map(|&alive| Cell { alive })
        .collect();
    assert_eq!(board.cells(), &expected);
}

#[test]
fn error_messages() {
    assert_eq!(BoardError::InvalidDimension.message(), "Invalid dimension");
    assert_eq!(BoardError::TooManySeeds.message(), "Too many states");
    assert_eq!(BoardError::IndexOutOfBounds.message(), "Index out of bounds");
}
