use gomoku::{Cell, Gomoku, MoveError, BOARD_SIZE, WIN_LENGTH};

/// A game with the given stones and Black to move.
fn position(black: &[(usize, usize)], white: &[(usize, usize)]) -> Gomoku {
    let mut game = Gomoku::new();
    for &(row, col) in black {
        game.make_move(row, col).unwrap();
    }
    game.switch_player();
    for &(row, col) in white {
        game.make_move(row, col).unwrap();
    }
    game.switch_player();
    game
}

fn cells(game: &Gomoku) -> Vec<Option<Cell>> {
    let mut all = Vec::new();
    for row in 0..BOARD_SIZE {
        for col in 0..BOARD_SIZE {
            all.push(game.cell(row, col));
        }
    }
    all
}

#[test]
fn constants_are_fifteen_and_five() {
    assert_eq!(BOARD_SIZE, 15);
    assert_eq!(WIN_LENGTH, 5);
}

#[test]
fn move_beyond_the_last_row_or_column_is_out_of_bounds() {
    let mut game = Gomoku::new();
    let before = cells(&game);
    assert_eq!(game.make_move(BOARD_SIZE, BOARD_SIZE), Err(MoveError::OutOfBounds));
    assert_eq!(game.make_move(BOARD_SIZE, 0), Err(MoveError::OutOfBounds));
    assert_eq!(game.make_move(0, BOARD_SIZE), Err(MoveError::OutOfBounds));
    assert_eq!(game.make_move(usize::MAX, 3), Err(MoveError::OutOfBounds));
    assert_eq!(game.make_move(3, usize::MAX), Err(MoveError::OutOfBounds));
    assert_eq!(cells(&game), before);
    assert_eq!(game.current_player(), Cell::Black);
}

#[test]
fn out_of_bounds_wins_over_occupied() {
    let mut game = Gomoku::new();
    game.make_move(0, 0).unwrap();
    assert_eq!(game.make_move(15, 0), Err(MoveError::OutOfBounds));
}

#[test]
fn second_stone_on_a_point_is_refused() {
    let mut game = Gomoku::new();
    assert_eq!(game.make_move(7, 7), Ok(()));
    let before = cells(&game);
    assert_eq!(game.make_move(7, 7), Err(MoveError::CellOccupied));
    assert_eq!(cells(&game), before);
    game.switch_player();
    assert_eq!(game.make_move(7, 7), Err(MoveError::CellOccupied));
    assert_eq!(cells(&game), before);
    assert_eq!(game.cell(7, 7), Some(Cell::Black));
}

#[test]
fn a_move_changes_one_point_and_keeps_the_turn() {
    let mut game = Gomoku::new();
    game.make_move(14, 14).unwrap();
    for row in 0..BOARD_SIZE {
        for col in 0..BOARD_SIZE {
            let expected = if (row, col) == (14, 14) { Cell::Black } else { Cell::Empty };
            assert_eq!(game.cell(row, col), Some(expected));
        }
    }
    assert_eq!(game.current_player(), Cell::Black);
}

#[test]
fn cell_off_the_board_is_none() {
    let game = Gomoku::new();
    assert_eq!(game.cell(15, 0), None);
    assert_eq!(game.cell(0, 15), None);
    assert_eq!(game.cell(14, 14), Some(Cell::Empty));
}

#[test]
fn switching_twice_gives_the_turn_back() {
    let mut game = Gomoku::new();
    assert_eq!(game.current_player(), Cell::Black);
    game.switch_player();
    assert_eq!(game.current_player(), Cell::White);
    game.switch_player();
    assert_eq!(game.current_player(), Cell::Black);
}

#[test]
fn opponent_of_each_cell() {
    assert_eq!(Cell::Black.opponent(), Cell::White);
    assert_eq!(Cell::White.opponent(), Cell::Black);
    assert_eq!(Cell::Empty.opponent(), Cell::Empty);
}

#[test]
fn error_messages() {
    assert_eq!(MoveError::OutOfBounds.message(), "Move out of bounds");
    assert_eq!(MoveError::CellOccupied.message(), "Cell already occupied");
}

#[test]
fn clone_is_independent() {
    let mut game = Gomoku::new();
    game.make_move(1, 2).unwrap();
    let copy = game.clone();
    game.make_move(3, 4).unwrap();
    assert_eq!(copy.cell(1, 2), Some(Cell::Black));
    assert_eq!(copy.cell(3, 4), Some(Cell::Empty));
    assert_eq!(copy.current_player(), Cell::Black);
}

#[test]
fn no_winner_on_an_empty_board() {
    assert_eq!(Gomoku::new().check_winner(), None);
}

#[test]
fn four_in_a_row_do_not_win() {
    let game = position(&[(4, 4), (4, 5), (4, 6), (4, 7)], &[]);
    assert_eq!(game.check_winner(), None);
}

#[test]
fn five_with_a_gap_do_not_win() {
    let game = position(&[(4, 4), (4, 5), (4, 6), (4, 8), (4, 9)], &[]);
    assert_eq!(game.check_winner(), None);
}

#[test]
fn five_broken_by_the_opponent_do_not_win() {
    let game = position(&[(4, 4), (4, 5), (4, 7), (4, 8)], &[(4, 6)]);
    assert_eq!(game.check_winner(), None);
}

#[test]
fn a_line_does_not_run_over_the_edge() {
    let game = position(&[(0, 13), (0, 14), (1, 0), (1, 1), (1, 2)], &[]);
    assert_eq!(game.check_winner(), None);
}

#[test]
fn five_win_wherever_the_line_stands() {
    let starts = [(0usize, 0usize), (5, 5), (10, 10), (3, 9), (10, 0), (0, 10)];
    for &(r, c) in starts.iter() {
        let horizontal: Vec<(usize, usize)> = (0..5).map(|k| (r, c + k)).collect();
        assert_eq!(position(&horizontal, &[]).check_winner(), Some(Cell::Black));
        let vertical: Vec<(usize, usize)> = (0..5).map(|k| (r + k, c)).collect();
        assert_eq!(position(&[], &vertical).check_winner(), Some(Cell::White));
        let diagonal: Vec<(usize, usize)> = (0..5).map(|k| (r + k, c + k)).collect();
        assert_eq!(position(&diagonal, &[]).check_winner(), Some(Cell::Black));
        let anti: Vec<(usize, usize)> = (0..5).map(|k| (r + k, c + 4 - k)).collect();
        assert_eq!(position(&[], &anti).check_winner(), Some(Cell::White));
    }
}

#[test]
fn five_win_in_whatever_order_they_were_placed() {
    let game = position(&[(6, 8), (6, 6), (6, 10), (6, 7), (6, 9)], &[]);
    assert_eq!(game.check_winner(), Some(Cell::Black));
}

#[test]
fn six_in_a_row_win_too() {
    let game = position(&[], &[(2, 3), (3, 3), (4, 3), (5, 3), (6, 3), (7, 3)]);
    assert_eq!(game.check_winner(), Some(Cell::White));
}

#[test]
fn line_at_the_last_row_and_column_wins() {
    let game = position(&[(14, 10), (14, 11), (14, 12), (14, 13), (14, 14)], &[]);
    assert_eq!(game.check_winner(), Some(Cell::Black));
    let game = position(&[(10, 14), (11, 14), (12, 14), (13, 14), (14, 14)], &[]);
    assert_eq!(game.check_winner(), Some(Cell::Black));
    let game = position(&[(10, 4), (11, 3), (12, 2), (13, 1), (14, 0)], &[]);
    assert_eq!(game.check_winner(), Some(Cell::Black));
}

#[test]
fn the_line_that_starts_first_names_the_winner() {
    let black = [(5, 0), (5, 1), (5, 2), (5, 3), (5, 4)];
    let white = [(2, 9), (2, 10), (2, 11), (2, 12), (2, 13)];
    assert_eq!(position(&black, &white).check_winner(), Some(Cell::White));
    let white = [(9, 9), (9, 10), (9, 11), (9, 12), (9, 13)];
    assert_eq!(position(&black, &white).check_winner(), Some(Cell::Black));
}

#[test]
fn new_board_is_not_full() {
    assert!(!Gomoku::new().is_board_full());
}

#[test]
fn one_empty_point_keeps_the_board_from_being_full() {
    let mut game = Gomoku::new();
    for row in 0..BOARD_SIZE {
        for col in 0..BOARD_SIZE {
            if (row, col) != (9, 3) {
                game.make_move(row, col).unwrap();
                game.switch_player();
            }
        }
    }
    assert!(!game.is_board_full());
    assert!(game.check_winner().is_some());
    assert_eq!(game.get_valid_moves(), vec![(9, 3)]);
    game.make_move(9, 3).unwrap();
    assert!(game.is_board_full());
    assert!(game.get_valid_moves().is_empty());
    assert!(game.check_winner().is_some());
}

#[test]
fn legal_moves_are_the_empty_points_row_by_row() {
    let game = Gomoku::new();
    let moves = game.get_valid_moves();
    assert_eq!(moves.len(), BOARD_SIZE * BOARD_SIZE);
    assert_eq!(moves[0], (0, 0));
    assert_eq!(moves[1], (0, 1));
    assert_eq!(moves[15], (1, 0));
    assert_eq!(moves[224], (14, 14));

    let game = position(&[(0, 0), (7, 7)], &[(0, 2), (14, 14)]);
    let moves = game.get_valid_moves();
    assert_eq!(moves.len(), 221);
    assert_eq!(moves[0], (0, 1));
    assert_eq!(moves[1], (0, 3));
    assert!(!moves.contains(&(7, 7)));
    assert!(!moves.contains(&(14, 14)));
    assert_eq!(moves[220], (14, 13));
    let mut sorted = moves.clone();
    sorted.sort();
    sorted.dedup();
    assert_eq!(sorted, moves);
}
