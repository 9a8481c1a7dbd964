use gomoku::search::MAX_DEPTH;
use gomoku::{Cell, Gomoku, BOARD_SIZE};

/// A game with the given stones and Black to move.
fn position(black: &[(usize, usize)], white: &[(usize, usize)]) -> Gomoku {
    let mut game = Gomoku::new();
    for &(row, col) in black {
        game.make_move(row, col).unwrap();
    }
    game.switch_player();
    for &(row, col) in white {
        game.make_move(row, col).unwrap();
    }
    game.switch_player();
    game
}

/// The position after `player` has played at `(row, col)`.
fn after(game: &Gomoku, row: usize, col: usize, player: Cell) -> Gomoku {
    let mut next = game.clone();
    while next.current_player() != player {
        next.switch_player();
    }
    next.make_move(row, col).unwrap();
    next
}

/// Minimax without pruning: the value, and the first move that has it.
fn plain(game: &Gomoku, depth: u32, player: Cell, ai: Cell) -> (i32, Option<(usize, usize)>) {
    if depth == 0 || game.check_winner().is_some() || game.is_board_full() {
        return (game.evaluate(ai), None);
    }
    let mut best: Option<(i32, (usize, usize))> = None;
    for (row, col) in game.get_valid_moves() {
        let (value, _) = plain(&after(game, row, col, player), depth - 1, player.opponent(), ai);
        let better = match best {
            None => true,
            Some((b, _)) => if player == ai { value > b } else { value < b },
        };
        if better {
            best = Some((value, (row, col)));
        }
    }
    let (value, mv) = best.unwrap();
    (value, Some(mv))
}

/// A board with few empty points and no line of five: the colours come in
/// pairs along each row, shifted by half a pair from row to row.
fn crowded(empty: &[(usize, usize)]) -> Gomoku {
    let mut black = Vec::new();
    let mut white = Vec::new();
    for row in 0..BOARD_SIZE {
        for col in 0..BOARD_SIZE {
            if empty.contains(&(row, col)) {
                continue;
            }
            if (row + 2 * col) % 4 < 2 {
                black.push((row, col));
            } else {
                white.push((row, col));
            }
        }
    }
    position(&black, &white)
}

#[test]
fn depth_is_three() {
    assert_eq!(MAX_DEPTH, 3);
}

#[test]
fn at_depth_zero_the_search_evaluates() {
    let game = position(&[(3, 3), (4, 4), (5, 5)], &[]);
    assert_eq!(game.minimax(0, i32::MIN, i32::MAX, Cell::Black, Cell::Black), (300, None));
    assert_eq!(game.minimax(0, i32::MIN, i32::MAX, Cell::White, Cell::White), (-300, None));
    assert_eq!(game.minimax(0, -5, 5, Cell::White, Cell::Black), (300, None));
}

#[test]
fn a_won_game_is_a_leaf() {
    let game = position(&[(0, 0), (0, 1), (0, 2), (0, 3), (0, 4)], &[]);
    assert_eq!(game.minimax(3, i32::MIN, i32::MAX, Cell::White, Cell::White), (-500000, None));
}

#[test]
fn one_ply_takes_the_best_reply() {
    let game = position(&[(0, 0), (0, 1), (0, 2), (0, 3)], &[]);
    let (score, mv) = game.minimax(1, i32::MIN, i32::MAX, Cell::Black, Cell::Black);
    assert_eq!(mv, Some((0, 4)));
    assert_eq!(score, 500000);
}

#[test]
fn the_minimizer_takes_the_lowest_score() {
    let game = position(&[(0, 0), (0, 1), (0, 2), (0, 3)], &[]);
    let (score, mv) = game.minimax(1, i32::MIN, i32::MAX, Cell::White, Cell::Black);
    assert_eq!(mv, Some((0, 4)));
    assert_eq!(score, 0);
}

#[test]
fn the_first_of_equal_moves_is_kept() {
    let game = Gomoku::new();
    let (score, mv) = game.minimax(1, i32::MIN, i32::MAX, Cell::Black, Cell::Black);
    assert_eq!((score, mv), (0, Some((0, 0))));
}

#[test]
fn a_closed_window_stops_after_one_child() {
    let game = position(&[(0, 0), (0, 1), (0, 2), (0, 3)], &[]);
    let (score, mv) = game.minimax(1, 10, 10, Cell::Black, Cell::Black);
    assert_eq!(mv, Some((0, 4)));
    assert_eq!(score, 500000);
    let (score, mv) = game.minimax(1, 600000, 600000, Cell::Black, Cell::Black);
    assert_eq!(mv, Some((0, 4)));
    assert_eq!(score, 500000);
}

#[test]
fn pruning_agrees_with_plain_minimax() {
    let games = [
        position(&[(7, 7), (7, 8), (6, 7)], &[(8, 8), (8, 7)]),
        position(&[(0, 0), (0, 1), (0, 2), (0, 3)], &[(1, 1), (2, 2), (3, 3)]),
        position(&[(3, 3), (4, 4), (5, 5)], &[]),
    ];
    for game in games.iter() {
        for &(player, ai) in [
            (Cell::Black, Cell::Black),
            (Cell::White, Cell::White),
            (Cell::White, Cell::Black),
        ].iter() {
            for depth in 1..3 {
                assert_eq!(
                    game.minimax(depth, i32::MIN, i32::MAX, player, ai),
                    plain(game, depth, player, ai)
                );
            }
        }
    }
}

#[test]
fn pruning_agrees_with_plain_minimax_three_plies_deep() {
    let game = crowded(&[(0, 0), (3, 4), (7, 7), (9, 2), (12, 13), (14, 14), (5, 10)]);
    assert_eq!(game.check_winner(), None);
    assert_eq!(
        game.minimax(3, i32::MIN, i32::MAX, Cell::Black, Cell::Black),
        plain(&game, 3, Cell::Black, Cell::Black)
    );
    assert_eq!(
        game.minimax(3, i32::MIN, i32::MAX, Cell::White, Cell::White),
        plain(&game, 3, Cell::White, Cell::White)
    );
}

#[test]
fn a_score_inside_the_window_is_the_minimax_value() {
    let game = position(&[(7, 7), (7, 8), (6, 7)], &[(8, 8), (8, 7)]);
    let (value, mv) = plain(&game, 2, Cell::Black, Cell::Black);
    assert_eq!(
        game.minimax(2, value - 1, value + 1, Cell::Black, Cell::Black),
        (value, mv)
    );
    let (low, _) = game.minimax(2, value, value + 50, Cell::Black, Cell::Black);
    assert!(low <= value);
    let (high, _) = game.minimax(2, value - 50, value, Cell::Black, Cell::Black);
    assert!(high >= value);
}

#[test]
fn the_ai_completes_its_five() {
    let mut game = position(&[(0, 0)], &[(9, 0), (9, 1), (9, 2), (9, 3)]);
    game.switch_player();
    assert_eq!(game.current_player(), Cell::White);
    assert_eq!(game.ai_move(), (9, 4));
}

#[test]
fn the_ai_does_not_place_the_stone() {
    let mut game = position(&[(0, 0), (0, 1), (0, 2), (0, 3)], &[]);
    let mv = game.ai_move();
    assert_eq!(game.cell(mv.0, mv.1), Some(Cell::Empty));
    assert_eq!(game.current_player(), Cell::Black);
    assert_eq!(game.get_valid_moves().len(), 221);
}

#[test]
fn the_ai_move_is_the_move_of_the_search() {
    let mut game = crowded(&[(0, 0), (3, 4), (7, 7), (9, 2), (12, 13)]);
    let expected = plain(&game, MAX_DEPTH, Cell::Black, Cell::Black).1.unwrap();
    assert_eq!(game.ai_move(), expected);
    assert_eq!(game.cell(expected.0, expected.1), Some(Cell::Empty));
}

#[test]
fn the_ai_is_deterministic() {
    let mut game = crowded(&[(1, 1), (2, 9), (8, 8), (13, 0)]);
    let first = game.ai_move();
    assert_eq!(game.ai_move(), first);
    assert_eq!(game.clone().ai_move(), first);
}

#[test]
fn on_a_full_board_the_ai_names_the_centre() {
    let mut game = crowded(&[]);
    assert!(game.is_board_full());
    assert_eq!(game.check_winner(), None);
    assert_eq!(game.ai_move(), (7, 7));
}

#[test]
fn in_a_won_game_the_ai_names_the_centre() {
    let mut game = position(&[(0, 0), (0, 1), (0, 2), (0, 3), (0, 4)], &[]);
    assert_eq!(game.ai_move(), (7, 7));
}
