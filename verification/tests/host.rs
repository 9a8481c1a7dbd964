use gomoku::host::code_of;
use gomoku::{board_size, Cell, WasmGomoku};

#[test]
fn the_host_learns_the_size_of_the_board() {
    assert_eq!(board_size(), 15);
}

#[test]
fn codes_of_the_cells() {
    assert_eq!(code_of(Cell::Empty), 0);
    assert_eq!(code_of(Cell::Black), 1);
    assert_eq!(code_of(Cell::White), 2);
}

#[test]
fn a_new_game_is_all_zeros_and_black_moves() {
    let game = WasmGomoku::new();
    assert_eq!(game.board(), vec![0u8; 225]);
    assert_eq!(game.current_player(), 1);
    assert_eq!(game.check_winner(), 0);
    assert!(!game.is_board_full());
}

#[test]
fn the_board_is_flat_and_row_major() {
    let mut game = WasmGomoku::new();
    assert!(game.make_move(0, 1));
    game.switch_player();
    assert_eq!(game.current_player(), 2);
    assert!(game.make_move(2, 3));
    assert!(game.make_move(14, 14));
    let cells = game.board();
    assert_eq!(cells.len(), 225);
    for (i, &code) in cells.iter().enumerate() {
        let expected = if i == 1 {
            1
        } else if i == 2 * 15 + 3 || i == 224 {
            2
        } else {
            0
        };
        assert_eq!(code, expected);
    }
}

#[test]
fn a_refused_move_is_false_and_changes_nothing() {
    let mut game = WasmGomoku::new();
    assert!(game.make_move(4, 4));
    let before = game.board();
    assert!(!game.make_move(4, 4));
    assert!(!game.make_move(15, 0));
    assert!(!game.make_move(0, 15));
    assert_eq!(game.board(), before);
    assert_eq!(game.current_player(), 1);
}

#[test]
fn the_winner_is_a_code() {
    let mut game = WasmGomoku::new();
    for col in 0..5 {
        assert_eq!(game.check_winner(), 0);
        assert!(game.make_move(3, col));
    }
    assert_eq!(game.check_winner(), 1);

    let mut game = WasmGomoku::new();
    game.switch_player();
    for row in 0..5 {
        assert!(game.make_move(row, 9));
    }
    assert_eq!(game.check_winner(), 2);
}

#[test]
fn the_move_of_the_ai_is_row_then_column() {
    let mut game = WasmGomoku::new();
    for col in 0..4 {
        assert!(game.make_move(0, col));
    }
    let before = game.board();
    assert_eq!(game.ai_move(), [0, 4]);
    assert_eq!(game.board(), before);
}

#[test]
fn a_full_board_is_reported() {
    let mut game = WasmGomoku::new();
    for row in 0..15 {
        for col in 0..15 {
            assert!(!game.is_board_full());
            assert!(game.make_move(row, col));
            game.switch_player();
        }
    }
    assert!(game.is_board_full());
    assert!(game.board().iter().all(|&code| code == 1 || code == 2));
}
