use gomoku::session::{is_whitespace, parse_move, wants_first, TurnResult};
use gomoku::{Cell, Gomoku, BOARD_SIZE};

/// The two numbers of a line, as the standard library reads them.
fn reference(line: &str) -> Option<(usize, usize)> {
    let coords: Vec<usize> = line.split_whitespace().filter_map(|s| s.parse().ok()).collect();
    if coords.len() != 2 {
        return None;
    }
    Some((coords[0], coords[1]))
}

#[test]
fn white_space_is_what_the_standard_library_says() {
    for code in 0..=0x10ffffu32 {
        if let Some(c) = char::from_u32(code) {
            assert_eq!(is_whitespace(c), c.is_whitespace(), "U+{:04X}", code);
        }
    }
}

#[test]
fn two_numbers_name_a_move() {
    assert_eq!(parse_move("7 7"), Some((7, 7)));
    assert_eq!(parse_move("0 14\n"), Some((0, 14)));
    assert_eq!(parse_move("  3\t 4 \r\n"), Some((3, 4)));
    assert_eq!(parse_move("12 5"), Some((12, 5)));
    assert_eq!(parse_move("007 +8"), Some((7, 8)));
    assert_eq!(parse_move("7\u{3000}8"), Some((7, 8)));
    assert_eq!(parse_move("100 200"), Some((100, 200)));
}

#[test]
fn anything_but_two_numbers_names_no_move() {
    assert_eq!(parse_move(""), None);
    assert_eq!(parse_move("\n"), None);
    assert_eq!(parse_move("7"), None);
    assert_eq!(parse_move("7 8 9"), None);
    assert_eq!(parse_move("a b"), None);
    assert_eq!(parse_move("7,8"), None);
    assert_eq!(parse_move("-1 2"), None);
    assert_eq!(parse_move("+ 2"), None);
    assert_eq!(parse_move("1.5 2"), None);
    assert_eq!(parse_move("7 8x"), None);
    assert_eq!(parse_move("99999999999999999999999999 1"), None);
}

#[test]
fn words_that_are_no_numbers_are_passed_over() {
    assert_eq!(parse_move("7 x 8"), Some((7, 8)));
    assert_eq!(parse_move("row 7 col 8"), Some((7, 8)));
    assert_eq!(parse_move("-1 2 3"), Some((2, 3)));
}

#[test]
fn the_largest_number_is_read() {
    let line = format!("{} 0", usize::MAX);
    assert_eq!(parse_move(&line), Some((usize::MAX, 0)));
    let line = format!("{}0 0", usize::MAX);
    assert_eq!(parse_move(&line), None);
}

#[test]
fn lines_are_read_as_the_standard_library_reads_them() {
    let lines = [
        "7 7", "", " ", "1", "1 2", "1 2 3", "+1 +2", "++1 2", "1 -2", "x", "1 x", "x 1 2",
        "0x10 2", "1_0 2", "18446744073709551615 1", "18446744073709551616 1",
        "4294967296 4294967295", "\u{a0}5\u{2003}6\u{85}", "٣ 4 5", "1\u{0b}2", "3 4\u{feff}",
        "00000000000000000000000000000001 2", "+ 1 2", "1+ 2 3", "1 2\n",
    ];
    for line in lines.iter() {
        assert_eq!(parse_move(line), reference(line), "{:?}", line);
    }
}

#[test]
fn yes_is_a_single_y() {
    assert!(wants_first("y"));
    assert!(wants_first("Y"));
    assert!(wants_first("y\n"));
    assert!(wants_first("  Y \r\n"));
    assert!(!wants_first(""));
    assert!(!wants_first("\n"));
    assert!(!wants_first("n"));
    assert!(!wants_first("yes"));
    assert!(!wants_first("y y"));
    assert!(!wants_first("ny"));
    assert!(!wants_first("yn"));
}

#[test]
fn yes_is_what_trimming_and_comparing_says() {
    let answers = ["y", "Y", " y", "y ", "\ty\n", "yy", "y y", "", " ", "n", "N", "yes", "ý", "y\u{3000}"];
    for answer in answers.iter() {
        assert_eq!(wants_first(answer), answer.trim().eq_ignore_ascii_case("y"), "{:?}", answer);
    }
}

#[test]
fn a_turn_without_a_line_of_five_passes() {
    let mut game = Gomoku::new();
    game.make_move(7, 7).unwrap();
    assert_eq!(game.finish_turn(), TurnResult::Continue);
    assert_eq!(game.current_player(), Cell::White);
    assert_eq!(game.cell(7, 7), Some(Cell::Black));
    game.make_move(7, 8).unwrap();
    assert_eq!(game.finish_turn(), TurnResult::Continue);
    assert_eq!(game.current_player(), Cell::Black);
}

#[test]
fn a_line_of_five_ends_the_game() {
    let mut game = Gomoku::new();
    for col in 0..5 {
        game.make_move(2, col).unwrap();
    }
    assert_eq!(game.finish_turn(), TurnResult::Won(Cell::Black));
    assert_eq!(game.current_player(), Cell::Black);
}

#[test]
fn a_full_board_without_a_line_of_five_is_a_draw() {
    let mut game = Gomoku::new();
    for row in 0..BOARD_SIZE {
        for col in 0..BOARD_SIZE {
            let black = (row + 2 * col) % 4 < 2;
            if (game.current_player() == Cell::Black) != black {
                game.switch_player();
            }
            game.make_move(row, col).unwrap();
        }
    }
    let mover = game.current_player();
    assert_eq!(game.finish_turn(), TurnResult::Draw);
    assert_eq!(game.current_player(), mover);
}

#[test]
fn a_full_board_with_a_line_of_five_is_won() {
    let mut game = Gomoku::new();
    for row in 0..BOARD_SIZE {
        for col in 0..BOARD_SIZE {
            game.make_move(row, col).unwrap();
            game.switch_player();
        }
    }
    assert!(game.is_board_full());
    assert_eq!(game.finish_turn(), TurnResult::Won(Cell::Black));
}
