use gomoku::{Cell, Gomoku, BOARD_SIZE};

/// The picture of the board, written with the formatter.
fn reference(game: &Gomoku) -> String {
    let mut out = String::new();
    out.push_str("  ");
    for i in 0..BOARD_SIZE {
        out.push_str(&format!("{:2} ", i));
    }
    out.push('\n');
    for row in 0..BOARD_SIZE {
        out.push_str(&format!("{:2} ", row));
        for col in 0..BOARD_SIZE {
            out.push_str(match game.cell(row, col).unwrap() {
                Cell::Empty => ".  ",
                Cell::Black => "X  ",
                Cell::White => "O  ",
            });
        }
        out.push('\n');
    }
    out.push('\n');
    out
}

#[test]
fn the_empty_board_as_text() {
    let text = Gomoku::new().board_text();
    let lines: Vec<&str> = text.split('\n').collect();
    assert_eq!(lines.len(), 18);
    assert_eq!(lines[0], "   0  1  2  3  4  5  6  7  8  9 10 11 12 13 14 ");
    assert_eq!(lines[1], " 0 .  .  .  .  .  .  .  .  .  .  .  .  .  .  .  ");
    assert_eq!(lines[10], " 9 .  .  .  .  .  .  .  .  .  .  .  .  .  .  .  ");
    assert_eq!(lines[11], "10 .  .  .  .  .  .  .  .  .  .  .  .  .  .  .  ");
    assert_eq!(lines[15], "14 .  .  .  .  .  .  .  .  .  .  .  .  .  .  .  ");
    assert_eq!(lines[16], "");
    assert_eq!(lines[17], "");
    assert_eq!(text, reference(&Gomoku::new()));
}

#[test]
fn stones_as_text() {
    let mut game = Gomoku::new();
    game.make_move(0, 0).unwrap();
    game.make_move(13, 14).unwrap();
    game.switch_player();
    game.make_move(0, 1).unwrap();
    game.make_move(7, 7).unwrap();
    let text = game.board_text();
    let lines: Vec<&str> = text.split('\n').collect();
    assert_eq!(lines[1], " 0 X  O  .  .  .  .  .  .  .  .  .  .  .  .  .  ");
    assert_eq!(lines[8], " 7 .  .  .  .  .  .  .  O  .  .  .  .  .  .  .  ");
    assert_eq!(lines[14], "13 .  .  .  .  .  .  .  .  .  .  .  .  .  .  X  ");
    assert_eq!(text, reference(&game));
}
