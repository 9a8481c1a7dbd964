//! The board as text, for a console.

use vstd::prelude::*;
use vstd::string::StringExecFns;
use crate::board::{Cell, Grid, BOARD_SIZE};
use crate::game::Gomoku;

verus! {

/// The decimal digit `d` as a character.
pub open spec fn digit_char(d: int) -> char {
    if d == 0 {
        '0'
    } else if d == 1 {
        '1'
    } else if d == 2 {
        '2'
    } else if d == 3 {
        '3'
    } else if d == 4 {
        '4'
    } else if d == 5 {
        '5'
    } else if d == 6 {
        '6'
    } else if d == 7 {
        '7'
    } else if d == 8 {
        '8'
    } else {
        '9'
    }
}

/// The index `i` of a row or column, right-aligned in two characters and
/// followed by a space.
pub open spec fn label(i: int) -> Seq<char> {
    seq![
        if i >= 10 {
            digit_char(i / 10)
        } else {
            ' '
        },
        digit_char(i % 10),
        ' ',
    ]
}

/// The character that shows a cell: `.` for an empty point, `X` for Black,
/// `O` for White.
pub open spec fn glyph(cell: Cell) -> char {
    match cell {
        Cell::Empty => '.',
        Cell::Black => 'X',
        Cell::White => 'O',
    }
}

/// A cell as it is shown: its character and two spaces.
pub open spec fn cell_text(cell: Cell) -> Seq<char> {
    seq![glyph(cell), ' ', ' ']
}

/// The labels of the first `n` columns.
pub open spec fn labels(n: int) -> Seq<char>
    decreases n,
{
    if n <= 0 {
        Seq::empty()
    } else {
        labels(n - 1) + label(n - 1)
    }
}

/// The first `n` cells of row `r` as they are shown.
pub open spec fn cells_text(g: Grid, r: int, n: int) -> Seq<char>
    decreases n,
{
    if n <= 0 {
        Seq::empty()
    } else {
        cells_text(g, r, n - 1) + cell_text(g[r][n - 1])
    }
}

/// The line of row `r`: its label, its cells, a line feed.
pub open spec fn row_text(g: Grid, r: int) -> Seq<char> {
    label(r) + cells_text(g, r, BOARD_SIZE as int) + seq!['\n']
}

/// The lines of the first `n` rows.
pub open spec fn rows_text(g: Grid, n: int) -> Seq<char>
    decreases n,
{
    if n <= 0 {
        Seq::empty()
    } else {
        rows_text(g, n - 1) + row_text(g, n - 1)
    }
}

/// The whole picture: a line of column labels behind two spaces, a line for
/// each row, and an empty line.
pub open spec fn board_text(g: Grid) -> Seq<char> {
    seq![' ', ' '] + labels(BOARD_SIZE as int) + seq!['\n'] + rows_text(g, BOARD_SIZE as int)
        + seq!['\n']
}

/// The decimal digit `d` as a string of one character.
fn digit_str(d: usize) -> (text: &'static str)
    requires
        d < 10,
    ensures
        text@ == seq![digit_char(d as int)],
{
    proof {
        reveal_strlit("0");
        reveal_strlit("1");
        reveal_strlit("2");
        reveal_strlit("3");
        reveal_strlit("4");
        reveal_strlit("5");
        reveal_strlit("6");
        reveal_strlit("7");
        reveal_strlit("8");
        reveal_strlit("9");
    }
    let text = if d == 0 {
        "0"
    } else if d == 1 {
        "1"
    } else if d == 2 {
        "2"
    } else if d == 3 {
        "3"
    } else if d == 4 {
        "4"
    } else if d == 5 {
        "5"
    } else if d == 6 {
        "6"
    } else if d == 7 {
        "7"
    } else if d == 8 {
        "8"
    } else {
        "9"
    };
    assert(text@ =~= seq![digit_char(d as int)]);
    text
}

/// Appends the label of the index `i` to `out`.
fn push_label(out: &mut String, i: usize)
    requires
        i < 100,
    ensures
        final(out)@ == old(out)@ + label(i as int),
{
    proof {
        reveal_strlit(" ");
    }
    if i >= 10 {
        out.append(digit_str(i / 10));
    } else {
        out.append(" ");
    }
    out.append(digit_str(i % 10));
    out.append(" ");
    assert(out@ =~= old(out)@ + label(i as int));
}

/// How a cell is shown: its character and two spaces.
fn cell_str(cell: Cell) -> (text: &'static str)
    ensures
        text@ == cell_text(cell),
{
    proof {
        reveal_strlit(".  ");
        reveal_strlit("X  ");
        reveal_strlit("O  ");
    }
    let text = match cell {
        Cell::Empty => ".  ",
        Cell::Black => "X  ",
        Cell::White => "O  ",
    };
    assert(text@ =~= cell_text(cell));
    text
}

impl Gomoku {
    /// The board as text: a line of column indices, then one line for each
    /// row, led by its index, with `.` for an empty point, `X` for Black and
    /// `O` for White, and an empty line at the end.
    pub fn board_text(&self) -> (text: String)
        ensures
            text@ == board_text(self@.board),
    {
        proof {
            self.view_unfolded();
            reveal_strlit("  ");
            reveal_strlit("\n");
        }
        let ghost g = self@.board;
        let mut text = String::new();
        text.append("  ");
        let ghost head = text@;
        assert(head =~= seq![' ', ' ']);
        for i in 0..BOARD_SIZE
            invariant
                text@ == head + labels(i as int),
        {
            let ghost before = text@;
            push_label(&mut text, i);
            assert(text@ =~= head + labels(i + 1)) by {
                assert(before + label(i as int) =~= head + (labels(i as int) + label(i as int)));
            }
        }
        text.append("\n");
        let ghost top = text@;
        assert(top =~= seq![' ', ' '] + labels(BOARD_SIZE as int) + seq!['\n']);
        for row in 0..BOARD_SIZE
            invariant
                g == self@.board,
                text@ == top + rows_text(g, row as int),
        {
            let ghost above = text@;
            push_label(&mut text, row);
            let ghost start = text@;
            for col in 0..BOARD_SIZE
                invariant
                    row < BOARD_SIZE,
                    g == self@.board,
                    text@ == start + cells_text(g, row as int, col as int),
            {
                let ghost before = text@;
                let cell = match self.cell(row, col) {
                    Some(c) => c,
                    None => Cell::Empty,
                };
                text.append(cell_str(cell));
                assert(text@ =~= start + cells_text(g, row as int, col + 1)) by {
                    assert(before + cell_text(cell) =~= start + (cells_text(
                        g,
                        row as int,
                        col as int,
                    ) + cell_text(cell)));
                }
            }
            text.append("\n");
            assert(text@ =~= top + rows_text(g, row + 1)) by {
                reveal_strlit("\n");
                assert(text@ =~= above + row_text(g, row as int));
                assert(above + row_text(g, row as int) =~= top + (rows_text(g, row as int)
                    + row_text(g, row as int)));
            }
        }
        text.append("\n");
        assert(text@ =~= board_text(g));
        text
    }
}

} // verus!
