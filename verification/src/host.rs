//! The game as a host sees it that cannot name a `Cell`: cells, sides and
//! the winner are small integers, the board one flat array.

use vstd::prelude::*;
use crate::board::{empty_grid, in_bounds, opponent, place, Cell, Grid, BOARD_SIZE};
use crate::game::{GameView, Gomoku};
use crate::rules::{is_full, winner};
use crate::search::{is_leaf, recommended_move, MAX_DEPTH};

verus! {

/// The number under which a host knows a cell: 0 for an empty point, 1 for
/// Black, 2 for White.
pub open spec fn cell_code(cell: Cell) -> u8 {
    match cell {
        Cell::Empty => 0,
        Cell::Black => 1,
        Cell::White => 2,
    }
}

/// The number under which a host knows the winner: that of the winner's
/// colour, or 0 where nobody has won.
pub open spec fn winner_code(w: Option<Cell>) -> u8 {
    match w {
        Some(side) => cell_code(side),
        None => 0,
    }
}

/// The board as one row-major sequence of cell codes.
pub open spec fn flat_codes(g: Grid) -> Seq<u8> {
    Seq::new(
        (BOARD_SIZE * BOARD_SIZE) as nat,
        |i: int| cell_code(g[i / (BOARD_SIZE as int)][i % (BOARD_SIZE as int)]),
    )
}

/// The side of the board, for a host that allocates the flat array.
pub fn board_size() -> (n: usize)
    ensures
        n == BOARD_SIZE,
{
    BOARD_SIZE
}

/// The code of a cell.
pub fn code_of(cell: Cell) -> (code: u8)
    ensures
        code == cell_code(cell),
{
    match cell {
        Cell::Empty => 0,
        Cell::Black => 1,
        Cell::White => 2,
    }
}

/// A game behind an interface of integers and flat arrays.
pub struct WasmGomoku {
    inner: Gomoku,
}

impl View for WasmGomoku {
    type V = GameView;

    closed spec fn view(&self) -> GameView {
        self.inner@
    }
}

impl WasmGomoku {
    /// A new game: an empty board, Black to move.
    pub fn new() -> (game: WasmGomoku)
        ensures
            game@.board == empty_grid(),
            game@.current_player == Cell::Black,
    {
        WasmGomoku { inner: Gomoku::new() }
    }

    /// The board as one array, row after row, each cell by its code.
    pub fn board(&self) -> (cells: Vec<u8>)
        ensures
            cells@ == flat_codes(self@.board),
    {
        let mut cells: Vec<u8> = Vec::new();
        for row in 0..BOARD_SIZE
            invariant
                cells@.len() == row * BOARD_SIZE,
                forall|i: int|
                    0 <= i < cells@.len() ==> cells@[i] == #[trigger] flat_codes(self@.board)[i],
        {
            for col in 0..BOARD_SIZE
                invariant
                    row < BOARD_SIZE,
                    cells@.len() == row * BOARD_SIZE + col,
                    forall|i: int|
                        0 <= i < cells@.len() ==> cells@[i] == #[trigger] flat_codes(
                            self@.board,
                        )[i],
            {
                let cell = self.inner.cell(row, col);
                let code = match cell {
                    Some(c) => code_of(c),
                    None => 0,
                };
                cells.push(code);
            }
        }
        assert(cells@ =~= flat_codes(self@.board));
        cells
    }

    /// The code of the side to move: 1 for Black, 2 for White.
    pub fn current_player(&self) -> (code: u8)
        ensures
            code == cell_code(self@.current_player),
            code == 1 || code == 2,
    {
        match self.inner.current_player() {
            Cell::Black => 1,
            Cell::White => 2,
            _ => 0,
        }
    }

    /// Places a stone of the side to move at `(row, col)` and says whether
    /// it could be placed; a refused move leaves the game as it was.
    pub fn make_move(&mut self, row: usize, col: usize) -> (placed: bool)
        ensures
            final(self)@.current_player == old(self)@.current_player,
            match place(old(self)@.board, old(self)@.current_player, row as int, col as int) {
                Ok(next) => placed && final(self)@.board == next,
                Err(_) => !placed && final(self)@.board == old(self)@.board,
            },
    {
        self.inner.make_move(row, col).is_ok()
    }

    /// The move that the search recommends to the side to move, as the array
    /// `[row, col]`. The stone is not placed.
    pub fn ai_move(&mut self) -> (mv: [usize; 2])
        ensures
            final(self)@ == old(self)@,
            (mv[0] as int, mv[1] as int) == recommended_move(
                old(self)@.board,
                old(self)@.current_player,
            ),
            in_bounds(mv[0] as int, mv[1] as int),
            !is_leaf(old(self)@.board, MAX_DEPTH as nat) ==> old(self)@.board[mv[0] as int][mv[1] as int]
                == Cell::Empty,
    {
        let (r, c) = self.inner.ai_move();
        [r, c]
    }

    /// The code of the winner, or 0 where no line of five stands.
    pub fn check_winner(&self) -> (code: u8)
        ensures
            code == winner_code(winner(self@.board)),
    {
        match self.inner.check_winner() {
            Some(Cell::Black) => 1,
            Some(Cell::White) => 2,
            _ => 0,
        }
    }

    /// Whether every point of the board holds a stone.
    pub fn is_board_full(&self) -> (full: bool)
        ensures
            full == is_full(self@.board),
    {
        self.inner.is_board_full()
    }

    /// Passes the turn to the other colour.
    pub fn switch_player(&mut self)
        ensures
            final(self)@.board == old(self)@.board,
            final(self)@.current_player == opponent(old(self)@.current_player),
    {
        self.inner.switch_player();
    }
}

} // verus!
