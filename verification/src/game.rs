//! The game: one board and the side to move.

use vstd::prelude::*;
use crate::board::{
    at, empty_grid, grid_of, grid_wf, in_bounds, opponent, place, with_stone, Cell, Grid,
    MoveError, BOARD_SIZE,
};

verus! {

/// A game in progress.
pub struct Gomoku {
    pub(crate) board: [[Cell; BOARD_SIZE]; BOARD_SIZE],
    pub(crate) current_player: Cell,
}

/// What a game is, mathematically: the grid and the side to move.
pub struct GameView {
    pub board: Grid,
    pub current_player: Cell,
}

impl View for Gomoku {
    type V = GameView;

    closed spec fn view(&self) -> GameView {
        GameView {
            board: grid_of(self.board),
            current_player: self.current_player,
        }
    }
}

impl Clone for Gomoku {
    fn clone(&self) -> (copy: Self)
        ensures
            copy@ == self@,
    {
        proof {
            use_type_invariant(self);
        }
        Gomoku { board: self.board, current_player: self.current_player }
    }
}

impl Gomoku {
    #[verifier::type_invariant]
    spec fn side_to_move_is_a_colour(self) -> bool {
        self.current_player != Cell::Empty
    }

    /// The view is the array read as a grid, beside the side to move; the grid
    /// is always well formed.
    pub(crate) proof fn view_unfolded(&self)
        ensures
            self@.board == grid_of(self.board),
            self@.current_player == self.current_player,
            grid_wf(self@.board),
    {
    }

    /// Every game has a well-formed grid.
    pub proof fn lemma_grid_wf(&self)
        ensures
            grid_wf(self@.board),
    {
    }

    /// A new game: an empty board, Black to move.
    pub fn new() -> (game: Self)
        ensures
            game@.board == empty_grid(),
            game@.current_player == Cell::Black,
    {
        let game = Gomoku {
            board: [[Cell::Empty; BOARD_SIZE]; BOARD_SIZE],
            current_player: Cell::Black,
        };
        assert(game@.board =~~= empty_grid());
        game
    }

    /// Places a stone of the side to move at `(row, col)`. Off the board the
    /// move is refused as `OutOfBounds`, on a stone as `CellOccupied`, and the
    /// game is left as it was. The turn does not pass: that is `switch_player`.
    pub fn make_move(&mut self, row: usize, col: usize) -> (res: Result<(), MoveError>)
        ensures
            final(self)@.current_player == old(self)@.current_player,
            match place(old(self)@.board, old(self)@.current_player, row as int, col as int) {
                Ok(next) => res is Ok && final(self)@.board == next,
                Err(e) => res == Err::<(), MoveError>(e) && final(self)@.board == old(self)@.board,
            },
    {
        proof {
            use_type_invariant(&*self);
        }
        if row >= BOARD_SIZE || col >= BOARD_SIZE {
            return Err(MoveError::OutOfBounds);
        }
        if self.board[row][col] != Cell::Empty {
            return Err(MoveError::CellOccupied);
        }
        self.board[row][col] = self.current_player;
        assert(self@.board =~~= with_stone(
            old(self)@.board,
            row as int,
            col as int,
            old(self)@.current_player,
        ));
        Ok(())
    }

    /// Passes the turn to the other colour.
    pub fn switch_player(&mut self)
        ensures
            final(self)@.board == old(self)@.board,
            final(self)@.current_player == opponent(old(self)@.current_player),
            final(self)@.current_player != Cell::Empty,
    {
        proof {
            use_type_invariant(&*self);
        }
        self.current_player = match self.current_player {
            Cell::Black => Cell::White,
            Cell::White => Cell::Black,
            _ => Cell::Black,
        };
    }

    /// The side to move: Black or White, never `Empty`.
    pub fn current_player(&self) -> (side: Cell)
        ensures
            side == self@.current_player,
            side != Cell::Empty,
    {
        proof {
            use_type_invariant(self);
        }
        self.current_player
    }

    /// The cell at `(row, col)`, or `None` off the board.
    pub fn cell(&self, row: usize, col: usize) -> (cell: Option<Cell>)
        ensures
            cell == at(self@.board, row as int, col as int),
    {
        if row < BOARD_SIZE && col < BOARD_SIZE {
            Some(self.board[row][col])
        } else {
            None
        }
    }

    /// The position after `player` has played at the empty point `(row, col)`.
    /// The side to move is carried over: the search passes it separately.
    pub(crate) fn with_move(&self, row: usize, col: usize, player: Cell) -> (next: Gomoku)
        requires
            in_bounds(row as int, col as int),
        ensures
            next@.board == with_stone(self@.board, row as int, col as int, player),
            next@.current_player == self@.current_player,
    {
        let mut next = self.clone();
        proof {
            use_type_invariant(&next);
        }
        next.board[row][col] = player;
        proof {
            assert(next@.board =~~= with_stone(self@.board, row as int, col as int, player));
        }
        next
    }
}

} // verus!
