//! Cells, coordinates and the mathematical model of a board.

use vstd::prelude::*;

verus! {

/// Number of rows, and of columns, of the board.
pub const BOARD_SIZE: usize = 15;

/// Number of consecutive stones of one colour that wins the game.
pub const WIN_LENGTH: usize = 5;

/// What one point of the board holds.
#[derive(Clone, Copy, PartialEq, Eq, Debug, Structural)]
pub enum Cell {
    Empty,
    Black,
    White,
}

/// Why a stone could not be placed.
#[derive(Clone, Copy, PartialEq, Eq, Debug, Structural)]
pub enum MoveError {
    /// The row or the column lies outside the board.
    OutOfBounds,
    /// The target point already holds a stone.
    CellOccupied,
}

/// A board as a mathematical value: rows of cells.
pub type Grid = Seq<Seq<Cell>>;

/// `(r, c)` names a point of the board.
pub open spec fn in_bounds(r: int, c: int) -> bool {
    0 <= r < BOARD_SIZE && 0 <= c < BOARD_SIZE
}

/// The grid has `BOARD_SIZE` rows of `BOARD_SIZE` cells each.
pub open spec fn grid_wf(g: Grid) -> bool {
    &&& g.len() == BOARD_SIZE
    &&& forall|r: int| 0 <= r < BOARD_SIZE ==> (#[trigger] g[r]).len() == BOARD_SIZE
}

/// What an array of rows stands for.
pub open spec fn grid_of(cells: [[Cell; BOARD_SIZE]; BOARD_SIZE]) -> Grid {
    Seq::new(BOARD_SIZE as nat, |r: int| cells[r]@)
}

/// The cell at `(r, c)`, or `None` off the board.
pub open spec fn at(g: Grid, r: int, c: int) -> Option<Cell> {
    if in_bounds(r, c) {
        Some(g[r][c])
    } else {
        None
    }
}

/// The board before the first move.
pub open spec fn empty_grid() -> Grid {
    Seq::new(BOARD_SIZE as nat, |r: int| Seq::new(BOARD_SIZE as nat, |c: int| Cell::Empty))
}

/// The grid with the point `(r, c)` set to `s` and every other point unchanged.
pub open spec fn with_stone(g: Grid, r: int, c: int, s: Cell) -> Grid {
    g.update(r, g[r].update(c, s))
}

/// What placing a stone of `side` at `(r, c)` gives: the new grid, or the
/// reason why the stone cannot be placed.
pub open spec fn place(g: Grid, side: Cell, r: int, c: int) -> Result<Grid, MoveError> {
    if !in_bounds(r, c) {
        Err(MoveError::OutOfBounds)
    } else if g[r][c] != Cell::Empty {
        Err(MoveError::CellOccupied)
    } else {
        Ok(with_stone(g, r, c, side))
    }
}

/// The other colour; `Empty` has no opponent and maps to itself.
pub open spec fn opponent(s: Cell) -> Cell {
    match s {
        Cell::Black => Cell::White,
        Cell::White => Cell::Black,
        Cell::Empty => Cell::Empty,
    }
}

impl MoveError {
    /// A short description of the error.
    pub fn message(&self) -> (text: &'static str)
        ensures
            text@ == (match *self {
                MoveError::OutOfBounds => "Move out of bounds"@,
                MoveError::CellOccupied => "Cell already occupied"@,
            }),
    {
        match self {
            MoveError::OutOfBounds => "Move out of bounds",
            MoveError::CellOccupied => "Cell already occupied",
        }
    }
}

/// Passing the turn twice gives it back.
pub proof fn lemma_opponent_twice(side: Cell)
    ensures
        opponent(opponent(side)) == side,
        side != Cell::Empty ==> opponent(side) != side && opponent(side) != Cell::Empty,
{
}

/// A stone that was placed changes its own point, from empty to its colour,
/// and nothing else: the grid keeps its shape and every other point its cell.
pub proof fn lemma_place_changes_one_point(g: Grid, side: Cell, r: int, c: int)
    requires
        grid_wf(g),
        place(g, side, r, c) is Ok,
    ensures
        g[r][c] == Cell::Empty,
        grid_wf(place(g, side, r, c)->Ok_0),
        place(g, side, r, c)->Ok_0[r][c] == side,
        forall|r2: int, c2: int|
            in_bounds(r2, c2) && (r2 != r || c2 != c) ==> #[trigger] at(
                place(g, side, r, c)->Ok_0,
                r2,
                c2,
            ) == at(g, r2, c2),
{
}

/// A point takes one stone only: after a stone was placed at `(r, c)`, a
/// second stone, of either colour, is refused there as `CellOccupied`.
pub proof fn lemma_place_twice(g: Grid, first: Cell, second: Cell, r: int, c: int)
    requires
        grid_wf(g),
        first != Cell::Empty,
        place(g, first, r, c) is Ok,
    ensures
        place(place(g, first, r, c)->Ok_0, second, r, c) == Err::<Grid, MoveError>(
            MoveError::CellOccupied,
        ),
{
}

/// No stone can be placed at a row or column beyond the last.
pub proof fn lemma_place_out_of_bounds(g: Grid, side: Cell, r: int, c: int)
    requires
        r >= BOARD_SIZE || c >= BOARD_SIZE,
    ensures
        place(g, side, r, c) == Err::<Grid, MoveError>(MoveError::OutOfBounds),
{
}

} // verus!
