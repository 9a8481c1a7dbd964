//! The rules: lines of five, the winner, a full board, the legal moves.

use vstd::prelude::*;
use crate::board::{at, grid_of, in_bounds, opponent, Cell, Grid, BOARD_SIZE, WIN_LENGTH};
use crate::game::Gomoku;

verus! {

/// The four lines through a point, in the order in which they are examined.
#[derive(Clone, Copy, PartialEq, Eq, Debug, Structural)]
pub enum Axis {
    /// Along a row, towards higher columns.
    Horizontal,
    /// Along a column, towards higher rows.
    Vertical,
    /// Down and to the right.
    Diagonal,
    /// Down and to the left.
    AntiDiagonal,
}

impl Axis {
    /// The row reached from row `r` after `k` steps along the axis; a negative
    /// `k` steps backwards.
    pub open spec fn row_at(self, r: int, k: int) -> int {
        match self {
            Axis::Horizontal => r,
            Axis::Vertical => r + k,
            Axis::Diagonal => r + k,
            Axis::AntiDiagonal => r + k,
        }
    }

    /// The column reached from column `c` after `k` steps along the axis.
    pub open spec fn col_at(self, c: int, k: int) -> int {
        match self {
            Axis::Horizontal => c + k,
            Axis::Vertical => c,
            Axis::Diagonal => c + k,
            Axis::AntiDiagonal => c - k,
        }
    }
}

/// The cell `k` steps from `(r, c)` along `axis`, or `None` off the board.
pub open spec fn along(g: Grid, axis: Axis, r: int, c: int, k: int) -> Option<Cell> {
    at(g, axis.row_at(r, k), axis.col_at(c, k))
}

/// `(r, c)` holds a stone, and the next `WIN_LENGTH - 1` points along `axis`
/// lie on the board and hold stones of the same colour.
pub open spec fn five_at(g: Grid, r: int, c: int, axis: Axis) -> bool {
    &&& in_bounds(r, c)
    &&& g[r][c] != Cell::Empty
    &&& forall|k: int| 1 <= k < WIN_LENGTH ==> #[trigger] along(g, axis, r, c, k) == Some(g[r][c])
}

/// A line of five starts at `(r, c)`, along one of the four axes.
pub open spec fn wins_at(g: Grid, r: int, c: int) -> bool {
    ||| five_at(g, r, c, Axis::Horizontal)
    ||| five_at(g, r, c, Axis::Vertical)
    ||| five_at(g, r, c, Axis::Diagonal)
    ||| five_at(g, r, c, Axis::AntiDiagonal)
}

/// Some line of five stands on the board.
pub open spec fn has_five(g: Grid) -> bool {
    exists|r: int, c: int| wins_at(g, r, c)
}

/// `(r1, c1)` comes before `(r2, c2)` when the board is read row by row.
pub open spec fn precedes(r1: int, c1: int, r2: int, c2: int) -> bool {
    r1 < r2 || (r1 == r2 && c1 < c2)
}

/// A line of five starts at `(r, c)` and at no earlier point.
pub open spec fn first_win(g: Grid, r: int, c: int) -> bool {
    &&& wins_at(g, r, c)
    &&& forall|r2: int, c2: int| precedes(r2, c2, r, c) ==> !wins_at(g, r2, c2)
}

/// The winner: the colour of the line of five that starts earliest in
/// row-major order, or `None` where the board holds no line of five.
pub open spec fn winner(g: Grid) -> Option<Cell> {
    if has_five(g) {
        let (r, c) = choose|r: int, c: int| first_win(g, r, c);
        Some(g[r][c])
    } else {
        None
    }
}

/// No point of the board is empty.
pub open spec fn is_full(g: Grid) -> bool {
    forall|r: int, c: int| in_bounds(r, c) ==> at(g, r, c) != Some(Cell::Empty)
}

/// The `i`-th point of the board in row-major order.
pub open spec fn point(i: int) -> (int, int) {
    (i / (BOARD_SIZE as int), i % (BOARD_SIZE as int))
}

/// The first `n` points of the board in row-major order.
pub open spec fn points(n: nat) -> Seq<(int, int)> {
    Seq::new(n, |i: int| point(i))
}

/// The test that a point of `g` is empty.
pub open spec fn is_empty_in(g: Grid) -> spec_fn((int, int)) -> bool {
    |p: (int, int)| g[p.0][p.1] == Cell::Empty
}

/// The legal moves: the empty points of the board, in row-major order.
pub open spec fn empty_cells(g: Grid) -> Seq<(int, int)> {
    points((BOARD_SIZE * BOARD_SIZE) as nat).filter(is_empty_in(g))
}

/// A list of coordinates as pairs of mathematical integers.
pub open spec fn as_points(moves: Seq<(usize, usize)>) -> Seq<(int, int)> {
    moves.map_values(|m: (usize, usize)| (m.0 as int, m.1 as int))
}

/// Where a line of five starts at `(r, c)` and at no earlier point, the
/// winner is the colour at `(r, c)`.
pub proof fn lemma_first_win_is_winner(g: Grid, r: int, c: int)
    requires
        first_win(g, r, c),
    ensures
        winner(g) == Some(g[r][c]),
{
    let (r0, c0) = choose|r0: int, c0: int| first_win(g, r0, c0);
    assert(first_win(g, r0, c0));
    assert(!precedes(r0, c0, r, c));
    assert(!precedes(r, c, r0, c0));
}

/// `side` has a line of five on the board.
pub open spec fn owns_five(g: Grid, side: Cell) -> bool {
    exists|r: int, c: int| wins_at(g, r, c) && g[r][c] == side
}

/// Either a line of five starts at some point and at no earlier one, or no
/// line of five starts at any of the first `n` points.
proof fn lemma_scan_for_first_win(g: Grid, n: int)
    requires
        0 <= n <= BOARD_SIZE * BOARD_SIZE,
    ensures
        (exists|r: int, c: int| first_win(g, r, c)) || (forall|r: int, c: int|
            in_bounds(r, c) && r * BOARD_SIZE + c < n ==> !wins_at(g, r, c)),
    decreases n,
{
    if n > 0 {
        lemma_scan_for_first_win(g, n - 1);
        if !(exists|r: int, c: int| first_win(g, r, c)) {
            let (rn, cn) = point(n - 1);
            if wins_at(g, rn, cn) {
                assert forall|r2: int, c2: int| precedes(r2, c2, rn, cn) implies !wins_at(
                    g,
                    r2,
                    c2,
                ) by {
                    if in_bounds(r2, c2) {
                        assert(r2 * BOARD_SIZE + c2 < n - 1);
                    }
                }
                assert(first_win(g, rn, cn));
            } else {
                assert forall|r: int, c: int|
                    in_bounds(r, c) && r * BOARD_SIZE + c < n implies !wins_at(g, r, c) by {
                    if r * BOARD_SIZE + c == n - 1 {
                        assert(r == rn && c == cn);
                    }
                }
            }
        }
    }
}

/// Where a line of five stands, one of them starts earliest.
pub proof fn lemma_first_win_exists(g: Grid)
    requires
        has_five(g),
    ensures
        exists|r: int, c: int| first_win(g, r, c),
{
    lemma_scan_for_first_win(g, (BOARD_SIZE * BOARD_SIZE) as int);
    if !(exists|r: int, c: int| first_win(g, r, c)) {
        let (r, c) = choose|r: int, c: int| wins_at(g, r, c);
        assert(in_bounds(r, c));
        assert(r * BOARD_SIZE + c < BOARD_SIZE * BOARD_SIZE);
    }
}

/// There is a winner exactly where a line of five stands, and the winner is a
/// colour that has one.
pub proof fn lemma_winner_owns_five(g: Grid)
    ensures
        winner(g) is Some <==> has_five(g),
        winner(g) matches Some(side) ==> side != Cell::Empty && owns_five(g, side),
{
    if has_five(g) {
        lemma_first_win_exists(g);
        let (r, c) = choose|r: int, c: int| first_win(g, r, c);
        assert(wins_at(g, r, c) && g[r][c] != Cell::Empty);
    }
}

/// Five stones of one colour in a row, along any of the four axes, win:
/// where `(r, c)` is the `j`-th of them, counted from 0 along the axis,
/// whichever of the five it is, there is a winner; and it is `side`, unless
/// the other colour has a line of five too.
pub proof fn lemma_line_of_five_wins(g: Grid, axis: Axis, r: int, c: int, j: int, side: Cell)
    requires
        side != Cell::Empty,
        0 <= j < WIN_LENGTH,
        forall|k: int| -j <= k < WIN_LENGTH - j ==> #[trigger] along(g, axis, r, c, k) == Some(side),
    ensures
        five_at(g, axis.row_at(r, -j), axis.col_at(c, -j), axis),
        winner(g) is Some,
        !owns_five(g, opponent(side)) ==> winner(g) == Some(side),
{
    let r0 = axis.row_at(r, -j);
    let c0 = axis.col_at(c, -j);
    assert forall|k: int| 0 <= k < WIN_LENGTH implies #[trigger] along(g, axis, r0, c0, k) == Some(
        side,
    ) by {
        assert(along(g, axis, r0, c0, k) == along(g, axis, r, c, k - j));
    }
    assert(along(g, axis, r0, c0, 0) == Some(side));
    assert(five_at(g, r0, c0, axis));
    assert(wins_at(g, r0, c0));
    lemma_winner_owns_five(g);
}

/// The board is full exactly where the list of legal moves is empty.
pub proof fn lemma_full_iff_no_empty_cells(g: Grid)
    ensures
        is_full(g) <==> empty_cells(g).len() == 0,
{
    let all = points((BOARD_SIZE * BOARD_SIZE) as nat);
    if empty_cells(g).len() > 0 {
        lemma_empty_cells_are_empty(g, 0);
        let m = empty_cells(g)[0];
        assert(at(g, m.0, m.1) == Some(Cell::Empty));
    }
    if !is_full(g) {
        let (r, c) = choose|r: int, c: int| in_bounds(r, c) && at(g, r, c) == Some(Cell::Empty);
        let j = r * BOARD_SIZE + c;
        assert(all[j] == (r, c));
        all.lemma_filter_contains(is_empty_in(g), j);
    }
}

/// One empty point is enough: such a board is not full, whether or not a
/// line of five stands on it.
pub proof fn lemma_empty_point_not_full(g: Grid, r: int, c: int)
    requires
        at(g, r, c) == Some(Cell::Empty),
    ensures
        !is_full(g),
{
}

/// Every legal move names an empty point of the board.
pub proof fn lemma_empty_cells_are_empty(g: Grid, i: int)
    requires
        0 <= i < empty_cells(g).len(),
    ensures
        in_bounds(empty_cells(g)[i].0, empty_cells(g)[i].1),
        g[empty_cells(g)[i].0][empty_cells(g)[i].1] == Cell::Empty,
{
    let all = points((BOARD_SIZE * BOARD_SIZE) as nat);
    let m = empty_cells(g)[i];
    all.lemma_filter_pred(is_empty_in(g), i);
    assert(all.filter(is_empty_in(g)).contains(m));
    all.lemma_filter_contains_rev(is_empty_in(g), m);
    let j = choose|j: int| 0 <= j < all.len() && all[j] == m;
    assert(m == point(j));
}

/// The point `k` steps from `(row, col)` along `axis`, if it lies on the board.
pub(crate) fn step_from(row: usize, col: usize, axis: Axis, k: isize) -> (p: Option<(usize, usize)>)
    requires
        in_bounds(row as int, col as int),
        -(WIN_LENGTH as int) <= k <= WIN_LENGTH as int,
    ensures
        match p {
            Some((r, c)) => r == axis.row_at(row as int, k as int) && c == axis.col_at(
                col as int,
                k as int,
            ) && in_bounds(r as int, c as int),
            None => !in_bounds(axis.row_at(row as int, k as int), axis.col_at(col as int, k as int)),
        },
{
    let r0: isize = row as isize;
    let c0: isize = col as isize;
    let (r, c): (isize, isize) = match axis {
        Axis::Horizontal => (r0, c0 + k),
        Axis::Vertical => (r0 + k, c0),
        Axis::Diagonal => (r0 + k, c0 + k),
        Axis::AntiDiagonal => (r0 + k, c0 - k),
    };
    if r < 0 || r >= BOARD_SIZE as isize || c < 0 || c >= BOARD_SIZE as isize {
        None
    } else {
        Some((r as usize, c as usize))
    }
}

impl Gomoku {
    /// Whether a line of five starts at `(row, col)` along `axis`.
    fn five_from(&self, row: usize, col: usize, axis: Axis) -> (found: bool)
        requires
            in_bounds(row as int, col as int),
        ensures
            found == five_at(self@.board, row as int, col as int, axis),
    {
        proof {
            self.view_unfolded();
        }
        let ghost g = self@.board;
        let player = self.board[row][col];
        if player == Cell::Empty {
            return false;
        }
        let mut count: usize = 1;
        let mut step: usize = 1;
        while step < WIN_LENGTH
            invariant_except_break
                count == step,
            invariant
                1 <= step <= WIN_LENGTH,
                in_bounds(row as int, col as int),
                g == grid_of(self.board),
                player == g[row as int][col as int],
                forall|k: int| 1 <= k < step ==> #[trigger] along(g, axis, row as int, col as int, k)
                    == Some(player),
            ensures
                count >= WIN_LENGTH <==> forall|k: int|
                    1 <= k < WIN_LENGTH ==> #[trigger] along(g, axis, row as int, col as int, k)
                        == Some(player),
            decreases WIN_LENGTH - step,
        {
            let matched = match step_from(row, col, axis, step as isize) {
                Some((r, c)) => self.board[r][c] == player,
                None => false,
            };
            if !matched {
                assert(along(g, axis, row as int, col as int, step as int) != Some(player));
                assert(count < WIN_LENGTH);
                break ;
            }
            count += 1;
            step += 1;
        }
        count >= WIN_LENGTH
    }

    /// The winner, if a line of five stands on the board: the colour of the
    /// line that starts earliest in row-major order.
    pub fn check_winner(&self) -> (w: Option<Cell>)
        ensures
            w == winner(self@.board),
            w is Some <==> has_five(self@.board),
            w matches Some(side) ==> side != Cell::Empty && owns_five(self@.board, side),
    {
        proof {
            self.view_unfolded();
            lemma_winner_owns_five(self@.board);
        }
        let ghost g = self@.board;
        for row in 0..BOARD_SIZE
            invariant
                g == self@.board,
                g == grid_of(self.board),
                forall|r2: int, c2: int| in_bounds(r2, c2) && r2 < row ==> !wins_at(g, r2, c2),
        {
            for col in 0..BOARD_SIZE
                invariant
                    row < BOARD_SIZE,
                    g == self@.board,
                    g == grid_of(self.board),
                    forall|r2: int, c2: int|
                        in_bounds(r2, c2) && precedes(r2, c2, row as int, col as int) ==> !wins_at(
                            g,
                            r2,
                            c2,
                        ),
            {
                let player = self.board[row][col];
                if self.five_from(row, col, Axis::Horizontal) || self.five_from(
                    row,
                    col,
                    Axis::Vertical,
                ) || self.five_from(row, col, Axis::Diagonal) || self.five_from(
                    row,
                    col,
                    Axis::AntiDiagonal,
                ) {
                    proof {
                        assert(wins_at(g, row as int, col as int));
                        assert(first_win(g, row as int, col as int));
                        lemma_first_win_is_winner(g, row as int, col as int);
                    }
                    return Some(player);
                }
            }
        }
        assert(!has_five(g));
        None
    }

    /// The legal moves: the empty points of the board, row by row.
    pub fn get_valid_moves(&self) -> (moves: Vec<(usize, usize)>)
        ensures
            as_points(moves@) == empty_cells(self@.board),
            forall|i: int|
                0 <= i < moves.len() ==> in_bounds(
                    (#[trigger] moves[i]).0 as int,
                    moves[i].1 as int,
                ),
    {
        proof {
            self.view_unfolded();
        }
        let ghost g = self@.board;
        let mut moves: Vec<(usize, usize)> = Vec::new();
        assert(as_points(moves@) =~= points(0).filter(is_empty_in(g))) by {
            reveal(Seq::filter);
        }
        for row in 0..BOARD_SIZE
            invariant
                g == grid_of(self.board),
                g == self@.board,
                as_points(moves@) == points((row * BOARD_SIZE) as nat).filter(is_empty_in(g)),
                forall|i: int|
                    0 <= i < moves.len() ==> in_bounds(
                        (#[trigger] moves[i]).0 as int,
                        moves[i].1 as int,
                    ),
        {
            for col in 0..BOARD_SIZE
                invariant
                    row < BOARD_SIZE,
                    g == grid_of(self.board),
                    g == self@.board,
                    as_points(moves@) == points((row * BOARD_SIZE + col) as nat).filter(
                        is_empty_in(g),
                    ),
                    forall|i: int|
                        0 <= i < moves.len() ==> in_bounds(
                            (#[trigger] moves[i]).0 as int,
                            moves[i].1 as int,
                        ),
            {
                let ghost n = (row * BOARD_SIZE + col) as nat;
                let ghost before = moves@;
                if self.board[row][col] == Cell::Empty {
                    moves.push((row, col));
                }
                proof {
                    assert(point(n as int) == (row as int, col as int));
                    assert(points(n + 1) =~= points(n).push(point(n as int)));
                    points(n).lemma_filter_push(point(n as int), is_empty_in(g));
                    if g[row as int][col as int] == Cell::Empty {
                        assert(as_points(moves@) =~= as_points(before).push(point(n as int)));
                    }
                }
            }
        }
        moves
    }

    /// Whether every point of the board holds a stone.
    pub fn is_board_full(&self) -> (full: bool)
        ensures
            full == is_full(self@.board),
    {
        proof {
            self.view_unfolded();
        }
        let ghost g = self@.board;
        for row in 0..BOARD_SIZE
            invariant
                g == grid_of(self.board),
                g == self@.board,
                forall|r: int, c: int|
                    in_bounds(r, c) && r < row ==> #[trigger] at(g, r, c) != Some(Cell::Empty),
        {
            for col in 0..BOARD_SIZE
                invariant
                    row < BOARD_SIZE,
                    g == grid_of(self.board),
                    g == self@.board,
                    forall|r: int, c: int|
                        in_bounds(r, c) && precedes(r, c, row as int, col as int) ==> #[trigger] at(
                            g,
                            r,
                            c,
                        ) != Some(Cell::Empty),
            {
                if self.board[row][col] == Cell::Empty {
                    assert(at(g, row as int, col as int) == Some(Cell::Empty));
                    return false;
                }
            }
        }
        true
    }
}

} // verus!
