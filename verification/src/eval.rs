//! The evaluator: a heuristic score of a board, seen from one side.

use vstd::prelude::*;
use crate::board::{grid_of, in_bounds, opponent, Cell, Grid, BOARD_SIZE, WIN_LENGTH};
use crate::game::Gomoku;
use crate::rules::{along, step_from, Axis};

verus! {

/// What one line through one stone is worth when it is at least `WIN_LENGTH` long.
pub const FIVE_SCORE: i32 = 100000;

/// What a line of four with an open end is worth.
pub const FOUR_SCORE: i32 = 1000;

/// What a line of three with two open ends is worth.
pub const THREE_SCORE: i32 = 100;

/// What a line of two with two open ends is worth.
pub const TWO_SCORE: i32 = 10;

/// No evaluation lies further from zero than this: every point of the board,
/// along every axis, at `FIVE_SCORE`.
pub const SCORE_BOUND: i32 = 90000000;

/// `k` steps forwards, or `k` steps backwards.
pub open spec fn signed(forward: bool, k: int) -> int {
    if forward {
        k
    } else {
        -k
    }
}

/// How many of the points at steps `k`, `k + 1`, .. `WIN_LENGTH - 1` from
/// `(r, c)`, on one arm of `axis`, hold the colour of `(r, c)` without a break.
pub open spec fn arm_len(g: Grid, axis: Axis, r: int, c: int, forward: bool, k: int) -> int
    decreases WIN_LENGTH - k,
{
    if 1 <= k < WIN_LENGTH && along(g, axis, r, c, signed(forward, k)) == Some(g[r][c]) {
        1 + arm_len(g, axis, r, c, forward, k + 1)
    } else {
        0
    }
}

/// The arm ends, before `WIN_LENGTH - 1` stones were counted, on an empty
/// point of the board.
pub open spec fn arm_open(g: Grid, axis: Axis, r: int, c: int, forward: bool) -> bool {
    let n = arm_len(g, axis, r, c, forward, 1);
    n < WIN_LENGTH - 1 && along(g, axis, r, c, signed(forward, n + 1)) == Some(Cell::Empty)
}

/// The stones counted on the line through `(r, c)`: the stone itself and both arms.
pub open spec fn line_count(g: Grid, axis: Axis, r: int, c: int) -> int {
    1 + arm_len(g, axis, r, c, true, 1) + arm_len(g, axis, r, c, false, 1)
}

/// The number of open arms of the line through `(r, c)`: 0, 1 or 2.
pub open spec fn line_open_ends(g: Grid, axis: Axis, r: int, c: int) -> int {
    (if arm_open(g, axis, r, c, true) {
        1int
    } else {
        0int
    }) + (if arm_open(g, axis, r, c, false) {
        1int
    } else {
        0int
    })
}

/// The table of scores, by stones counted and open ends.
pub open spec fn pattern_value(count: int, open_ends: int) -> int {
    if count >= WIN_LENGTH {
        FIVE_SCORE as int
    } else if count == 4 && open_ends >= 1 {
        FOUR_SCORE as int
    } else if count == 3 && open_ends == 2 {
        THREE_SCORE as int
    } else if count == 2 && open_ends == 2 {
        TWO_SCORE as int
    } else {
        0
    }
}

/// What the line through `(r, c)` along `axis` is worth to the owner of the stone.
pub open spec fn line_value(g: Grid, axis: Axis, r: int, c: int) -> int {
    pattern_value(line_count(g, axis, r, c), line_open_ends(g, axis, r, c))
}

/// What the four lines through the stone at `(r, c)` are worth to its owner.
pub open spec fn stone_value(g: Grid, r: int, c: int) -> int {
    line_value(g, Axis::Horizontal, r, c) + line_value(g, Axis::Vertical, r, c) + line_value(
        g,
        Axis::Diagonal,
        r,
        c,
    ) + line_value(g, Axis::AntiDiagonal, r, c)
}

/// What the point `(r, c)` adds to the score seen by `perspective`: nothing
/// where it is empty, the stone's value where the stone is `perspective`'s,
/// and the negated value otherwise.
pub open spec fn cell_score(g: Grid, r: int, c: int, perspective: Cell) -> int {
    if g[r][c] == Cell::Empty {
        0
    } else if g[r][c] == perspective {
        stone_value(g, r, c)
    } else {
        -stone_value(g, r, c)
    }
}

/// The sum of the scores of the first `n` points of row `r`.
pub open spec fn row_score(g: Grid, r: int, perspective: Cell, n: int) -> int
    decreases n,
{
    if n <= 0 {
        0
    } else {
        row_score(g, r, perspective, n - 1) + cell_score(g, r, n - 1, perspective)
    }
}

/// The sum of the scores of the first `n` rows.
pub open spec fn rows_score(g: Grid, perspective: Cell, n: int) -> int
    decreases n,
{
    if n <= 0 {
        0
    } else {
        rows_score(g, perspective, n - 1) + row_score(g, n - 1, perspective, BOARD_SIZE as int)
    }
}

/// The score of the board seen by `perspective`: the sum over all points.
pub open spec fn evaluation(g: Grid, perspective: Cell) -> int {
    rows_score(g, perspective, BOARD_SIZE as int)
}

/// An arm holds at most `WIN_LENGTH - k` stones from step `k` on.
pub proof fn lemma_arm_len_bounds(g: Grid, axis: Axis, r: int, c: int, forward: bool, k: int)
    requires
        1 <= k <= WIN_LENGTH,
    ensures
        0 <= arm_len(g, axis, r, c, forward, k) <= WIN_LENGTH - k,
    decreases WIN_LENGTH - k,
{
    if k < WIN_LENGTH {
        lemma_arm_len_bounds(g, axis, r, c, forward, k + 1);
    }
}

/// A stone is worth between nothing and four lines of five.
pub proof fn lemma_stone_value_bounds(g: Grid, r: int, c: int)
    ensures
        0 <= stone_value(g, r, c) <= 400000,
        forall|p: Cell| -400000 <= #[trigger] cell_score(g, r, c, p) <= 400000,
{
}

/// The score of the first `n` points of a row is bounded by `n` stones' worth.
pub proof fn lemma_row_score_bounds(g: Grid, r: int, perspective: Cell, n: int)
    requires
        0 <= n,
    ensures
        -400000 * n <= row_score(g, r, perspective, n) <= 400000 * n,
    decreases n,
{
    if n > 0 {
        lemma_row_score_bounds(g, r, perspective, n - 1);
        lemma_stone_value_bounds(g, r, n - 1);
    }
}

/// The score of the first `n` rows is bounded by `n` full rows' worth.
pub proof fn lemma_rows_score_bounds(g: Grid, perspective: Cell, n: int)
    requires
        0 <= n,
    ensures
        -6000000 * n <= rows_score(g, perspective, n) <= 6000000 * n,
    decreases n,
{
    if n > 0 {
        lemma_rows_score_bounds(g, perspective, n - 1);
        lemma_row_score_bounds(g, n - 1, perspective, BOARD_SIZE as int);
    }
}

/// Every evaluation lies within `SCORE_BOUND` of zero.
pub proof fn lemma_evaluation_bounds(g: Grid, perspective: Cell)
    ensures
        -SCORE_BOUND <= evaluation(g, perspective) <= SCORE_BOUND,
{
    lemma_rows_score_bounds(g, perspective, BOARD_SIZE as int);
}

/// A point counts for one colour what it costs the other.
pub proof fn lemma_cell_score_antisymmetric(g: Grid, r: int, c: int, side: Cell)
    requires
        side != Cell::Empty,
    ensures
        cell_score(g, r, c, side) == -cell_score(g, r, c, opponent(side)),
{
}

/// The same of the first `n` points of a row.
pub proof fn lemma_row_score_antisymmetric(g: Grid, r: int, side: Cell, n: int)
    requires
        side != Cell::Empty,
    ensures
        row_score(g, r, side, n) == -row_score(g, r, opponent(side), n),
    decreases n,
{
    if n > 0 {
        lemma_row_score_antisymmetric(g, r, side, n - 1);
        lemma_cell_score_antisymmetric(g, r, n - 1, side);
    }
}

/// The same of the first `n` rows.
pub proof fn lemma_rows_score_antisymmetric(g: Grid, side: Cell, n: int)
    requires
        side != Cell::Empty,
    ensures
        rows_score(g, side, n) == -rows_score(g, opponent(side), n),
    decreases n,
{
    if n > 0 {
        lemma_rows_score_antisymmetric(g, side, n - 1);
        lemma_row_score_antisymmetric(g, n - 1, side, BOARD_SIZE as int);
    }
}

/// The score of a board for one colour is the negated score for the other.
pub proof fn lemma_evaluation_antisymmetric(g: Grid, side: Cell)
    requires
        side != Cell::Empty,
    ensures
        evaluation(g, side) == -evaluation(g, opponent(side)),
{
    lemma_rows_score_antisymmetric(g, side, BOARD_SIZE as int);
}

/// The table of scores never falls where the stones counted or the open
/// ends grow; a line has two ends.
pub proof fn lemma_pattern_value_monotone(count1: int, open1: int, count2: int, open2: int)
    requires
        count1 <= count2,
        open1 <= open2 <= 2,
    ensures
        0 <= pattern_value(count1, open1) <= pattern_value(count2, open2) <= FIVE_SCORE,
{
}

/// A line of `WIN_LENGTH` stones or more scores `FIVE_SCORE` whatever its
/// ends, and every shorter line scores `FOUR_SCORE` at most, which is less.
pub proof fn lemma_five_outscores_shorter(five: int, ends: int, shorter: int, open_ends: int)
    requires
        shorter < WIN_LENGTH <= five,
    ensures
        pattern_value(five, ends) == FIVE_SCORE,
        pattern_value(shorter, open_ends) <= FOUR_SCORE < FIVE_SCORE,
{
}

/// The score of a line, from the stones counted on it and its open ends.
pub fn pattern_score(count: usize, open_ends: usize) -> (score: i32)
    ensures
        score == pattern_value(count as int, open_ends as int),
{
    if count >= WIN_LENGTH {
        FIVE_SCORE
    } else if count == 4 && open_ends >= 1 {
        FOUR_SCORE
    } else if count == 3 && open_ends == 2 {
        THREE_SCORE
    } else if count == 2 && open_ends == 2 {
        TWO_SCORE
    } else {
        0
    }
}

impl Gomoku {
    /// Follows one arm of the line through `(row, col)`: the number of stones
    /// of the same colour met without a break, at most `WIN_LENGTH - 1`, and
    /// whether the arm then ends on an empty point.
    fn scan_arm(&self, row: usize, col: usize, axis: Axis, forward: bool) -> (arm: (
        usize,
        bool,
    ))
        requires
            in_bounds(row as int, col as int),
        ensures
            arm.0 == arm_len(self@.board, axis, row as int, col as int, forward, 1),
            arm.1 == arm_open(self@.board, axis, row as int, col as int, forward),
            arm.0 < WIN_LENGTH,
    {
        proof {
            self.view_unfolded();
        }
        let ghost g = self@.board;
        let player = self.board[row][col];
        let mut count: usize = 0;
        let mut open = false;
        let mut step: usize = 1;
        while step < WIN_LENGTH
            invariant_except_break
                count == step - 1,
                !open,
            invariant
                1 <= step <= WIN_LENGTH,
                in_bounds(row as int, col as int),
                g == grid_of(self.board),
                player == g[row as int][col as int],
                arm_len(g, axis, row as int, col as int, forward, 1) == count + arm_len(
                    g,
                    axis,
                    row as int,
                    col as int,
                    forward,
                    step as int,
                ),
            ensures
                count == arm_len(g, axis, row as int, col as int, forward, 1),
                open == arm_open(g, axis, row as int, col as int, forward),
                count < WIN_LENGTH,
            decreases WIN_LENGTH - step,
        {
            let k: isize = if forward {
                step as isize
            } else {
                -(step as isize)
            };
            match step_from(row, col, axis, k) {
                Some((r, c)) => {
                    let cell = self.board[r][c];
                    if cell == player {
                        count += 1;
                    } else {
                        if cell == Cell::Empty {
                            open = true;
                        }
                        break ;
                    }
                },
                None => {
                    break ;
                },
            }
            step += 1;
        }
        (count, open)
    }

    /// What the line through `(row, col)` along `axis` is worth to the owner
    /// of the stone there.
    fn line_score(&self, row: usize, col: usize, axis: Axis) -> (score: i32)
        requires
            in_bounds(row as int, col as int),
        ensures
            score == line_value(self@.board, axis, row as int, col as int),
            0 <= score <= FIVE_SCORE,
    {
        let (ahead, open_ahead) = self.scan_arm(row, col, axis, true);
        let (behind, open_behind) = self.scan_arm(row, col, axis, false);
        let count: usize = 1 + ahead + behind;
        let mut open_ends: usize = 0;
        if open_ahead {
            open_ends += 1;
        }
        if open_behind {
            open_ends += 1;
        }
        pattern_score(count, open_ends)
    }

    /// The heuristic score of the board seen by `perspective`: positive where
    /// `perspective`'s lines outweigh the opponent's.
    pub fn evaluate(&self, perspective: Cell) -> (score: i32)
        ensures
            score == evaluation(self@.board, perspective),
            -SCORE_BOUND <= score <= SCORE_BOUND,
    {
        proof {
            self.view_unfolded();
        }
        let ghost g = self@.board;
        let mut score: i32 = 0;
        for row in 0..BOARD_SIZE
            invariant
                g == grid_of(self.board),
                g == self@.board,
                score == rows_score(g, perspective, row as int),
                -6000000 * row <= score <= 6000000 * row,
        {
            let ghost before = score;
            for col in 0..BOARD_SIZE
                invariant
                    row < BOARD_SIZE,
                    g == grid_of(self.board),
                    g == self@.board,
                    before == rows_score(g, perspective, row as int),
                    -6000000 * row <= before <= 6000000 * row,
                    score == before + row_score(g, row as int, perspective, col as int),
                    -400000 * col <= score - before <= 400000 * col,
            {
                let player = self.board[row][col];
                if player != Cell::Empty {
                    let value: i32 = self.line_score(row, col, Axis::Horizontal) + self.line_score(
                        row,
                        col,
                        Axis::Vertical,
                    ) + self.line_score(row, col, Axis::Diagonal) + self.line_score(
                        row,
                        col,
                        Axis::AntiDiagonal,
                    );
                    if player == perspective {
                        score = score + value;
                    } else {
                        score = score - value;
                    }
                }
            }
        }
        score
    }
}

} // verus!
