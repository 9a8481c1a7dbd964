//! What a line of five is worth on the board as a whole.

use vstd::prelude::*;
use crate::board::{at, grid_wf, in_bounds, opponent, with_stone, Cell, Grid, BOARD_SIZE, WIN_LENGTH};
use crate::eval::{
    arm_len, arm_open, cell_score, evaluation, lemma_arm_len_bounds, lemma_pattern_value_monotone,
    line_count, line_open_ends, line_value, row_score, rows_score, signed, stone_value, FIVE_SCORE,
    FOUR_SCORE,
};
use crate::rules::{along, Axis};

verus! {

/// `(r, c)` is one of five stones of `side` in a row along `axis`: the
/// `j`-th of them, counted from 0, for some `j`.
pub open spec fn in_five(g: Grid, axis: Axis, r: int, c: int, side: Cell) -> bool {
    exists|j: int| #[trigger] is_nth_of_five(g, axis, r, c, side, j)
}

/// `(r, c)` is the `j`-th of five stones of `side` in a row along `axis`.
pub open spec fn is_nth_of_five(g: Grid, axis: Axis, r: int, c: int, side: Cell, j: int) -> bool {
    &&& side != Cell::Empty
    &&& 0 <= j < WIN_LENGTH
    &&& forall|k: int| -j <= k < WIN_LENGTH - j ==> #[trigger] along(g, axis, r, c, k) == Some(side)
}

/// No stone of `side` stands on the board.
pub open spec fn has_no_stone_of(g: Grid, side: Cell) -> bool {
    forall|r: int, c: int| in_bounds(r, c) ==> #[trigger] at(g, r, c) != Some(side)
}

/// An arm whose first `m` points from step `k` on hold the colour of
/// `(r, c)` counts `m` stones at least.
pub proof fn lemma_arm_len_at_least(
    g: Grid,
    axis: Axis,
    r: int,
    c: int,
    forward: bool,
    k: int,
    m: int,
)
    requires
        1 <= k,
        0 <= m,
        k + m <= WIN_LENGTH,
        forall|i: int|
            k <= i < k + m ==> #[trigger] along(g, axis, r, c, signed(forward, i)) == Some(g[r][c]),
    ensures
        arm_len(g, axis, r, c, forward, k) >= m,
    decreases m,
{
    if m > 0 {
        assert(along(g, axis, r, c, signed(forward, k)) == Some(g[r][c]));
        lemma_arm_len_at_least(g, axis, r, c, forward, k + 1, m - 1);
    } else {
        lemma_arm_len_bounds(g, axis, r, c, forward, k);
    }
}

/// The line through any of five stones in a row counts `WIN_LENGTH` stones
/// at least, and so is worth `FIVE_SCORE`.
pub proof fn lemma_in_five_scores_five(g: Grid, axis: Axis, r: int, c: int, side: Cell)
    requires
        in_five(g, axis, r, c, side),
    ensures
        at(g, r, c) == Some(side),
        line_count(g, axis, r, c) >= WIN_LENGTH,
        line_value(g, axis, r, c) == FIVE_SCORE,
        stone_value(g, r, c) >= FIVE_SCORE,
{
    let j = choose|j: int| #[trigger] is_nth_of_five(g, axis, r, c, side, j);
    assert(along(g, axis, r, c, 0) == Some(side));
    assert forall|i: int| 1 <= i < 1 + (WIN_LENGTH - 1 - j) implies #[trigger] along(
        g,
        axis,
        r,
        c,
        signed(true, i),
    ) == Some(g[r][c]) by {
        assert(along(g, axis, r, c, i) == Some(side));
    }
    lemma_arm_len_at_least(g, axis, r, c, true, 1, WIN_LENGTH - 1 - j);
    assert forall|i: int| 1 <= i < 1 + j implies #[trigger] along(
        g,
        axis,
        r,
        c,
        signed(false, i),
    ) == Some(g[r][c]) by {
        assert(along(g, axis, r, c, -i) == Some(side));
    }
    lemma_arm_len_at_least(g, axis, r, c, false, 1, j);
}

/// Where the other colour has no stone, no point of a row counts against
/// `side`: the score of the row's first `n` points is at least the score of
/// each of them, and at least 0.
pub proof fn lemma_row_score_dominates(g: Grid, r: int, side: Cell, n: int, c: int)
    requires
        side != Cell::Empty,
        has_no_stone_of(g, opponent(side)),
        0 <= r < BOARD_SIZE,
        0 <= n <= BOARD_SIZE,
    ensures
        row_score(g, r, side, n) >= 0,
        0 <= c < n ==> row_score(g, r, side, n) >= cell_score(g, r, c, side),
    decreases n,
{
    if n > 0 {
        lemma_row_score_dominates(g, r, side, n - 1, c);
        assert(at(g, r, n - 1) != Some(opponent(side)));
        assert(cell_score(g, r, n - 1, side) >= 0);
    }
}

/// The same of the first `n` rows.
pub proof fn lemma_rows_score_dominates(g: Grid, side: Cell, n: int, r: int, c: int)
    requires
        side != Cell::Empty,
        has_no_stone_of(g, opponent(side)),
        0 <= n <= BOARD_SIZE,
        0 <= c < BOARD_SIZE,
    ensures
        rows_score(g, side, n) >= 0,
        0 <= r < n ==> rows_score(g, side, n) >= cell_score(g, r, c, side),
    decreases n,
{
    if n > 0 {
        lemma_rows_score_dominates(g, side, n - 1, r, c);
        lemma_row_score_dominates(g, n - 1, side, BOARD_SIZE as int, c);
    }
}

/// A position with five stones of `side` in a row, and no stone of the other
/// colour, scores `FIVE_SCORE` at least for `side`.
pub proof fn lemma_five_scores_high(g: Grid, axis: Axis, r: int, c: int, side: Cell)
    requires
        in_five(g, axis, r, c, side),
        has_no_stone_of(g, opponent(side)),
    ensures
        evaluation(g, side) >= FIVE_SCORE,
{
    lemma_in_five_scores_five(g, axis, r, c, side);
    lemma_rows_score_dominates(g, side, BOARD_SIZE as int, r, c);
}

/// Two arms that agree point by point, from step `k` on, count the same
/// stones from there.
pub proof fn lemma_arm_len_same(
    g: Grid,
    h: Grid,
    axis: Axis,
    r: int,
    c: int,
    forward: bool,
    k: int,
)
    requires
        1 <= k <= WIN_LENGTH,
        g[r][c] == h[r][c],
        forall|i: int|
            #![trigger along(g, axis, r, c, signed(forward, i))]
            k <= i < WIN_LENGTH ==> along(g, axis, r, c, signed(forward, i)) == along(
                h,
                axis,
                r,
                c,
                signed(forward, i),
            ),
    ensures
        arm_len(g, axis, r, c, forward, k) == arm_len(h, axis, r, c, forward, k),
    decreases WIN_LENGTH - k,
{
    if k < WIN_LENGTH {
        assert(along(g, axis, r, c, signed(forward, k)) == along(
            h,
            axis,
            r,
            c,
            signed(forward, k),
        ));
        lemma_arm_len_same(g, h, axis, r, c, forward, k + 1);
    }
}

/// An arm of `h` that continues wherever the arm of `g` does counts as many
/// stones at least.
pub proof fn lemma_arm_len_grows(
    g: Grid,
    h: Grid,
    axis: Axis,
    r: int,
    c: int,
    forward: bool,
    k: int,
)
    requires
        1 <= k <= WIN_LENGTH,
        forall|i: int|
            #![trigger along(g, axis, r, c, signed(forward, i))]
            k <= i < WIN_LENGTH && along(g, axis, r, c, signed(forward, i)) == Some(g[r][c])
                ==> along(h, axis, r, c, signed(forward, i)) == Some(h[r][c]),
    ensures
        arm_len(g, axis, r, c, forward, k) <= arm_len(h, axis, r, c, forward, k),
    decreases WIN_LENGTH - k,
{
    if k < WIN_LENGTH {
        if along(g, axis, r, c, signed(forward, k)) == Some(g[r][c]) {
            assert(along(h, axis, r, c, signed(forward, k)) == Some(h[r][c]));
            lemma_arm_len_grows(g, h, axis, r, c, forward, k + 1);
        } else {
            lemma_arm_len_bounds(h, axis, r, c, forward, k);
        }
    }
}

/// How many steps along `axis` lead from `(r, c)` to `(rq, cq)`, forwards
/// or, where negative, backwards; `None` where the axis through `(r, c)`
/// misses `(rq, cq)`.
pub open spec fn steps_between(axis: Axis, r: int, c: int, rq: int, cq: int) -> Option<int> {
    match axis {
        Axis::Horizontal => if rq == r {
            Some(cq - c)
        } else {
            None
        },
        Axis::Vertical => if cq == c {
            Some(rq - r)
        } else {
            None
        },
        Axis::Diagonal => if rq - r == cq - c {
            Some(rq - r)
        } else {
            None
        },
        Axis::AntiDiagonal => if rq - r == c - cq {
            Some(rq - r)
        } else {
            None
        },
    }
}

/// The line through `(r, c)` along `axis` is read as far as `(rq, cq)`: the
/// two points are different and at most `WIN_LENGTH - 1` steps apart on it.
pub open spec fn touches(axis: Axis, r: int, c: int, rq: int, cq: int) -> bool {
    match steps_between(axis, r, c, rq, cq) {
        Some(k) => k != 0 && -(WIN_LENGTH as int) < k < WIN_LENGTH,
        None => false,
    }
}

/// One of the four lines through `(r, c)` is read as far as `(rq, cq)`.
pub open spec fn near(r: int, c: int, rq: int, cq: int) -> bool {
    ||| touches(Axis::Horizontal, r, c, rq, cq)
    ||| touches(Axis::Vertical, r, c, rq, cq)
    ||| touches(Axis::Diagonal, r, c, rq, cq)
    ||| touches(Axis::AntiDiagonal, r, c, rq, cq)
}

/// A stone placed on an empty point changes that point and no other.
pub proof fn lemma_with_stone_at(g: Grid, rq: int, cq: int, side: Cell, r: int, c: int)
    requires
        grid_wf(g),
        in_bounds(rq, cq),
    ensures
        at(with_stone(g, rq, cq, side), r, c) == (if r == rq && c == cq {
            Some(side)
        } else {
            at(g, r, c)
        }),
{
}

/// The same of the points along a line.
pub proof fn lemma_with_stone_along(
    g: Grid,
    rq: int,
    cq: int,
    side: Cell,
    axis: Axis,
    r: int,
    c: int,
    k: int,
)
    requires
        grid_wf(g),
        in_bounds(rq, cq),
    ensures
        along(with_stone(g, rq, cq, side), axis, r, c, k) == (if steps_between(axis, r, c, rq, cq)
            == Some(k) {
            Some(side)
        } else {
            along(g, axis, r, c, k)
        }),
{
    lemma_with_stone_at(g, rq, cq, side, axis.row_at(r, k), axis.col_at(c, k));
}

/// An arm that is not read as far as the new stone is what it was.
pub proof fn lemma_arm_unchanged(
    g: Grid,
    rq: int,
    cq: int,
    side: Cell,
    axis: Axis,
    r: int,
    c: int,
    forward: bool,
)
    requires
        grid_wf(g),
        in_bounds(rq, cq),
        in_bounds(r, c),
        r != rq || c != cq,
        !touches(axis, r, c, rq, cq),
    ensures
        arm_len(with_stone(g, rq, cq, side), axis, r, c, forward, 1) == arm_len(
            g,
            axis,
            r,
            c,
            forward,
            1,
        ),
        arm_open(with_stone(g, rq, cq, side), axis, r, c, forward) == arm_open(
            g,
            axis,
            r,
            c,
            forward,
        ),
{
    let h = with_stone(g, rq, cq, side);
    lemma_with_stone_at(g, rq, cq, side, r, c);
    assert forall|i: int|
        #![trigger along(g, axis, r, c, signed(forward, i))]
        1 <= i < WIN_LENGTH implies along(g, axis, r, c, signed(forward, i)) == along(
        h,
        axis,
        r,
        c,
        signed(forward, i),
    ) by {
        lemma_with_stone_along(g, rq, cq, side, axis, r, c, signed(forward, i));
    }
    lemma_arm_len_same(g, h, axis, r, c, forward, 1);
    lemma_arm_len_bounds(g, axis, r, c, forward, 1);
    let n = arm_len(g, axis, r, c, forward, 1);
    if n < WIN_LENGTH - 1 {
        assert(along(g, axis, r, c, signed(forward, n + 1)) == along(
            h,
            axis,
            r,
            c,
            signed(forward, n + 1),
        ));
    }
}

/// A line that is not read as far as the new stone is worth what it was.
pub proof fn lemma_line_unchanged(
    g: Grid,
    rq: int,
    cq: int,
    side: Cell,
    axis: Axis,
    r: int,
    c: int,
)
    requires
        grid_wf(g),
        in_bounds(rq, cq),
        in_bounds(r, c),
        r != rq || c != cq,
        !touches(axis, r, c, rq, cq),
    ensures
        line_value(with_stone(g, rq, cq, side), axis, r, c) == line_value(g, axis, r, c),
{
    lemma_arm_unchanged(g, rq, cq, side, axis, r, c, true);
    lemma_arm_unchanged(g, rq, cq, side, axis, r, c, false);
}

/// An arm from a stone of the colour that moved counts as many stones as
/// before at least.
pub proof fn lemma_own_arm_change(
    g: Grid,
    rq: int,
    cq: int,
    side: Cell,
    axis: Axis,
    r: int,
    c: int,
    forward: bool,
)
    requires
        grid_wf(g),
        in_bounds(rq, cq),
        in_bounds(r, c),
        r != rq || c != cq,
        g[r][c] == side,
    ensures
        arm_len(g, axis, r, c, forward, 1) <= arm_len(
            with_stone(g, rq, cq, side),
            axis,
            r,
            c,
            forward,
            1,
        ),
{
    let h = with_stone(g, rq, cq, side);
    lemma_with_stone_at(g, rq, cq, side, r, c);
    assert forall|i: int|
        #![trigger along(g, axis, r, c, signed(forward, i))]
        1 <= i < WIN_LENGTH && along(g, axis, r, c, signed(forward, i)) == Some(
            g[r][c],
        ) implies along(h, axis, r, c, signed(forward, i)) == Some(h[r][c]) by {
        lemma_with_stone_along(g, rq, cq, side, axis, r, c, signed(forward, i));
    }
    lemma_arm_len_grows(g, h, axis, r, c, forward, 1);
}

/// A line through a stone of the colour that moved loses `FOUR_SCORE` at
/// most by the new stone: it counts as many stones as before at least, and
/// whatever counted `WIN_LENGTH` still does.
pub proof fn lemma_own_line_change(
    g: Grid,
    rq: int,
    cq: int,
    side: Cell,
    axis: Axis,
    r: int,
    c: int,
)
    requires
        grid_wf(g),
        in_bounds(rq, cq),
        in_bounds(r, c),
        r != rq || c != cq,
        g[r][c] == side,
    ensures
        line_value(with_stone(g, rq, cq, side), axis, r, c) >= line_value(g, axis, r, c)
            - FOUR_SCORE,
{
    lemma_own_arm_change(g, rq, cq, side, axis, r, c, true);
    lemma_own_arm_change(g, rq, cq, side, axis, r, c, false);
}

/// An arm from a stone of the other colour counts the stones it counted, and
/// has not opened.
pub proof fn lemma_other_arm_change(
    g: Grid,
    rq: int,
    cq: int,
    side: Cell,
    axis: Axis,
    r: int,
    c: int,
    forward: bool,
)
    requires
        grid_wf(g),
        in_bounds(rq, cq),
        at(g, rq, cq) == Some(Cell::Empty),
        side != Cell::Empty,
        in_bounds(r, c),
        g[r][c] != side,
        g[r][c] != Cell::Empty,
    ensures
        arm_len(with_stone(g, rq, cq, side), axis, r, c, forward, 1) == arm_len(
            g,
            axis,
            r,
            c,
            forward,
            1,
        ),
        arm_open(with_stone(g, rq, cq, side), axis, r, c, forward) ==> arm_open(
            g,
            axis,
            r,
            c,
            forward,
        ),
{
    let h = with_stone(g, rq, cq, side);
    lemma_with_stone_at(g, rq, cq, side, r, c);
    assert forall|i: int|
        #![trigger along(g, axis, r, c, signed(forward, i))]
        1 <= i < WIN_LENGTH && along(g, axis, r, c, signed(forward, i)) == Some(
            g[r][c],
        ) implies along(h, axis, r, c, signed(forward, i)) == Some(h[r][c]) by {
        lemma_with_stone_along(g, rq, cq, side, axis, r, c, signed(forward, i));
    }
    lemma_arm_len_grows(g, h, axis, r, c, forward, 1);
    assert forall|i: int|
        #![trigger along(h, axis, r, c, signed(forward, i))]
        1 <= i < WIN_LENGTH && along(h, axis, r, c, signed(forward, i)) == Some(
            h[r][c],
        ) implies along(g, axis, r, c, signed(forward, i)) == Some(g[r][c]) by {
        lemma_with_stone_along(g, rq, cq, side, axis, r, c, signed(forward, i));
    }
    lemma_arm_len_grows(h, g, axis, r, c, forward, 1);
    lemma_arm_len_bounds(g, axis, r, c, forward, 1);
    let n = arm_len(g, axis, r, c, forward, 1);
    lemma_with_stone_along(g, rq, cq, side, axis, r, c, signed(forward, n + 1));
}

/// A line through a stone of the other colour gains nothing by the new
/// stone: it counts the stones it counted, and no end of it has opened.
pub proof fn lemma_other_line_change(
    g: Grid,
    rq: int,
    cq: int,
    side: Cell,
    axis: Axis,
    r: int,
    c: int,
)
    requires
        grid_wf(g),
        in_bounds(rq, cq),
        at(g, rq, cq) == Some(Cell::Empty),
        side != Cell::Empty,
        in_bounds(r, c),
        g[r][c] != side,
        g[r][c] != Cell::Empty,
    ensures
        line_value(with_stone(g, rq, cq, side), axis, r, c) <= line_value(g, axis, r, c),
{
    let h = with_stone(g, rq, cq, side);
    lemma_other_arm_change(g, rq, cq, side, axis, r, c, true);
    lemma_other_arm_change(g, rq, cq, side, axis, r, c, false);
    lemma_pattern_value_monotone(
        line_count(h, axis, r, c),
        line_open_ends(h, axis, r, c),
        line_count(g, axis, r, c),
        line_open_ends(g, axis, r, c),
    );
}

/// A line through a stone of the colour that moved loses `FOUR_SCORE` at
/// most where it is read as far as the new stone, and nothing elsewhere.
pub proof fn lemma_own_line_or_unchanged(
    g: Grid,
    rq: int,
    cq: int,
    side: Cell,
    axis: Axis,
    r: int,
    c: int,
)
    requires
        grid_wf(g),
        in_bounds(rq, cq),
        in_bounds(r, c),
        r != rq || c != cq,
        g[r][c] == side,
    ensures
        line_value(with_stone(g, rq, cq, side), axis, r, c) >= line_value(g, axis, r, c) - (
        if touches(axis, r, c, rq, cq) {
            FOUR_SCORE as int
        } else {
            0
        }),
{
    if touches(axis, r, c, rq, cq) {
        lemma_own_line_change(g, rq, cq, side, axis, r, c);
    } else {
        lemma_line_unchanged(g, rq, cq, side, axis, r, c);
    }
}

/// The most that the point `(r, c)` can lose, in the score for `side`, by a
/// stone of `side` that completes a line of five at `(rq, cq)`: the new
/// stone itself gains `FIVE_SCORE`, a point whose lines are read as far as
/// the new stone loses `FOUR_SCORE` at most, and any other point nothing.
pub open spec fn cell_cost(r: int, c: int, rq: int, cq: int) -> int {
    if r == rq && c == cq {
        -FIVE_SCORE
    } else if near(r, c, rq, cq) {
        FOUR_SCORE as int
    } else {
        0
    }
}

/// No point loses more than its `cell_cost` by a stone that completes a line
/// of five.
pub proof fn lemma_cell_score_change(
    g: Grid,
    axis: Axis,
    rq: int,
    cq: int,
    side: Cell,
    r: int,
    c: int,
)
    requires
        grid_wf(g),
        at(g, rq, cq) == Some(Cell::Empty),
        in_five(with_stone(g, rq, cq, side), axis, rq, cq, side),
        in_bounds(r, c),
    ensures
        cell_score(with_stone(g, rq, cq, side), r, c, side) >= cell_score(g, r, c, side)
            - cell_cost(r, c, rq, cq),
{
    let h = with_stone(g, rq, cq, side);
    lemma_with_stone_at(g, rq, cq, side, r, c);
    if r == rq && c == cq {
        lemma_in_five_scores_five(h, axis, rq, cq, side);
    } else if g[r][c] == side {
        lemma_own_line_or_unchanged(g, rq, cq, side, Axis::Horizontal, r, c);
        lemma_own_line_or_unchanged(g, rq, cq, side, Axis::Vertical, r, c);
        lemma_own_line_or_unchanged(g, rq, cq, side, Axis::Diagonal, r, c);
        lemma_own_line_or_unchanged(g, rq, cq, side, Axis::AntiDiagonal, r, c);
    } else if g[r][c] != Cell::Empty {
        lemma_other_line_change(g, rq, cq, side, Axis::Horizontal, r, c);
        lemma_other_line_change(g, rq, cq, side, Axis::Vertical, r, c);
        lemma_other_line_change(g, rq, cq, side, Axis::Diagonal, r, c);
        lemma_other_line_change(g, rq, cq, side, Axis::AntiDiagonal, r, c);
    }
}

/// `amount` where `x` is one of the first `n` indices, 0 elsewhere.
pub open spec fn charged(x: int, n: int, amount: int) -> int {
    if 0 <= x < n {
        amount
    } else {
        0
    }
}

/// `amount` for each of the eight indices within `WIN_LENGTH - 1` of `x`,
/// `x` itself left out, that is one of the first `n`.
pub open spec fn charged_around(x: int, n: int, amount: int) -> int {
    charged(x - 4, n, amount) + charged(x - 3, n, amount) + charged(x - 2, n, amount) + charged(
        x - 1,
        n,
        amount,
    ) + charged(x + 1, n, amount) + charged(x + 2, n, amount) + charged(x + 3, n, amount)
        + charged(x + 4, n, amount)
}

/// The most that the first `n` points of row `r` can lose together: the sum
/// of their `cell_cost`s, in closed form.
pub open spec fn row_cost(r: int, rq: int, cq: int, n: int) -> int {
    let d = r - rq;
    if d == 0 {
        charged_around(cq, n, FOUR_SCORE as int) - charged(cq, n, FIVE_SCORE as int)
    } else if -(WIN_LENGTH as int) < d < WIN_LENGTH {
        charged(cq, n, FOUR_SCORE as int) + charged(cq + d, n, FOUR_SCORE as int) + charged(
            cq - d,
            n,
            FOUR_SCORE as int,
        )
    } else {
        0
    }
}

/// The most that the first `n` rows can lose together.
pub open spec fn rows_cost(rq: int, n: int) -> int {
    charged_around(rq, n, 3 * FOUR_SCORE) - charged(rq, n, FIVE_SCORE - 8 * FOUR_SCORE)
}

/// The first `n` points of a row lose no more than their `row_cost` by a
/// stone that completes a line of five.
pub proof fn lemma_row_score_change(
    g: Grid,
    axis: Axis,
    rq: int,
    cq: int,
    side: Cell,
    r: int,
    n: int,
)
    requires
        grid_wf(g),
        at(g, rq, cq) == Some(Cell::Empty),
        in_five(with_stone(g, rq, cq, side), axis, rq, cq, side),
        0 <= r < BOARD_SIZE,
        0 <= n <= BOARD_SIZE,
    ensures
        row_score(with_stone(g, rq, cq, side), r, side, n) >= row_score(g, r, side, n) - row_cost(
            r,
            rq,
            cq,
            n,
        ),
    decreases n,
{
    if n > 0 {
        lemma_row_score_change(g, axis, rq, cq, side, r, n - 1);
        lemma_cell_score_change(g, axis, rq, cq, side, r, n - 1);
        assert(row_cost(r, rq, cq, n) >= row_cost(r, rq, cq, n - 1) + cell_cost(r, n - 1, rq, cq));
    }
}

/// The first `n` rows lose no more than their `rows_cost`.
pub proof fn lemma_rows_score_change(
    g: Grid,
    axis: Axis,
    rq: int,
    cq: int,
    side: Cell,
    n: int,
)
    requires
        grid_wf(g),
        at(g, rq, cq) == Some(Cell::Empty),
        in_five(with_stone(g, rq, cq, side), axis, rq, cq, side),
        0 <= n <= BOARD_SIZE,
    ensures
        rows_score(with_stone(g, rq, cq, side), side, n) >= rows_score(g, side, n) - rows_cost(
            rq,
            n,
        ),
    decreases n,
{
    if n > 0 {
        lemma_rows_score_change(g, axis, rq, cq, side, n - 1);
        lemma_row_score_change(g, axis, rq, cq, side, n - 1, BOARD_SIZE as int);
        assert(rows_cost(rq, n) >= rows_cost(rq, n - 1) + row_cost(
            n - 1,
            rq,
            cq,
            BOARD_SIZE as int,
        ));
    }
}

/// The stone that completes a line of five raises the score: a position in
/// which `side` has five in a row through `(r, c)` scores more for `side`,
/// by `FIVE_SCORE - 32 * FOUR_SCORE` at least, than the position that
/// differs from it only in that `(r, c)` is empty.
pub proof fn lemma_completing_five_raises_score(g: Grid, axis: Axis, r: int, c: int, side: Cell)
    requires
        grid_wf(g),
        at(g, r, c) == Some(Cell::Empty),
        in_five(with_stone(g, r, c, side), axis, r, c, side),
    ensures
        evaluation(with_stone(g, r, c, side), side) >= evaluation(g, side) + (FIVE_SCORE - 32
            * FOUR_SCORE),
        evaluation(with_stone(g, r, c, side), side) > evaluation(g, side),
{
    lemma_rows_score_change(g, axis, r, c, side, BOARD_SIZE as int);
}

} // verus!
