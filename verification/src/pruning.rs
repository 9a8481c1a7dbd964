//! Why pruning is safe: the alpha-beta search returns the minimax value, and
//! the move that minimax recommends, whenever its score falls strictly inside
//! the window it was given.

use vstd::prelude::*;
use crate::board::{in_bounds, opponent, Cell, Grid};
use crate::eval::{lemma_evaluation_bounds, SCORE_BOUND};
use crate::rules::{empty_cells, lemma_empty_cells_are_empty};
use crate::search::{
    alphabeta, best_index, best_move, best_value, child, improves, is_leaf, minimax_value,
    search_from, worst,
};

verus! {

/// Every minimax value lies within `SCORE_BOUND` of zero.
pub proof fn lemma_minimax_value_bounds(g: Grid, depth: nat, player: Cell, ai: Cell)
    ensures
        -SCORE_BOUND <= minimax_value(g, depth, player, ai) <= SCORE_BOUND,
    decreases depth, 0nat, 0nat,
{
    if is_leaf(g, depth) {
        lemma_evaluation_bounds(g, ai);
    } else {
        lemma_best_value_bounds(g, (depth - 1) as nat, player, ai, empty_cells(g).len());
    }
}

/// The best value among one child or more lies within `SCORE_BOUND` of zero,
/// and the index of the child that has it is one of theirs.
pub proof fn lemma_best_value_bounds(g: Grid, d: nat, player: Cell, ai: Cell, n: nat)
    requires
        n > 0,
    ensures
        -SCORE_BOUND <= best_value(g, d, player, ai, n) <= SCORE_BOUND,
        0 <= best_index(g, d, player, ai, n) < n,
    decreases d, 1nat, n,
{
    lemma_minimax_value_bounds(child(g, player, n - 1), d, opponent(player), ai);
    if n > 1 {
        lemma_best_value_bounds(g, d, player, ai, (n - 1) as nat);
    } else {
        assert(best_value(g, d, player, ai, 0) == worst(player == ai));
    }
}

/// The best value among the first `n` children is as good, for `player`, as
/// the value of each of them.
pub proof fn lemma_best_value_dominates(g: Grid, d: nat, player: Cell, ai: Cell, n: nat, i: int)
    requires
        0 <= i < n,
    ensures
        !improves(
            player == ai,
            minimax_value(child(g, player, i), d, opponent(player), ai),
            best_value(g, d, player, ai, n),
        ),
    decreases n,
{
    if i < n - 1 {
        lemma_best_value_dominates(g, d, player, ai, (n - 1) as nat, i);
    }
}

/// The best value among one child or more is the value of the child at
/// `best_index`, and every earlier child is strictly worse for `player`: the
/// recommended move is the first of the best.
pub proof fn lemma_best_index_is_first_best(
    g: Grid,
    d: nat,
    player: Cell,
    ai: Cell,
    n: nat,
    j: int,
)
    requires
        n > 0,
    ensures
        minimax_value(
            child(g, player, best_index(g, d, player, ai, n)),
            d,
            opponent(player),
            ai,
        ) == best_value(g, d, player, ai, n),
        0 <= j < best_index(g, d, player, ai, n) ==> improves(
            player == ai,
            best_value(g, d, player, ai, n),
            minimax_value(child(g, player, j), d, opponent(player), ai),
        ),
    decreases n,
{
    lemma_minimax_value_bounds(child(g, player, n - 1), d, opponent(player), ai);
    if n > 1 {
        lemma_best_index_is_first_best(g, d, player, ai, (n - 1) as nat, j);
        lemma_best_value_bounds(g, d, player, ai, (n - 1) as nat);
        if 0 <= j < n - 1 {
            lemma_best_value_dominates(g, d, player, ai, (n - 1) as nat, j);
        }
    } else {
        assert(best_value(g, d, player, ai, 0) == worst(player == ai));
    }
}

/// Away from a leaf the search recommends a legal move: an empty point of
/// the board.
pub proof fn lemma_best_move_is_legal(g: Grid, depth: nat, player: Cell, ai: Cell)
    requires
        !is_leaf(g, depth),
    ensures
        best_move(g, depth, player, ai) matches Some(m) && in_bounds(m.0, m.1) && g[m.0][m.1]
            == Cell::Empty,
{
    let n = empty_cells(g).len();
    lemma_best_value_bounds(g, (depth - 1) as nat, player, ai, n);
    lemma_empty_cells_are_empty(g, best_index(g, (depth - 1) as nat, player, ai, n));
}

/// What the earlier children have left behind, when the pruned search that
/// began with the window `alpha0`, `beta0` comes to the `i`-th child: the
/// window has been narrowed by the best score alone, and that score stands in
/// a known relation to the best minimax value of the children before `i`.
pub open spec fn search_state(
    g: Grid,
    d: nat,
    alpha0: int,
    beta0: int,
    alpha: int,
    beta: int,
    player: Cell,
    ai: Cell,
    i: int,
    best: int,
    best_move: Option<(int, int)>,
) -> bool {
    let plain = best_value(g, d, player, ai, i as nat);
    let chosen = Some(empty_cells(g)[best_index(g, d, player, ai, i as nat)]);
    &&& 0 <= i <= empty_cells(g).len()
    &&& i32::MIN <= alpha0 < beta0 <= i32::MAX
    &&& alpha < beta
    &&& i == 0 ==> best == worst(player == ai)
    &&& i > 0 ==> -SCORE_BOUND <= best <= SCORE_BOUND
    &&& player == ai ==> {
        &&& beta == beta0
        &&& alpha == (if best > alpha0 {
            best
        } else {
            alpha0
        })
        &&& plain <= best
        &&& best > alpha0 ==> plain == best && best_move == chosen
    }
    &&& player != ai ==> {
        &&& alpha == alpha0
        &&& beta == (if best < beta0 {
            best
        } else {
            beta0
        })
        &&& plain >= best
        &&& best < beta0 ==> plain == best && best_move == chosen
    }
}

/// What a pruned search promises about the score `r` and the move `m` that
/// it returns for the window `alpha`, `beta`, where minimax gives the value
/// `v` and recommends `chosen`: a score at or below `alpha` is an upper bound
/// of `v`, a score at or above `beta` a lower bound, and a score strictly
/// inside the window is `v` itself and comes with the recommended move.
pub open spec fn agrees(
    alpha: int,
    beta: int,
    r: int,
    m: Option<(int, int)>,
    v: int,
    chosen: Option<(int, int)>,
) -> bool {
    &&& r <= alpha ==> v <= r
    &&& r >= beta ==> v >= r
    &&& alpha < r < beta ==> r == v && m == chosen
}

/// The pruned search agrees with minimax: for every window `alpha < beta`
/// within the range of `i32`, the score of `alphabeta` bounds the minimax
/// value from the side on which it left the window, and strictly inside the
/// window it is the minimax value and comes with the move that minimax
/// recommends.
pub proof fn lemma_alphabeta_agrees(
    g: Grid,
    depth: nat,
    alpha: int,
    beta: int,
    player: Cell,
    ai: Cell,
)
    requires
        i32::MIN <= alpha < beta <= i32::MAX,
    ensures
        -SCORE_BOUND <= alphabeta(g, depth, alpha, beta, player, ai).0 <= SCORE_BOUND,
        agrees(
            alpha,
            beta,
            alphabeta(g, depth, alpha, beta, player, ai).0,
            alphabeta(g, depth, alpha, beta, player, ai).1,
            minimax_value(g, depth, player, ai),
            best_move(g, depth, player, ai),
        ),
    decreases depth, 0nat, 0nat,
{
    if is_leaf(g, depth) {
        lemma_evaluation_bounds(g, ai);
    } else {
        lemma_search_agrees(
            g,
            (depth - 1) as nat,
            alpha,
            beta,
            alpha,
            beta,
            player,
            ai,
            0,
            worst(player == ai),
            None,
        );
    }
}

/// The same, for the search over the children from the `i`-th on.
pub proof fn lemma_search_agrees(
    g: Grid,
    d: nat,
    alpha0: int,
    beta0: int,
    alpha: int,
    beta: int,
    player: Cell,
    ai: Cell,
    i: int,
    best: int,
    best_move: Option<(int, int)>,
)
    requires
        search_state(g, d, alpha0, beta0, alpha, beta, player, ai, i, best, best_move),
        empty_cells(g).len() > 0,
    ensures
        -SCORE_BOUND <= search_from(g, d, alpha, beta, player, ai, i, best, best_move).0
            <= SCORE_BOUND,
        agrees(
            alpha0,
            beta0,
            search_from(g, d, alpha, beta, player, ai, i, best, best_move).0,
            search_from(g, d, alpha, beta, player, ai, i, best, best_move).1,
            best_value(g, d, player, ai, empty_cells(g).len()),
            Some(empty_cells(g)[best_index(g, d, player, ai, empty_cells(g).len())]),
        ),
    decreases d, 1nat, empty_cells(g).len() - i,
{
    let n = empty_cells(g).len();
    if i < n {
        let next = child(g, player, i);
        let e = alphabeta(next, d, alpha, beta, opponent(player), ai).0;
        let v = minimax_value(next, d, opponent(player), ai);
        lemma_alphabeta_agrees(next, d, alpha, beta, opponent(player), ai);
        lemma_minimax_value_bounds(next, d, opponent(player), ai);
        let improved = improves(player == ai, e, best);
        let best2 = if improved {
            e
        } else {
            best
        };
        let move2 = if improved {
            Some(empty_cells(g)[i])
        } else {
            best_move
        };
        let alpha2 = if player == ai && e > alpha {
            e
        } else {
            alpha
        };
        let beta2 = if player != ai && e < beta {
            e
        } else {
            beta
        };
        if beta2 <= alpha2 {
            lemma_best_value_dominates(g, d, player, ai, n, i);
        } else {
            assert(best_value(g, d, player, ai, (i + 1) as nat) == if improves(
                player == ai,
                v,
                best_value(g, d, player, ai, i as nat),
            ) {
                v
            } else {
                best_value(g, d, player, ai, i as nat)
            });
            assert(search_state(
                g,
                d,
                alpha0,
                beta0,
                alpha2,
                beta2,
                player,
                ai,
                i + 1,
                best2,
                move2,
            ));
            lemma_search_agrees(g, d, alpha0, beta0, alpha2, beta2, player, ai, i + 1, best2, move2);
        }
    }
}

} // verus!
