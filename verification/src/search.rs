//! The search: depth-limited minimax with alpha-beta pruning.

use vstd::prelude::*;
use crate::board::{in_bounds, opponent, with_stone, Cell, Grid, BOARD_SIZE};
use crate::eval::evaluation;
use crate::game::Gomoku;
use crate::pruning::{lemma_alphabeta_agrees, lemma_best_move_is_legal};
use crate::rules::{as_points, empty_cells, has_five, is_full};

verus! {

/// The number of plies that `ai_move` looks ahead.
pub const MAX_DEPTH: u32 = 3;

/// A position at which the search stops and evaluates: the depth is used up,
/// a line of five stands, or no empty point is left.
pub open spec fn is_leaf(g: Grid, depth: nat) -> bool {
    depth == 0 || has_five(g) || is_full(g) || empty_cells(g).len() == 0
}

/// The position after `player` has played the `i`-th legal move.
pub open spec fn child(g: Grid, player: Cell, i: int) -> Grid {
    let m = empty_cells(g)[i];
    with_stone(g, m.0, m.1, player)
}

/// The value that stands for "no move examined yet": below every score for
/// the side that maximizes, above every score for the side that minimizes.
pub open spec fn worst(maximizing: bool) -> int {
    if maximizing {
        i32::MIN as int
    } else {
        i32::MAX as int
    }
}

/// `e` is strictly better than `best` for the side that chooses.
pub open spec fn improves(maximizing: bool, e: int, best: int) -> bool {
    if maximizing {
        e > best
    } else {
        e < best
    }
}

/// The minimax value of a position for `ai`, `depth` plies deep, with
/// `player` to move: the evaluation at a leaf; elsewhere the largest value of
/// a child where `player` is `ai`, and the smallest where it is not.
pub open spec fn minimax_value(g: Grid, depth: nat, player: Cell, ai: Cell) -> int
    decreases depth, 0nat, 0nat,
{
    if is_leaf(g, depth) {
        evaluation(g, ai)
    } else {
        best_value(g, (depth - 1) as nat, player, ai, empty_cells(g).len())
    }
}

/// The best, for `player`, of the minimax values of the first `n` children,
/// each searched `d` plies deep.
pub open spec fn best_value(g: Grid, d: nat, player: Cell, ai: Cell, n: nat) -> int
    decreases d, 1nat, n,
{
    if n == 0 {
        worst(player == ai)
    } else {
        let rest = best_value(g, d, player, ai, (n - 1) as nat);
        let v = minimax_value(child(g, player, n - 1), d, opponent(player), ai);
        if improves(player == ai, v, rest) {
            v
        } else {
            rest
        }
    }
}

/// The index of the first of the first `n` children whose minimax value is
/// the best among them; `-1` where `n` is 0.
pub open spec fn best_index(g: Grid, d: nat, player: Cell, ai: Cell, n: nat) -> int
    decreases n,
{
    if n == 0 {
        -1
    } else {
        let rest = best_value(g, d, player, ai, (n - 1) as nat);
        let v = minimax_value(child(g, player, n - 1), d, opponent(player), ai);
        if improves(player == ai, v, rest) {
            n - 1
        } else {
            best_index(g, d, player, ai, (n - 1) as nat)
        }
    }
}

/// The move that minimax recommends to `player`, `depth` plies deep, where
/// positions are scored for `ai`: the first legal move, in row-major order,
/// whose position has the best minimax value for `player`. `None` at a leaf.
pub open spec fn best_move(g: Grid, depth: nat, player: Cell, ai: Cell) -> Option<(int, int)> {
    if is_leaf(g, depth) {
        None
    } else {
        Some(
            empty_cells(g)[best_index(g, (depth - 1) as nat, player, ai, empty_cells(g).len())],
        )
    }
}

/// The centre of the board, which `ai_move` returns where the search finds no move.
pub open spec fn centre() -> (int, int) {
    ((BOARD_SIZE / 2) as int, (BOARD_SIZE / 2) as int)
}

/// The move that `ai_move` returns for `player`: the move that minimax
/// recommends `MAX_DEPTH` plies deep, or the centre where there is none.
pub open spec fn recommended_move(g: Grid, player: Cell) -> (int, int) {
    match best_move(g, MAX_DEPTH as nat, player, player) {
        Some(m) => m,
        None => centre(),
    }
}

/// What the pruned search returns at a position: a score and, away from a
/// leaf, the move that achieved it. `alpha` and `beta` bound the scores that
/// still matter to the callers.
pub open spec fn alphabeta(
    g: Grid,
    depth: nat,
    alpha: int,
    beta: int,
    player: Cell,
    ai: Cell,
) -> (int, Option<(int, int)>)
    decreases depth, 0nat, 0nat,
{
    if is_leaf(g, depth) {
        (evaluation(g, ai), None)
    } else {
        search_from(g, (depth - 1) as nat, alpha, beta, player, ai, 0, worst(player == ai), None)
    }
}

/// The pruned search over the children from the `i`-th on, where the earlier
/// ones have left the window `alpha`, `beta`, the score `best` and the move
/// `best_move`. A child replaces the best only where it is strictly better;
/// the search stops as soon as `beta <= alpha`.
pub open spec fn search_from(
    g: Grid,
    d: nat,
    alpha: int,
    beta: int,
    player: Cell,
    ai: Cell,
    i: int,
    best: int,
    best_move: Option<(int, int)>,
) -> (int, Option<(int, int)>)
    decreases d, 1nat, empty_cells(g).len() - i,
{
    if 0 <= i < empty_cells(g).len() {
        let e = alphabeta(child(g, player, i), d, alpha, beta, opponent(player), ai).0;
        let improved = improves(player == ai, e, best);
        let best2 = if improved {
            e
        } else {
            best
        };
        let move2 = if improved {
            Some(empty_cells(g)[i])
        } else {
            best_move
        };
        let alpha2 = if player == ai && e > alpha {
            e
        } else {
            alpha
        };
        let beta2 = if player != ai && e < beta {
            e
        } else {
            beta
        };
        if beta2 <= alpha2 {
            (best2, move2)
        } else {
            search_from(g, d, alpha2, beta2, player, ai, i + 1, best2, move2)
        }
    } else {
        (best, best_move)
    }
}

/// A move as a pair of mathematical integers.
pub open spec fn move_view(m: Option<(usize, usize)>) -> Option<(int, int)> {
    match m {
        Some((r, c)) => Some((r as int, c as int)),
        None => None,
    }
}

impl Cell {
    /// The other colour; `Empty` stays `Empty`.
    pub fn opponent(self) -> (other: Cell)
        ensures
            other == opponent(self),
    {
        match self {
            Cell::White => Cell::Black,
            Cell::Black => Cell::White,
            Cell::Empty => Cell::Empty,
        }
    }
}

impl Gomoku {
    /// Minimax with alpha-beta pruning, `depth` plies deep, with `player` to
    /// move, scored for `ai_player`. Returns the score and, away from a leaf,
    /// the move that achieved it.
    pub fn minimax(
        &self,
        depth: u32,
        alpha: i32,
        beta: i32,
        player: Cell,
        ai_player: Cell,
    ) -> (res: (i32, Option<(usize, usize)>))
        ensures
            (res.0 as int, move_view(res.1)) == alphabeta(
                self@.board,
                depth as nat,
                alpha as int,
                beta as int,
                player,
                ai_player,
            ),
            res.1 matches Some((r, c)) ==> in_bounds(r as int, c as int),
        decreases depth,
    {
        let ghost g = self@.board;
        if depth == 0 || self.check_winner().is_some() || self.is_board_full() {
            return (self.evaluate(ai_player), None);
        }
        let valid_moves = self.get_valid_moves();
        if valid_moves.len() == 0 {
            return (self.evaluate(ai_player), None);
        }
        let ghost d = (depth - 1) as nat;
        let ghost goal = alphabeta(g, depth as nat, alpha as int, beta as int, player, ai_player);
        let maximizing = player == ai_player;
        let mut best_move: Option<(usize, usize)> = None;
        let mut alpha = alpha;
        let mut beta = beta;
        let mut best: i32 = if maximizing {
            i32::MIN
        } else {
            i32::MAX
        };
        let mut i: usize = 0;
        assert(as_points(valid_moves@).len() == valid_moves@.len());
        while i < valid_moves.len()
            invariant_except_break
                goal == search_from(
                    g,
                    d,
                    alpha as int,
                    beta as int,
                    player,
                    ai_player,
                    i as int,
                    best as int,
                    move_view(best_move),
                ),
            invariant
                g == self@.board,
                depth >= 1,
                d == depth - 1,
                maximizing == (player == ai_player),
                i <= valid_moves.len(),
                valid_moves@.len() == empty_cells(g).len(),
                as_points(valid_moves@) == empty_cells(g),
                forall|j: int|
                    0 <= j < valid_moves.len() ==> in_bounds(
                        (#[trigger] valid_moves[j]).0 as int,
                        valid_moves[j].1 as int,
                    ),
                best_move matches Some((r, c)) ==> in_bounds(r as int, c as int),
            ensures
                goal == (best as int, move_view(best_move)),
                best_move matches Some((r, c)) ==> in_bounds(r as int, c as int),
            decreases valid_moves.len() - i,
        {
            let (row, col) = valid_moves[i];
            assert(empty_cells(g)[i as int] == (row as int, col as int)) by {
                assert(as_points(valid_moves@)[i as int] == (row as int, col as int));
            }
            let new_game = self.with_move(row, col, player);
            let (eval, _) = new_game.minimax(depth - 1, alpha, beta, player.opponent(), ai_player);
            if maximizing {
                if eval > best {
                    best = eval;
                    best_move = Some((row, col));
                }
                if eval > alpha {
                    alpha = eval;
                }
            } else {
                if eval < best {
                    best = eval;
                    best_move = Some((row, col));
                }
                if eval < beta {
                    beta = eval;
                }
            }
            if beta <= alpha {
                break ;
            }
            i += 1;
        }
        (best, best_move)
    }

    /// The move that the search recommends to the side to move: the first
    /// legal move, in row-major order, that leads to the position of the
    /// largest minimax value for that side, `MAX_DEPTH` plies deep. Where the
    /// game is over, or the board is full, it is the centre of the board. The
    /// stone is not placed.
    pub fn ai_move(&mut self) -> (mv: (usize, usize))
        ensures
            final(self)@ == old(self)@,
            (mv.0 as int, mv.1 as int) == recommended_move(
                old(self)@.board,
                old(self)@.current_player,
            ),
            in_bounds(mv.0 as int, mv.1 as int),
            !is_leaf(old(self)@.board, MAX_DEPTH as nat) ==> old(self)@.board[mv.0 as int][mv.1 as int]
                == Cell::Empty,
    {
        proof {
            self.view_unfolded();
        }
        let ghost g = self@.board;
        let player = self.current_player;
        let (_, best_move) = self.minimax(MAX_DEPTH, i32::MIN, i32::MAX, player, player);
        proof {
            lemma_alphabeta_agrees(
                g,
                MAX_DEPTH as nat,
                i32::MIN as int,
                i32::MAX as int,
                player,
                player,
            );
            if !is_leaf(g, MAX_DEPTH as nat) {
                lemma_best_move_is_legal(g, MAX_DEPTH as nat, player, player);
            }
        }
        match best_move {
            Some(m) => m,
            None => (BOARD_SIZE / 2, BOARD_SIZE / 2),
        }
    }
}

} // verus!
