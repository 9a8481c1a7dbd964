//! Gomoku (five in a row) on a fixed 15x15 board: the rules of the game, a
//! heuristic evaluator and a depth-limited alpha-beta search, each with a
//! machine-checked contract.

pub mod board;
pub mod eval;
pub mod game;
pub mod host;
pub mod pruning;
pub mod rules;
pub mod scoring;
pub mod search;
pub mod session;
pub mod text;

pub use board::{Cell, MoveError, BOARD_SIZE, WIN_LENGTH};
pub use game::Gomoku;
pub use host::{board_size, WasmGomoku};
