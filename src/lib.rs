pub mod board;
pub mod coordinate;
pub mod fen;
pub mod grid;
pub mod laws;
pub mod piece;
pub mod player_move;
pub mod rules;

pub use board::{Board, DrawReason, GameOutcome, MoveError, WinReason};
pub use grid::Grid;
pub use player_move::PlayerMove;
