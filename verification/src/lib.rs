//! A deterministic Tetris game-state engine.
//!
//! The engine is pure computation over in-memory state: a board of cells, an
//! optional falling piece, and a score. Each action (start, move, rotate,
//! drop, forfeit) is a verified state transition; the host environment owns
//! invocation and persistence around it.

pub mod board;
pub mod game;
pub mod pieces;
pub mod rotate;
pub mod state;

pub use board::{clear_lines, is_valid_move, is_valid_move_with_board, place_piece};
pub use game::{
    GameAction, GameResponse, Operation, SpawnPolicy, TetrisContractImpl, generate_new_piece,
    generate_random_piece,
};
pub use pieces::{PieceType, Tetromino, shape_for, tetromino_for};
pub use rotate::rotate_shape;
pub use state::{GameState, Piece, Position, empty_board, state_well_formed};
