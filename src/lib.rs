//! Rules, binary codec and rollout search for Arx, a two-player 9x9 game
//! played with stackable pieces.

pub mod board;
pub mod engine;
pub mod error;
pub mod game;
pub mod gpu_layout;
pub mod rendering;
pub mod tui;

pub use board::{Board, Color, Piece, PieceType, Position, BOARD_DIMENSION, BOARD_SIZE};
pub use engine::{EngineConfig, MctsEngine, SearchStatistics};
pub use error::{EncodingError, MoveError, SearchError, SquareNameError};
pub use game::{Game, Move, PotentialMove};
