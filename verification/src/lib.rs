//! The rules of a falling-block puzzle game: pieces, board, collisions,
//! moves, locking, line clearing, hold, scoring, gravity and the life cycle
//! of a game.
//!
//! [`rules`] states the game on a mathematical state; [`game`] holds the
//! state in machine terms and is proved to follow the rules; [`laws`] proves
//! what holds of the rules whatever the player does.

pub mod board;
pub mod clock;
pub mod game;
pub mod input;
pub mod laws;
pub mod piece;
pub mod random;
pub mod rules;

pub use board::Board;
pub use game::GameState;
pub use input::{GameInput, Key};
pub use piece::{Piece, PieceColor, PieceKind};
pub use rules::Phase;
