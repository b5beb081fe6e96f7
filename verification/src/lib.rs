//! A tic-tac-toe engine: a 3×3 board, the moves that may be made on it, and
//! the rules that decide when a game is won or drawn.
//!
//! [`Game`] holds the board and answers the questions of the game: whether a
//! move is legal, whether the last move has won, whether the board is full.
//! [`Game::play`] puts these together into one turn. What the answers mean is
//! defined on a mathematical board in [`grid`], together with the laws of the
//! game that follow from the definitions.

pub mod game;
pub mod grid;
pub mod input;
pub mod render;
pub mod symbol;

pub use game::{Game, MoveError, Status};
pub use input::{parse_move, InputError};
pub use symbol::{Player, Symbol};
