//! The rules of chess on a single position: the moves of each piece, check
//! and checkmate, the execution of a move with all its side effects, and the
//! position's text notation.
//!
//! A [`Game`] holds one position. It is made at the standard start or read
//! from a position text, and it changes only by [`Game::take_turn`], which
//! plays one move, by [`Game::select_promotion`], and by
//! [`Game::set_state_from_fen`], which replaces the position.
//!
//! The contracts speak of mathematical models: a board is a grid of pieces
//! ([`board`]), a position is a grid with its rule state ([`position`]), and
//! the rules are predicates on them ([`rules`], [`turn`]). The notation is
//! described in [`fen`]. What holds of rules and notation beyond the
//! contracts of single functions is proved in [`laws`] and [`fen_laws`].

pub mod attack;
pub mod board;
pub mod display;
pub mod fen;
pub mod fen_laws;
pub mod game;
pub mod king;
pub mod laws;
pub mod legal;
pub mod moves;
pub mod piece;
pub mod position;
pub mod rules;
pub mod seqs;
pub mod text;
pub mod turn;

pub use display::fen_into_display;
pub use fen::{convert_square, FenError};
pub use game::{Game, GameState, InvalidPromotion};
pub use legal::clean_moves;
pub use piece::{Colour, Piece};
