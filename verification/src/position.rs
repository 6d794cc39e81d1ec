//! The mathematical model of a position: what a position text records.

use crate::board::{grid_wf, on_board, Grid};
use crate::piece::Colour;
use vstd::prelude::*;

verus! {

/// A position as a mathematical value: the board and the rule state that
/// goes with it.
pub struct Position {
    /// The pieces, row by row.
    pub board: Grid,
    /// The side to move.
    pub turn: Colour,
    /// The castling rights: White kingside, White queenside, Black kingside,
    /// Black queenside.
    pub castlings: (bool, bool, bool, bool),
    /// The square that a pawn may capture on in passing, if there is one.
    pub en_passant: Option<(int, int)>,
    /// The number of moves since the last capture or pawn move.
    pub halfmove_clock: nat,
    /// The number of the move.
    pub fullmove: nat,
}

impl Position {
    /// A position that a game can hold: a full board, an en passant square on
    /// the board if there is one, and counters that fit the machine.
    pub open spec fn wf(self) -> bool {
        &&& grid_wf(self.board)
        &&& (self.en_passant matches Some(sq) ==> on_board(sq.0, sq.1))
        &&& self.halfmove_clock <= usize::MAX
        &&& self.fullmove <= usize::MAX
    }
}

/// The stored value that stands for "no en passant square".
pub open spec fn no_square() -> (usize, usize) {
    (8, 8)
}

/// Whether a stored en passant square is either a square of the board or
/// the value that stands for none.
pub open spec fn en_passant_wf(sq: (usize, usize)) -> bool {
    on_board(sq.0 as int, sq.1 as int) || sq == no_square()
}

/// The en passant square that a stored pair stands for: any pair off the
/// board stands for none.
pub open spec fn en_passant_model(sq: (usize, usize)) -> Option<(int, int)> {
    if on_board(sq.0 as int, sq.1 as int) {
        Some((sq.0 as int, sq.1 as int))
    } else {
        None
    }
}

} // verus!
