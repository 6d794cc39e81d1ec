//! The moves of the king: a step in any direction, and castling.

use crate::attack::threatened_by;
use crate::board::{grid, grid_wf, on_board, piece_at};
use crate::moves::{lists_square, push_jump, push_square};
use crate::piece::{Colour, Piece};
use crate::rules::{castles_kingside, castles_queenside, is_attacked, king_reaches, king_steps};
use vstd::prelude::*;

verus! {

impl Piece {
    /// The squares that the piece reaches from `pos` as a king does: the
    /// squares next to it that are empty or hold an enemy, and the squares
    /// it may castle to. `castlings` holds the rights: White kingside, White
    /// queenside, Black kingside, Black queenside. A right is taken at its
    /// word: nothing asks whether the king stands on its home square or a
    /// rook in the corner.
    pub fn get_king_moves(
        &self,
        pos: (usize, usize),
        board: &Vec<Vec<Piece>>,
        castlings: (bool, bool, bool, bool),
    ) -> (moves: Vec<(usize, usize)>)
        requires
            grid_wf(grid(board)),
            on_board(pos.0 as int, pos.1 as int),
            self.colour() is Some,
        ensures
            moves@.no_duplicates(),
            forall|sq: (usize, usize)| #[trigger]
                moves@.contains(sq) <==> king_reaches(
                    grid(board),
                    self.colour()->0,
                    castlings,
                    pos.0 as int,
                    pos.1 as int,
                    sq.0 as int,
                    sq.1 as int,
                ),
    {
        let ghost g = grid(board);
        let side: Colour = match self.get_colour() {
            Some(c) => *c,
            None => Colour::White,
        };
        let mut moves: Vec<(usize, usize)> = Vec::new();
        push_jump(&mut moves, board, side, pos, -1, -1);
        push_jump(&mut moves, board, side, pos, -1, 0);
        push_jump(&mut moves, board, side, pos, -1, 1);
        push_jump(&mut moves, board, side, pos, 0, -1);
        push_jump(&mut moves, board, side, pos, 0, 1);
        push_jump(&mut moves, board, side, pos, 1, -1);
        push_jump(&mut moves, board, side, pos, 1, 0);
        push_jump(&mut moves, board, side, pos, 1, 1);
        assert forall|sq: (usize, usize)| #[trigger]
            moves@.contains(sq) <==> king_steps(
                g,
                side,
                pos.0 as int,
                pos.1 as int,
                sq.0 as int,
                sq.1 as int,
            ) by {}
        let (home, kingside, queenside): (usize, bool, bool) = match side {
            Colour::White => (7, castlings.0, castlings.1),
            Colour::Black => (0, castlings.2, castlings.3),
        };
        if kingside || queenside {
            let threatened: Vec<(usize, usize)> = threatened_by(board, side.other());
            let safe_here: bool = !lists_square(&threatened, pos);
            assert(safe_here == !is_attacked(g, side.opposite(), pos.0 as int, pos.1 as int));
            if kingside && safe_here && piece_at(board, home, 5) == Piece::Empty && piece_at(
                board,
                home,
                6,
            ) == Piece::Empty && !lists_square(&threatened, (home, 5)) && !lists_square(
                &threatened,
                (home, 6),
            ) {
                assert(castles_kingside(g, side, castlings, pos.0 as int, pos.1 as int));
                if !lists_square(&moves, (home, 6)) {
                    push_square(&mut moves, (home, 6));
                }
            } else {
                assert(threatened@.contains((home, 5)) <==> is_attacked(
                    g,
                    side.opposite(),
                    home as int,
                    5,
                ));
                assert(threatened@.contains((home, 6)) <==> is_attacked(
                    g,
                    side.opposite(),
                    home as int,
                    6,
                ));
                assert(!castles_kingside(g, side, castlings, pos.0 as int, pos.1 as int));
            }
            if queenside && safe_here && piece_at(board, home, 3) == Piece::Empty && piece_at(
                board,
                home,
                2,
            ) == Piece::Empty && piece_at(board, home, 1) == Piece::Empty && !lists_square(
                &threatened,
                (home, 3),
            ) && !lists_square(&threatened, (home, 2)) {
                assert(castles_queenside(g, side, castlings, pos.0 as int, pos.1 as int));
                if !lists_square(&moves, (home, 2)) {
                    push_square(&mut moves, (home, 2));
                }
            } else {
                assert(threatened@.contains((home, 3)) <==> is_attacked(
                    g,
                    side.opposite(),
                    home as int,
                    3,
                ));
                assert(threatened@.contains((home, 2)) <==> is_attacked(
                    g,
                    side.opposite(),
                    home as int,
                    2,
                ));
                assert(!castles_queenside(g, side, castlings, pos.0 as int, pos.1 as int));
            }
        }
        moves
    }
}

} // verus!
