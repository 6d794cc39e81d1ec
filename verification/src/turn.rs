//! What a move does to a game, as functions on the mathematical model: the
//! side effects of castling and of capturing in passing, the rule state
//! after the move, and the state that the move leaves.

use crate::board::{on_board, relocated, with_piece, Grid};
use crate::fen::parse_square;
use crate::game::{GameState, GameView};
use crate::piece::{Colour, Piece};
use crate::position::Position;
use crate::rules::{
    far_row, forward, home_row, in_check, kingside_right, legal, queenside_right,
};
use crate::text::split;
use vstd::prelude::*;

verus! {

// ---------------------------------------------------------------------------
// The state of a position
// ---------------------------------------------------------------------------
/// Whether a piece of `side` stands on `(r, c)` and may legally move to
/// `(tr, tc)`.
pub open spec fn reply(
    g: Grid,
    en_passant: Option<(int, int)>,
    rights: (bool, bool, bool, bool),
    side: Colour,
    r: int,
    c: int,
    tr: int,
    tc: int,
) -> bool {
    on_board(r, c) && g[r][c].owned_by(side) && legal(g, en_passant, rights, r, c, tr, tc)
}

/// Whether `side` has a legal move.
pub open spec fn has_reply(
    g: Grid,
    en_passant: Option<(int, int)>,
    rights: (bool, bool, bool, bool),
    side: Colour,
) -> bool {
    exists|r: int, c: int, tr: int, tc: int| #[trigger]
        reply(g, en_passant, rights, side, r, c, tr, tc)
}

/// Whether `side` is in check, with no look at the moves it has: `Check` or
/// `InProgress`.
pub open spec fn check_state(g: Grid, side: Colour) -> GameState {
    if in_check(g, side) {
        GameState::Check
    } else {
        GameState::InProgress
    }
}

/// The state of a position: `Checkmate` if the side to move is in check and
/// has no legal move, `Check` if it is in check and has one, `InProgress`
/// if it is not in check, whether or not it has a move.
pub open spec fn state_of(p: Position) -> GameState {
    if !in_check(p.board, p.turn) {
        GameState::InProgress
    } else if has_reply(p.board, p.en_passant, p.castlings, p.turn) {
        GameState::Check
    } else {
        GameState::Checkmate
    }
}

// ---------------------------------------------------------------------------
// A move and what it changes
// ---------------------------------------------------------------------------
/// The two squares that a move text names: two squares with one space
/// between them, as in `e2 e4`.
pub open spec fn parse_move(s: Seq<char>) -> Option<((int, int), (int, int))> {
    let parts = split(s, ' ');
    if parts.len() == 2 && parse_square(parts[0]) is Some && parse_square(parts[1]) is Some {
        Some((parse_square(parts[0])->0, parse_square(parts[1])->0))
    } else {
        None
    }
}

/// Whether the side to move may move the piece on `from` to `to`: the piece
/// is its own and the move is legal.
pub open spec fn accepts(p: Position, from: (int, int), to: (int, int)) -> bool {
    &&& on_board(from.0, from.1)
    &&& on_board(to.0, to.1)
    &&& p.board[from.0][from.1].owned_by(p.turn)
    &&& legal(p.board, p.en_passant, p.castlings, from.0, from.1, to.0, to.1)
}

/// The move that a text asks for, if the text names one and the side to move
/// may make it.
pub open spec fn requested_move(p: Position, text: Seq<char>) -> Option<((int, int), (int, int))> {
    match parse_move(text) {
        Some((from, to)) => if accepts(p, from, to) {
            Some((from, to))
        } else {
            None
        },
        None => None,
    }
}

/// Whether the move of the piece `p` to `to` is taken for castling on the
/// king's side: a king arrives on the `g` file of its home row while its
/// side has the right.
pub open spec fn is_kingside_castling(
    p: Piece,
    rights: (bool, bool, bool, bool),
    to: (int, int),
) -> bool {
    p matches Piece::King(side) && to == (home_row(side), 6int) && kingside_right(rights, side)
}

/// Whether the move of the piece `p` to `to` is taken for castling on the
/// queen's side: a king arrives on the `c` file of its home row while its
/// side has the right.
pub open spec fn is_queenside_castling(
    p: Piece,
    rights: (bool, bool, bool, bool),
    to: (int, int),
) -> bool {
    p matches Piece::King(side) && to == (home_row(side), 2int) && queenside_right(rights, side)
}

/// Whether the move of the piece `p` to `to` is a pawn's arrival on the en
/// passant square.
pub open spec fn is_en_passant(p: Piece, en_passant: Option<(int, int)>, to: (int, int)) -> bool {
    p is Pawn && en_passant == Some(to)
}

/// The board after the side effects of moving the piece `p` to `to`, before
/// the piece itself is moved. Castling sets the rook of the king's colour
/// beside the king and empties the rook's corner; a pawn that arrives on the
/// en passant square empties the square one row behind it.
pub open spec fn side_effects(
    g: Grid,
    p: Piece,
    rights: (bool, bool, bool, bool),
    en_passant: Option<(int, int)>,
    to: (int, int),
) -> Grid {
    match p {
        Piece::King(side) => {
            let h = home_row(side);
            if is_kingside_castling(p, rights, to) {
                with_piece(with_piece(g, h, 7, Piece::Empty), h, 5, Piece::Rook(side))
            } else if is_queenside_castling(p, rights, to) {
                with_piece(with_piece(g, h, 0, Piece::Empty), h, 3, Piece::Rook(side))
            } else {
                g
            }
        },
        Piece::Pawn(side) => {
            if is_en_passant(p, en_passant, to) {
                with_piece(g, to.0 - forward(side), to.1, Piece::Empty)
            } else {
                g
            }
        },
        _ => g,
    }
}

/// The piece that stands on `to` once `p` has arrived there: a pawn on the
/// far row of its colour becomes the chosen piece, in the pawn's colour.
pub open spec fn arrived(p: Piece, promotion: Piece, to: (int, int)) -> Piece {
    match p {
        Piece::Pawn(side) => if to.0 == far_row(side) {
            promotion.recoloured(side)
        } else {
            p
        },
        _ => p,
    }
}

/// The board after the piece on `from` has moved to `to`: first the side
/// effects, then the piece that stood on `from` is set down on `to`, as
/// what it has become there, and `from` is emptied.
pub open spec fn board_after(
    g: Grid,
    rights: (bool, bool, bool, bool),
    en_passant: Option<(int, int)>,
    promotion: Piece,
    from: (int, int),
    to: (int, int),
) -> Grid {
    let p = g[from.0][from.1];
    relocated(side_effects(g, p, rights, en_passant, to), from, to, arrived(p, promotion, to))
}

/// The rights that are left once a piece has left or reached `sq`: a corner
/// takes the right of its rook, a king's home square both rights of its
/// colour.
pub open spec fn rights_without(rights: (bool, bool, bool, bool), sq: (int, int)) -> (
    bool,
    bool,
    bool,
    bool,
) {
    if sq == (7int, 7int) {
        (false, rights.1, rights.2, rights.3)
    } else if sq == (7int, 0int) {
        (rights.0, false, rights.2, rights.3)
    } else if sq == (7int, 4int) {
        (false, false, rights.2, rights.3)
    } else if sq == (0int, 7int) {
        (rights.0, rights.1, false, rights.3)
    } else if sq == (0int, 0int) {
        (rights.0, rights.1, rights.2, false)
    } else if sq == (0int, 4int) {
        (rights.0, rights.1, false, false)
    } else {
        rights
    }
}

/// The rights that are left once the piece `p` has moved from `from` to
/// `to`: a king that moves gives up both rights of its colour, and both
/// squares of the move take the rights tied to them.
pub open spec fn rights_after(
    rights: (bool, bool, bool, bool),
    p: Piece,
    from: (int, int),
    to: (int, int),
) -> (bool, bool, bool, bool) {
    let kept = match p {
        Piece::King(Colour::White) => (false, false, rights.2, rights.3),
        Piece::King(Colour::Black) => (rights.0, rights.1, false, false),
        _ => rights,
    };
    rights_without(rights_without(kept, from), to)
}

/// The en passant square after the piece `p` has moved from `from` to `to`:
/// the square passed over if a pawn has advanced two rows, else none.
pub open spec fn en_passant_after(p: Piece, from: (int, int), to: (int, int)) -> Option<
    (int, int),
> {
    match p {
        Piece::Pawn(side) => if to.0 == from.0 + 2 * forward(side) {
            Some((from.0 + forward(side), from.1))
        } else {
            None
        },
        _ => None,
    }
}

/// The halfmove clock after the piece `p` has moved onto a square that held
/// `target`: 0 after a pawn move or a capture, else one more than before.
pub open spec fn clock_after(clock: nat, p: Piece, target: Piece) -> nat {
    if p is Pawn || !(target is Empty) {
        0
    } else {
        clock + 1
    }
}

/// The position after the piece on `from` has moved to `to`.
pub open spec fn position_after(
    p: Position,
    promotion: Piece,
    from: (int, int),
    to: (int, int),
) -> Position {
    let piece = p.board[from.0][from.1];
    Position {
        board: board_after(p.board, p.castlings, p.en_passant, promotion, from, to),
        turn: p.turn.opposite(),
        castlings: rights_after(p.castlings, piece, from, to),
        en_passant: en_passant_after(piece, from, to),
        halfmove_clock: clock_after(p.halfmove_clock, piece, p.board[to.0][to.1]),
        fullmove: if p.turn == Colour::Black {
            p.fullmove + 1
        } else {
            p.fullmove
        },
    }
}

/// The game after the piece on `from` has moved to `to`: the new position,
/// the promotion choice kept in kind and given the colour of the side now
/// to move, and the state of the new position.
pub open spec fn game_after(v: GameView, from: (int, int), to: (int, int)) -> GameView {
    let q = position_after(v.position, v.promotion, from, to);
    GameView { position: q, promotion: v.promotion.recoloured(q.turn), state: state_of(q) }
}

} // verus!
