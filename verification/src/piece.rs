//! Colours and pieces: the closed set of values a square can hold.

use vstd::prelude::*;

verus! {

/// The two sides.
#[derive(Debug, Clone, Copy, PartialEq, Eq, Structural)]
pub enum Colour {
    White,
    Black,
}

impl Colour {
    /// The other side.
    pub open spec fn opposite(self) -> Colour {
        match self {
            Colour::White => Colour::Black,
            Colour::Black => Colour::White,
        }
    }

    /// The other side.
    pub fn other(self) -> (res: Colour)
        ensures
            res == self.opposite(),
    {
        match self {
            Colour::White => Colour::Black,
            Colour::Black => Colour::White,
        }
    }
}

/// What a square holds: a piece of some kind and colour, or nothing.
#[derive(Debug, Clone, Copy, PartialEq, Eq, Structural)]
pub enum Piece {
    King(Colour),
    Queen(Colour),
    Rook(Colour),
    Bishop(Colour),
    Knight(Colour),
    Pawn(Colour),
    Empty,
}

impl Piece {
    /// The colour that owns the piece; `None` for an empty square.
    pub open spec fn colour(self) -> Option<Colour> {
        match self {
            Piece::King(c) | Piece::Queen(c) | Piece::Rook(c) | Piece::Bishop(c) | Piece::Knight(
                c,
            ) | Piece::Pawn(c) => Some(c),
            Piece::Empty => None,
        }
    }

    /// Whether the piece belongs to `side`. An empty square belongs to nobody.
    pub open spec fn owned_by(self, side: Colour) -> bool {
        self.colour() == Some(side)
    }

    /// Whether a piece of `side` may land on a square holding `self`:
    /// the square is empty or holds an enemy piece.
    pub open spec fn open_to(self, side: Colour) -> bool {
        !self.owned_by(side)
    }

    /// The same kind of piece in the given colour. An empty square stays empty.
    pub open spec fn recoloured(self, side: Colour) -> Piece {
        match self {
            Piece::King(_) => Piece::King(side),
            Piece::Queen(_) => Piece::Queen(side),
            Piece::Rook(_) => Piece::Rook(side),
            Piece::Bishop(_) => Piece::Bishop(side),
            Piece::Knight(_) => Piece::Knight(side),
            Piece::Pawn(_) => Piece::Pawn(side),
            Piece::Empty => Piece::Empty,
        }
    }

    /// Whether a pawn may be promoted to this kind of piece.
    pub open spec fn is_promotion_choice(self) -> bool {
        self is Queen || self is Rook || self is Bishop || self is Knight
    }

    /// The colour that owns the piece; `None` for an empty square.
    pub fn get_colour(&self) -> (res: Option<&Colour>)
        ensures
            res is Some <==> self.colour() is Some,
            res matches Some(c) ==> Some(*c) == self.colour(),
    {
        match self {
            Piece::King(c) | Piece::Queen(c) | Piece::Rook(c) | Piece::Knight(c) | Piece::Bishop(
                c,
            ) | Piece::Pawn(c) => Some(c),
            Piece::Empty => None,
        }
    }

    /// Whether the piece belongs to `side`.
    pub fn is_owned_by(&self, side: Colour) -> (res: bool)
        ensures
            res == self.owned_by(side),
    {
        match self.get_colour() {
            Some(c) => *c == side,
            None => false,
        }
    }

    /// The same kind of piece in the given colour.
    pub fn with_colour(&self, side: Colour) -> (res: Piece)
        ensures
            res == self.recoloured(side),
    {
        match self {
            Piece::King(_) => Piece::King(side),
            Piece::Queen(_) => Piece::Queen(side),
            Piece::Rook(_) => Piece::Rook(side),
            Piece::Bishop(_) => Piece::Bishop(side),
            Piece::Knight(_) => Piece::Knight(side),
            Piece::Pawn(_) => Piece::Pawn(side),
            Piece::Empty => Piece::Empty,
        }
    }
}

} // verus!
