//! The rules of movement, as predicates on a grid: which squares a piece
//! reaches, which it covers, when a side is in check, and which moves are
//! legal.
//!
//! Squares are pairs `(row, column)` of integers. Row 0 is Black's back
//! rank, so White's pawns move towards row 0 and Black's towards row 7.

use crate::board::{on_board, relocated, Grid};
use crate::piece::{Colour, Piece};
use vstd::prelude::*;

verus! {

// ---------------------------------------------------------------------------
// Geometry
// ---------------------------------------------------------------------------
/// The absolute value of `x`.
pub open spec fn abs(x: int) -> int {
    if x < 0 {
        -x
    } else {
        x
    }
}

/// The number of king steps from `(r, c)` to `(tr, tc)`.
pub open spec fn distance(r: int, c: int, tr: int, tc: int) -> int {
    if abs(tr - r) >= abs(tc - c) {
        abs(tr - r)
    } else {
        abs(tc - c)
    }
}

/// The coordinate `k` steps from `x` in the direction of the sign of `d`.
pub open spec fn shift(x: int, d: int, k: int) -> int {
    if d > 0 {
        x + k
    } else if d < 0 {
        x - k
    } else {
        x
    }
}

/// Whether `(dr, dc)` is one of the eight directions of the board.
pub open spec fn is_direction(dr: int, dc: int) -> bool {
    -1 <= dr <= 1 && -1 <= dc <= 1 && (dr != 0 || dc != 0)
}

/// Whether the square `k` steps from `(r, c)` in direction `(dr, dc)` is on
/// the board and empty.
pub open spec fn empty_at_step(g: Grid, r: int, c: int, dr: int, dc: int, k: int) -> bool {
    on_board(shift(r, dr, k), shift(c, dc, k)) && g[shift(r, dr, k)][shift(c, dc, k)] is Empty
}

/// Whether the first `k - 1` squares from `(r, c)` in direction `(dr, dc)`
/// are on the board and empty.
pub open spec fn ray_open(g: Grid, r: int, c: int, dr: int, dc: int, k: int) -> bool {
    forall|i: int| 1 <= i < k ==> #[trigger] empty_at_step(g, r, c, dr, dc, i)
}

/// Whether `(tr, tc)` lies on the ray from `(r, c)` in direction `(dr, dc)`,
/// at least one step away.
pub open spec fn on_ray(r: int, c: int, dr: int, dc: int, tr: int, tc: int) -> bool {
    let k = distance(r, c, tr, tc);
    k >= 1 && tr == shift(r, dr, k) && tc == shift(c, dc, k)
}

/// Whether a sliding piece of `side` on `(r, c)` reaches `(tr, tc)` in
/// direction `(dr, dc)`: the target is on the board and on the ray, every
/// square before it is empty, and it is itself empty or holds an enemy.
pub open spec fn slides(
    g: Grid,
    side: Colour,
    r: int,
    c: int,
    dr: int,
    dc: int,
    tr: int,
    tc: int,
) -> bool {
    &&& on_board(tr, tc)
    &&& on_ray(r, c, dr, dc, tr, tc)
    &&& ray_open(g, r, c, dr, dc, distance(r, c, tr, tc))
    &&& g[tr][tc].open_to(side)
}

/// The square `k` steps along a ray lies on the ray, `k` steps away.
pub proof fn lemma_step_on_ray(r: int, c: int, dr: int, dc: int, k: int)
    requires
        is_direction(dr, dc),
        k >= 1,
    ensures
        on_ray(r, c, dr, dc, shift(r, dr, k), shift(c, dc, k)),
        distance(r, c, shift(r, dr, k), shift(c, dc, k)) == k,
{
}

// ---------------------------------------------------------------------------
// Piece by piece
// ---------------------------------------------------------------------------
/// The squares that a rook of `side` on `(r, c)` reaches.
pub open spec fn rook_reaches(g: Grid, side: Colour, r: int, c: int, tr: int, tc: int) -> bool {
    ||| slides(g, side, r, c, 0, 1, tr, tc)
    ||| slides(g, side, r, c, 1, 0, tr, tc)
    ||| slides(g, side, r, c, 0, -1, tr, tc)
    ||| slides(g, side, r, c, -1, 0, tr, tc)
}

/// The squares that a bishop of `side` on `(r, c)` reaches.
pub open spec fn bishop_reaches(g: Grid, side: Colour, r: int, c: int, tr: int, tc: int) -> bool {
    ||| slides(g, side, r, c, 1, 1, tr, tc)
    ||| slides(g, side, r, c, 1, -1, tr, tc)
    ||| slides(g, side, r, c, -1, 1, tr, tc)
    ||| slides(g, side, r, c, -1, -1, tr, tc)
}

/// Whether `(tr, tc)` is a knight's jump away from `(r, c)`.
pub open spec fn knight_jump(r: int, c: int, tr: int, tc: int) -> bool {
    (abs(tr - r) == 1 && abs(tc - c) == 2) || (abs(tr - r) == 2 && abs(tc - c) == 1)
}

/// The squares that a knight of `side` on `(r, c)` reaches.
pub open spec fn knight_reaches(g: Grid, side: Colour, r: int, c: int, tr: int, tc: int) -> bool {
    on_board(tr, tc) && knight_jump(r, c, tr, tc) && g[tr][tc].open_to(side)
}

/// Whether `(tr, tc)` is a square of the board next to `(r, c)`.
pub open spec fn adjacent(r: int, c: int, tr: int, tc: int) -> bool {
    on_board(tr, tc) && distance(r, c, tr, tc) == 1
}

/// The squares that a king of `side` on `(r, c)` steps to.
pub open spec fn king_steps(g: Grid, side: Colour, r: int, c: int, tr: int, tc: int) -> bool {
    adjacent(r, c, tr, tc) && g[tr][tc].open_to(side)
}

/// The direction in which the pawns of `side` move: towards row 0 for
/// White, towards row 7 for Black.
pub open spec fn forward(side: Colour) -> int {
    match side {
        Colour::White => -1,
        Colour::Black => 1,
    }
}

/// The row on which the pawns of `side` start.
pub open spec fn pawn_row(side: Colour) -> int {
    match side {
        Colour::White => 6,
        Colour::Black => 1,
    }
}

/// The row on which the pawns of `side` are promoted.
pub open spec fn far_row(side: Colour) -> int {
    match side {
        Colour::White => 0,
        Colour::Black => 7,
    }
}

/// The row on which the king and rooks of `side` start.
pub open spec fn home_row(side: Colour) -> int {
    match side {
        Colour::White => 7,
        Colour::Black => 0,
    }
}

/// The squares that a pawn of `side` on `(r, c)` advances to: one square
/// forward if it is empty, two from the pawn's starting row if both are.
pub open spec fn pawn_advances(g: Grid, side: Colour, r: int, c: int, tr: int, tc: int) -> bool {
    &&& on_board(tr, tc)
    &&& tc == c
    &&& g[tr][tc] is Empty
    &&& {
        ||| tr == r + forward(side)
        ||| r == pawn_row(side) && tr == r + 2 * forward(side) && g[r + forward(side)][c] is Empty
    }
}

/// Whether `(tr, tc)` is one of the two squares diagonally in front of a
/// pawn of `side` on `(r, c)`.
pub open spec fn pawn_covers(side: Colour, r: int, c: int, tr: int, tc: int) -> bool {
    on_board(tr, tc) && tr == r + forward(side) && abs(tc - c) == 1
}

/// The squares that a pawn of `side` on `(r, c)` captures on: diagonally
/// forward, where an enemy stands or where the en passant square is.
pub open spec fn pawn_captures(
    g: Grid,
    side: Colour,
    en_passant: Option<(int, int)>,
    r: int,
    c: int,
    tr: int,
    tc: int,
) -> bool {
    pawn_covers(side, r, c, tr, tc) && (g[tr][tc].owned_by(side.opposite()) || en_passant == Some(
        (tr, tc),
    ))
}

/// The squares that a pawn of `side` on `(r, c)` may move to.
pub open spec fn pawn_reaches(
    g: Grid,
    side: Colour,
    en_passant: Option<(int, int)>,
    r: int,
    c: int,
    tr: int,
    tc: int,
) -> bool {
    pawn_advances(g, side, r, c, tr, tc) || pawn_captures(g, side, en_passant, r, c, tr, tc)
}

// ---------------------------------------------------------------------------
// Coverage and check
// ---------------------------------------------------------------------------
/// The squares that the piece `p`, standing on `(r, c)`, covers: those it
/// could capture on. A king covers the squares next to it, a pawn the two
/// squares diagonally in front of it, whatever stands there; the other
/// pieces cover the squares they reach.
pub open spec fn covers(p: Piece, g: Grid, r: int, c: int, tr: int, tc: int) -> bool {
    match p {
        Piece::King(_) => adjacent(r, c, tr, tc),
        Piece::Queen(side) => rook_reaches(g, side, r, c, tr, tc) || bishop_reaches(
            g,
            side,
            r,
            c,
            tr,
            tc,
        ),
        Piece::Rook(side) => rook_reaches(g, side, r, c, tr, tc),
        Piece::Bishop(side) => bishop_reaches(g, side, r, c, tr, tc),
        Piece::Knight(side) => knight_reaches(g, side, r, c, tr, tc),
        Piece::Pawn(side) => pawn_covers(side, r, c, tr, tc),
        Piece::Empty => false,
    }
}

/// Whether a piece of `by` stands on `(r, c)` and covers `(tr, tc)`.
pub open spec fn covered_from(g: Grid, by: Colour, r: int, c: int, tr: int, tc: int) -> bool {
    on_board(r, c) && g[r][c].owned_by(by) && covers(g[r][c], g, r, c, tr, tc)
}

/// Whether some piece of `by` covers `(tr, tc)`.
pub open spec fn is_attacked(g: Grid, by: Colour, tr: int, tc: int) -> bool {
    exists|r: int, c: int| #[trigger] covered_from(g, by, r, c, tr, tc)
}

/// Whether a king of `side` stands on `(r, c)` and the other side covers
/// that square.
pub open spec fn king_attacked_on(g: Grid, side: Colour, r: int, c: int) -> bool {
    on_board(r, c) && g[r][c] == Piece::King(side) && is_attacked(g, side.opposite(), r, c)
}

/// Whether `side` is in check: a king of that side stands on a square that
/// the other side covers.
pub open spec fn in_check(g: Grid, side: Colour) -> bool {
    exists|r: int, c: int| #[trigger] king_attacked_on(g, side, r, c)
}

// ---------------------------------------------------------------------------
// Castling
// ---------------------------------------------------------------------------
/// Whether `side` still has the right to castle on the king's side.
pub open spec fn kingside_right(rights: (bool, bool, bool, bool), side: Colour) -> bool {
    match side {
        Colour::White => rights.0,
        Colour::Black => rights.2,
    }
}

/// Whether `side` still has the right to castle on the queen's side.
pub open spec fn queenside_right(rights: (bool, bool, bool, bool), side: Colour) -> bool {
    match side {
        Colour::White => rights.1,
        Colour::Black => rights.3,
    }
}

/// Whether the king of `side`, standing on `(r, c)`, may castle on the
/// king's side: the right is granted, the two squares between king and rook
/// are empty, and the other side covers neither the king's square nor the
/// square it crosses nor the one it lands on. The right is taken at its
/// word: nothing asks whether the king stands on its home square or a rook
/// in the corner.
pub open spec fn castles_kingside(
    g: Grid,
    side: Colour,
    rights: (bool, bool, bool, bool),
    r: int,
    c: int,
) -> bool {
    let h = home_row(side);
    &&& kingside_right(rights, side)
    &&& g[h][5] is Empty
    &&& g[h][6] is Empty
    &&& !is_attacked(g, side.opposite(), r, c)
    &&& !is_attacked(g, side.opposite(), h, 5)
    &&& !is_attacked(g, side.opposite(), h, 6)
}

/// Whether the king of `side`, standing on `(r, c)`, may castle on the
/// queen's side: the right is granted, the three squares between king and
/// rook are empty, and the other side covers neither the king's square nor
/// the square it crosses nor the one it lands on. The right is taken at its
/// word, as on the king's side.
pub open spec fn castles_queenside(
    g: Grid,
    side: Colour,
    rights: (bool, bool, bool, bool),
    r: int,
    c: int,
) -> bool {
    let h = home_row(side);
    &&& queenside_right(rights, side)
    &&& g[h][3] is Empty
    &&& g[h][2] is Empty
    &&& g[h][1] is Empty
    &&& !is_attacked(g, side.opposite(), r, c)
    &&& !is_attacked(g, side.opposite(), h, 3)
    &&& !is_attacked(g, side.opposite(), h, 2)
}

/// The squares that a king of `side` on `(r, c)` castles to.
pub open spec fn king_castles(
    g: Grid,
    side: Colour,
    rights: (bool, bool, bool, bool),
    r: int,
    c: int,
    tr: int,
    tc: int,
) -> bool {
    tr == home_row(side) && {
        ||| tc == 6 && castles_kingside(g, side, rights, r, c)
        ||| tc == 2 && castles_queenside(g, side, rights, r, c)
    }
}

/// The squares that a king of `side` on `(r, c)` may move to.
pub open spec fn king_reaches(
    g: Grid,
    side: Colour,
    rights: (bool, bool, bool, bool),
    r: int,
    c: int,
    tr: int,
    tc: int,
) -> bool {
    king_steps(g, side, r, c, tr, tc) || king_castles(g, side, rights, r, c, tr, tc)
}

// ---------------------------------------------------------------------------
// Moves
// ---------------------------------------------------------------------------
/// Whether the piece `p`, standing on `(r, c)`, may move to `(tr, tc)` by
/// the rules of its kind, leaving aside whether its own king is then in
/// check.
pub open spec fn pseudo_legal(
    p: Piece,
    g: Grid,
    en_passant: Option<(int, int)>,
    rights: (bool, bool, bool, bool),
    r: int,
    c: int,
    tr: int,
    tc: int,
) -> bool {
    match p {
        Piece::King(side) => king_reaches(g, side, rights, r, c, tr, tc),
        Piece::Queen(side) => rook_reaches(g, side, r, c, tr, tc) || bishop_reaches(
            g,
            side,
            r,
            c,
            tr,
            tc,
        ),
        Piece::Rook(side) => rook_reaches(g, side, r, c, tr, tc),
        Piece::Bishop(side) => bishop_reaches(g, side, r, c, tr, tc),
        Piece::Knight(side) => knight_reaches(g, side, r, c, tr, tc),
        Piece::Pawn(side) => pawn_reaches(g, side, en_passant, r, c, tr, tc),
        Piece::Empty => false,
    }
}

/// Whether lifting the piece on `from` and setting it down on `to`, with
/// nothing else touched, leaves the mover's side out of check. An empty
/// square moves nothing and exposes nobody.
pub open spec fn keeps_king_safe(g: Grid, from: (int, int), to: (int, int)) -> bool {
    match g[from.0][from.1].colour() {
        Some(side) => !in_check(relocated(g, from, to, g[from.0][from.1]), side),
        None => true,
    }
}

/// Whether the piece on `(r, c)` may legally move to `(tr, tc)`: the move
/// follows the rules of its kind and does not leave its own king in check.
pub open spec fn legal(
    g: Grid,
    en_passant: Option<(int, int)>,
    rights: (bool, bool, bool, bool),
    r: int,
    c: int,
    tr: int,
    tc: int,
) -> bool {
    pseudo_legal(g[r][c], g, en_passant, rights, r, c, tr, tc) && keeps_king_safe(
        g,
        (r, c),
        (tr, tc),
    )
}

} // verus!
