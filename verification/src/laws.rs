//! What holds of the rules: how far a sliding piece goes, that a legal move
//! never leaves the mover in check, and that a game's own text reads back
//! as the game's position.

use crate::board::{grid_wf, lemma_with_piece, on_board, relocated, with_piece, Grid};
use crate::fen::{fen_text, parse_fen, FenError};
use crate::fen_laws::lemma_fen_round_trip;
use crate::game::Game;
use crate::piece::{Colour, Piece};
use crate::position::Position;
use crate::rules::{
    covered_from, covers, distance, empty_at_step, home_row, in_check, is_direction,
    king_attacked_on, legal, lemma_step_on_ray, pseudo_legal, ray_open, shift, slides,
};
use crate::turn::{
    arrived, board_after, is_en_passant, is_kingside_castling, is_queenside_castling, side_effects,
};
use vstd::prelude::*;

verus! {

// ---------------------------------------------------------------------------
// Sliding pieces
// ---------------------------------------------------------------------------
/// Whether the piece `p` slides in the direction `(dr, dc)`: a rook along
/// rows and columns, a bishop along diagonals, a queen along both.
pub open spec fn slides_along(p: Piece, dr: int, dc: int) -> bool {
    is_direction(dr, dc) && match p {
        Piece::Rook(_) => dr == 0 || dc == 0,
        Piece::Bishop(_) => dr != 0 && dc != 0,
        Piece::Queen(_) => true,
        _ => false,
    }
}

/// A sliding piece reaches a square of one of its rays exactly if it slides
/// to it along that ray.
pub proof fn lemma_reach_along_ray(
    p: Piece,
    g: Grid,
    en_passant: Option<(int, int)>,
    rights: (bool, bool, bool, bool),
    r: int,
    c: int,
    dr: int,
    dc: int,
    k: int,
)
    requires
        slides_along(p, dr, dc),
        k >= 1,
    ensures
        pseudo_legal(p, g, en_passant, rights, r, c, shift(r, dr, k), shift(c, dc, k)) == slides(
            g,
            p.colour()->0,
            r,
            c,
            dr,
            dc,
            shift(r, dr, k),
            shift(c, dc, k),
        ),
{
    let tr = shift(r, dr, k);
    let tc = shift(c, dc, k);
    lemma_step_on_ray(r, c, dr, dc, k);
}

/// A sliding piece goes no further than the first piece in its way. Let the
/// first `k - 1` squares of a ray be empty and the `k`-th hold a piece.
/// Then the sliding piece reaches every square before it; it reaches the
/// `k`-th square if an enemy stands there and not if a piece of its own
/// colour does; and it reaches no square beyond.
pub proof fn lemma_sliding_stops_at_first_piece(
    p: Piece,
    g: Grid,
    en_passant: Option<(int, int)>,
    rights: (bool, bool, bool, bool),
    r: int,
    c: int,
    dr: int,
    dc: int,
    k: int,
)
    requires
        grid_wf(g),
        on_board(r, c),
        slides_along(p, dr, dc),
        k >= 1,
        ray_open(g, r, c, dr, dc, k),
        on_board(shift(r, dr, k), shift(c, dc, k)),
        !(g[shift(r, dr, k)][shift(c, dc, k)] is Empty),
    ensures
        forall|j: int|
            1 <= j < k ==> #[trigger] pseudo_legal(
                p,
                g,
                en_passant,
                rights,
                r,
                c,
                shift(r, dr, j),
                shift(c, dc, j),
            ),
        g[shift(r, dr, k)][shift(c, dc, k)].owned_by(p.colour()->0.opposite()) ==> pseudo_legal(
            p,
            g,
            en_passant,
            rights,
            r,
            c,
            shift(r, dr, k),
            shift(c, dc, k),
        ),
        g[shift(r, dr, k)][shift(c, dc, k)].owned_by(p.colour()->0) ==> !pseudo_legal(
            p,
            g,
            en_passant,
            rights,
            r,
            c,
            shift(r, dr, k),
            shift(c, dc, k),
        ),
        forall|j: int|
            j > k ==> !#[trigger] pseudo_legal(
                p,
                g,
                en_passant,
                rights,
                r,
                c,
                shift(r, dr, j),
                shift(c, dc, j),
            ),
{
    let side = p.colour()->0;
    lemma_reach_along_ray(p, g, en_passant, rights, r, c, dr, dc, k);
    lemma_step_on_ray(r, c, dr, dc, k);
    assert forall|j: int| 1 <= j < k implies #[trigger] pseudo_legal(
        p,
        g,
        en_passant,
        rights,
        r,
        c,
        shift(r, dr, j),
        shift(c, dc, j),
    ) by {
        lemma_reach_along_ray(p, g, en_passant, rights, r, c, dr, dc, j);
        lemma_step_on_ray(r, c, dr, dc, j);
        assert(empty_at_step(g, r, c, dr, dc, j));
        assert forall|i: int| 1 <= i < j implies #[trigger] empty_at_step(g, r, c, dr, dc, i) by {}
    }
    assert forall|j: int| j > k implies !#[trigger] pseudo_legal(
        p,
        g,
        en_passant,
        rights,
        r,
        c,
        shift(r, dr, j),
        shift(c, dc, j),
    ) by {
        lemma_reach_along_ray(p, g, en_passant, rights, r, c, dr, dc, j);
        lemma_step_on_ray(r, c, dr, dc, j);
        if ray_open(g, r, c, dr, dc, j) {
            assert(empty_at_step(g, r, c, dr, dc, k));
        }
    }
}

// ---------------------------------------------------------------------------
// The mover's king
// ---------------------------------------------------------------------------
/// Whether `(r, c)` is one of the four corners of the board.
pub open spec fn is_corner(r: int, c: int) -> bool {
    (r == 0 || r == 7) && (c == 0 || c == 7)
}

/// What stands where after a piece has been relocated.
pub proof fn lemma_relocated(g: Grid, from: (int, int), to: (int, int), p: Piece)
    requires
        grid_wf(g),
        on_board(from.0, from.1),
        on_board(to.0, to.1),
    ensures
        grid_wf(relocated(g, from, to, p)),
        forall|i: int, j: int|
            on_board(i, j) ==> #[trigger] relocated(g, from, to, p)[i][j] == if (i, j) == from {
                Piece::Empty
            } else if (i, j) == to {
                p
            } else {
                g[i][j]
            },
{
    let mid = with_piece(g, to.0, to.1, p);
    lemma_with_piece(g, to.0, to.1, p);
    lemma_with_piece(mid, from.0, from.1, Piece::Empty);
}

/// Check on one board carries over to another that holds the same enemies
/// and the same kings and is at least as open: if `b` has every enemy piece
/// and every king of `side` where `a` has it, and no square but a corner is
/// empty on `b` and taken on `a`, then `side` in check on `b` is in check on
/// `a`.
pub proof fn lemma_check_carries_over(a: Grid, b: Grid, side: Colour)
    requires
        grid_wf(a),
        grid_wf(b),
        forall|r: int, c: int|
            on_board(r, c) && (#[trigger] b[r][c]).owned_by(side.opposite()) ==> a[r][c] == b[r][c],
        forall|r: int, c: int|
            on_board(r, c) && #[trigger] b[r][c] == Piece::King(side) ==> a[r][c] == Piece::King(
                side,
            ),
        forall|r: int, c: int|
            on_board(r, c) && (#[trigger] b[r][c]) is Empty && !(a[r][c] is Empty) ==> is_corner(
                r,
                c,
            ),
        in_check(b, side),
    ensures
        in_check(a, side),
{
    let foe = side.opposite();
    let (kr, kc) = choose|kr: int, kc: int| #[trigger] king_attacked_on(b, side, kr, kc);
    assert(king_attacked_on(b, side, kr, kc));
    let (r, c) = choose|r: int, c: int| #[trigger] covered_from(b, foe, r, c, kr, kc);
    assert(covered_from(b, foe, r, c, kr, kc));
    let p = b[r][c];
    assert(a[r][c] == p);
    assert(a[kr][kc] == Piece::King(side));
    assert forall|dr: int, dc: int|
        is_direction(dr, dc) && #[trigger] slides(b, foe, r, c, dr, dc, kr, kc) implies slides(
        a,
        foe,
        r,
        c,
        dr,
        dc,
        kr,
        kc,
    ) by {
        let k = distance(r, c, kr, kc);
        assert forall|i: int| 1 <= i < k implies #[trigger] empty_at_step(a, r, c, dr, dc, i) by {
            assert(empty_at_step(b, r, c, dr, dc, i));
            assert(!is_corner(shift(r, dr, i), shift(c, dc, i)));
        }
    }
    assert(covers(p, a, r, c, kr, kc));
    assert(covered_from(a, foe, r, c, kr, kc));
    assert(king_attacked_on(a, side, kr, kc));
}

/// A legal move never leaves the mover's own king in check. However the
/// move is completed (the rook brought over in castling, the pawn promoted
/// on the far row), the side of the piece that moved is not in check on the
/// board that results. The one move left out is a pawn's arrival on the en
/// passant square: the pawn it takes leaves the board without having been
/// lifted when the move was tried, and may uncover the king.
pub proof fn lemma_legal_move_keeps_king_safe(
    g: Grid,
    en_passant: Option<(int, int)>,
    rights: (bool, bool, bool, bool),
    promotion: Piece,
    from: (int, int),
    to: (int, int),
)
    requires
        grid_wf(g),
        on_board(from.0, from.1),
        promotion.is_promotion_choice(),
        legal(g, en_passant, rights, from.0, from.1, to.0, to.1),
        !is_en_passant(g[from.0][from.1], en_passant, to),
    ensures
        g[from.0][from.1].colour() matches Some(side) && !in_check(
            board_after(g, rights, en_passant, promotion, from, to),
            side,
        ),
{
    let p = g[from.0][from.1];
    let side = p.colour()->0;
    assert(on_board(to.0, to.1));
    let tried = relocated(g, from, to, p);
    let mid = side_effects(g, p, rights, en_passant, to);
    let done = board_after(g, rights, en_passant, promotion, from, to);
    assert(!in_check(tried, side));
    lemma_relocated(g, from, to, p);
    let h = home_row(side);
    if is_kingside_castling(p, rights, to) {
        lemma_with_piece(g, h, 7, Piece::Empty);
        lemma_with_piece(with_piece(g, h, 7, Piece::Empty), h, 5, Piece::Rook(side));
    } else if is_queenside_castling(p, rights, to) {
        lemma_with_piece(g, h, 0, Piece::Empty);
        lemma_with_piece(with_piece(g, h, 0, Piece::Empty), h, 3, Piece::Rook(side));
    }
    assert(grid_wf(mid));
    lemma_relocated(mid, from, to, arrived(p, promotion, to));
    if in_check(done, side) {
        lemma_check_carries_over(tried, done, side);
    }
}

// ---------------------------------------------------------------------------
// A game and its text
// ---------------------------------------------------------------------------
/// Reading the text of a game's position gives that position back: to load
/// into a game what the game itself wrote changes nothing in its position.
pub proof fn lemma_game_text_reads_back(game: Game)
    requires
        game.wf(),
    ensures
        parse_fen(fen_text(game@.position)) == Ok::<Position, FenError>(game@.position),
{
    lemma_fen_round_trip(game@.position);
}

} // verus!
