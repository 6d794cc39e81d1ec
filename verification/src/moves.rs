//! The moves of each kind of piece, computed from the board.

use crate::board::{grid, grid_wf, on_board, piece_at};
use crate::piece::{Colour, Piece};
use crate::position::en_passant_model;
use crate::rules::{
    bishop_reaches, distance, empty_at_step, is_direction, knight_reaches, lemma_step_on_ray,
    on_ray, pawn_reaches, ray_open, rook_reaches, shift, slides,
};
use crate::seqs::{lemma_push_contains, lemma_push_no_duplicates};
use vstd::prelude::*;

verus! {

/// Adds a square that is not yet listed.
pub fn push_square(moves: &mut Vec<(usize, usize)>, sq: (usize, usize))
    requires
        old(moves)@.no_duplicates(),
        !old(moves)@.contains(sq),
    ensures
        final(moves)@ == old(moves)@.push(sq),
        final(moves)@.no_duplicates(),
        forall|x: (usize, usize)| #[trigger]
            final(moves)@.contains(x) <==> old(moves)@.contains(x) || x == sq,
{
    proof {
        lemma_push_contains(moves@, sq);
        lemma_push_no_duplicates(moves@, sq);
    }
    moves.push(sq);
}

/// Whether a square is listed.
pub fn lists_square(moves: &Vec<(usize, usize)>, sq: (usize, usize)) -> (res: bool)
    ensures
        res == moves@.contains(sq),
{
    let mut i: usize = 0;
    while i < moves.len()
        invariant
            i <= moves.len(),
            forall|j: int| 0 <= j < i ==> moves@[j] != sq,
        decreases moves.len() - i,
    {
        if moves[i].0 == sq.0 && moves[i].1 == sq.1 {
            return true;
        }
        i += 1;
    }
    false
}

/// The coordinate `k` steps from `x` in the direction of the sign of `d`,
/// if it is on the board.
fn shifted(x: usize, d: i8, k: usize) -> (res: Option<usize>)
    requires
        x < 8,
        k <= 8,
    ensures
        res is Some <==> 0 <= shift(x as int, d as int, k as int) < 8,
        res matches Some(y) ==> y == shift(x as int, d as int, k as int),
{
    if d > 0 {
        if x + k < 8 {
            Some(x + k)
        } else {
            None
        }
    } else if d < 0 {
        if k <= x {
            Some(x - k)
        } else {
            None
        }
    } else {
        Some(x)
    }
}

/// Adds the squares that a sliding piece of `side` on `pos` reaches in the
/// direction `(dr, dc)`.
fn push_ray(
    moves: &mut Vec<(usize, usize)>,
    board: &Vec<Vec<Piece>>,
    side: Colour,
    pos: (usize, usize),
    dr: i8,
    dc: i8,
)
    requires
        grid_wf(grid(board)),
        on_board(pos.0 as int, pos.1 as int),
        is_direction(dr as int, dc as int),
        old(moves)@.no_duplicates(),
        forall|sq: (usize, usize)| #[trigger]
            old(moves)@.contains(sq) ==> !on_ray(
                pos.0 as int,
                pos.1 as int,
                dr as int,
                dc as int,
                sq.0 as int,
                sq.1 as int,
            ),
    ensures
        final(moves)@.no_duplicates(),
        forall|sq: (usize, usize)| #[trigger]
            final(moves)@.contains(sq) <==> old(moves)@.contains(sq) || slides(
                grid(board),
                side,
                pos.0 as int,
                pos.1 as int,
                dr as int,
                dc as int,
                sq.0 as int,
                sq.1 as int,
            ),
{
    let ghost g = grid(board);
    let ghost r = pos.0 as int;
    let ghost c = pos.1 as int;
    let ghost d = dr as int;
    let ghost e = dc as int;
    let mut k: usize = 1;
    let mut open: bool = true;
    while open && k < 8
        invariant
            1 <= k <= 8,
            g == grid(board),
            grid_wf(g),
            r == pos.0 as int,
            c == pos.1 as int,
            d == dr as int,
            e == dc as int,
            on_board(r, c),
            is_direction(d, e),
            open ==> ray_open(g, r, c, d, e, k as int),
            moves@.no_duplicates(),
            forall|sq: (usize, usize)| #[trigger]
                old(moves)@.contains(sq) ==> !on_ray(r, c, d, e, sq.0 as int, sq.1 as int),
            forall|sq: (usize, usize)| #[trigger]
                moves@.contains(sq) <==> old(moves)@.contains(sq) || (slides(
                    g,
                    side,
                    r,
                    c,
                    d,
                    e,
                    sq.0 as int,
                    sq.1 as int,
                ) && (open ==> distance(r, c, sq.0 as int, sq.1 as int) < k)),
        decreases (if open { 1int } else { 0int }), 8 - k,
    {
        let ghost before = moves@;
        let row: Option<usize> = shifted(pos.0, dr, k);
        let col: Option<usize> = shifted(pos.1, dc, k);
        proof {
            lemma_step_on_ray(r, c, d, e, k as int);
        }
        match (row, col) {
            (Some(tr), Some(tc)) => {
                let p: Piece = piece_at(board, tr, tc);
                let here: (usize, usize) = (tr, tc);
                assert(!before.contains(here)) by {
                    if before.contains(here) {
                        assert(distance(r, c, tr as int, tc as int) == k);
                    }
                }
                match p {
                    Piece::Empty => {
                        push_square(moves, here);
                        assert(empty_at_step(g, r, c, d, e, k as int));
                        assert(ray_open(g, r, c, d, e, k + 1));
                        assert forall|sq: (usize, usize)| #[trigger]
                            moves@.contains(sq) <==> old(moves)@.contains(sq) || (slides(
                                g,
                                side,
                                r,
                                c,
                                d,
                                e,
                                sq.0 as int,
                                sq.1 as int,
                            ) && distance(r, c, sq.0 as int, sq.1 as int) < k + 1) by {
                            let n = distance(r, c, sq.0 as int, sq.1 as int);
                            if sq == here {
                                assert(n == k);
                            } else if slides(g, side, r, c, d, e, sq.0 as int, sq.1 as int) && n
                                == k {
                                assert(sq.0 == tr && sq.1 == tc);
                            }
                        }
                        k += 1;
                    },
                    _ => {
                        if !p.is_owned_by(side) {
                            push_square(moves, here);
                        }
                        open = false;
                        assert forall|sq: (usize, usize)| #[trigger]
                            moves@.contains(sq) <==> old(moves)@.contains(sq) || slides(
                                g,
                                side,
                                r,
                                c,
                                d,
                                e,
                                sq.0 as int,
                                sq.1 as int,
                            ) by {
                            let n = distance(r, c, sq.0 as int, sq.1 as int);
                            if slides(g, side, r, c, d, e, sq.0 as int, sq.1 as int) {
                                if n > k {
                                    assert(empty_at_step(g, r, c, d, e, k as int));
                                } else if n == k {
                                    assert(sq.0 == tr && sq.1 == tc);
                                }
                            }
                            if sq == here {
                                assert(n == k);
                            }
                        }
                    },
                }
            },
            _ => {
                open = false;
                assert forall|sq: (usize, usize)| #[trigger]
                    moves@.contains(sq) <==> old(moves)@.contains(sq) || slides(
                        g,
                        side,
                        r,
                        c,
                        d,
                        e,
                        sq.0 as int,
                        sq.1 as int,
                    ) by {
                    let n = distance(r, c, sq.0 as int, sq.1 as int);
                    if slides(g, side, r, c, d, e, sq.0 as int, sq.1 as int) && n >= k {
                        if n > k {
                            assert(empty_at_step(g, r, c, d, e, k as int));
                        }
                    }
                }
            },
        }
    }
    proof {
        assert forall|sq: (usize, usize)| #[trigger]
            moves@.contains(sq) <==> old(moves)@.contains(sq) || slides(
                g,
                side,
                r,
                c,
                d,
                e,
                sq.0 as int,
                sq.1 as int,
            ) by {
            if slides(g, side, r, c, d, e, sq.0 as int, sq.1 as int) {
                assert(distance(r, c, sq.0 as int, sq.1 as int) < 8);
            }
        }
    }
}

/// The square `(dr, dc)` away from `pos`, if it is on the board.
pub fn offset_square(pos: (usize, usize), dr: i8, dc: i8) -> (res: Option<(usize, usize)>)
    requires
        on_board(pos.0 as int, pos.1 as int),
        -2 <= dr <= 2,
        -2 <= dc <= 2,
    ensures
        res is Some <==> on_board(pos.0 + dr, pos.1 + dc),
        res matches Some(sq) ==> sq.0 == pos.0 + dr && sq.1 == pos.1 + dc,
{
    let r: i8 = pos.0 as i8 + dr;
    let c: i8 = pos.1 as i8 + dc;
    if 0 <= r && r < 8 && 0 <= c && c < 8 {
        Some((r as usize, c as usize))
    } else {
        None
    }
}

/// Adds the square `(dr, dc)` away from `pos` if it is on the board and a
/// piece of `side` may land on it.
pub fn push_jump(
    moves: &mut Vec<(usize, usize)>,
    board: &Vec<Vec<Piece>>,
    side: Colour,
    pos: (usize, usize),
    dr: i8,
    dc: i8,
)
    requires
        grid_wf(grid(board)),
        on_board(pos.0 as int, pos.1 as int),
        -2 <= dr <= 2,
        -2 <= dc <= 2,
        old(moves)@.no_duplicates(),
        forall|sq: (usize, usize)| #[trigger]
            old(moves)@.contains(sq) ==> !(sq.0 == pos.0 + dr && sq.1 == pos.1 + dc),
    ensures
        final(moves)@.no_duplicates(),
        forall|sq: (usize, usize)| #[trigger]
            final(moves)@.contains(sq) <==> old(moves)@.contains(sq) || (sq.0 == pos.0 + dr && sq.1
                == pos.1 + dc && on_board(sq.0 as int, sq.1 as int) && grid(
                board,
            )[sq.0 as int][sq.1 as int].open_to(side)),
{
    match offset_square(pos, dr, dc) {
        Some(sq) => {
            if !piece_at(board, sq.0, sq.1).is_owned_by(side) {
                push_square(moves, sq);
            }
        },
        None => {},
    }
}

impl Piece {
    /// The squares that the piece reaches from `pos` as a rook does: along
    /// the row and the column, up to the first piece in the way, which is
    /// taken if it is an enemy.
    pub fn get_rook_moves(&self, pos: (usize, usize), board: &Vec<Vec<Piece>>) -> (moves: Vec<
        (usize, usize),
    >)
        requires
            grid_wf(grid(board)),
            on_board(pos.0 as int, pos.1 as int),
            self.colour() is Some,
        ensures
            moves@.no_duplicates(),
            forall|sq: (usize, usize)| #[trigger]
                moves@.contains(sq) <==> rook_reaches(
                    grid(board),
                    self.colour()->0,
                    pos.0 as int,
                    pos.1 as int,
                    sq.0 as int,
                    sq.1 as int,
                ),
    {
        let side: Colour = match self.get_colour() {
            Some(c) => *c,
            None => Colour::White,
        };
        let mut moves: Vec<(usize, usize)> = Vec::new();
        push_ray(&mut moves, board, side, pos, 0, 1);
        push_ray(&mut moves, board, side, pos, 1, 0);
        push_ray(&mut moves, board, side, pos, 0, -1);
        push_ray(&mut moves, board, side, pos, -1, 0);
        moves
    }

    /// The squares that the piece reaches from `pos` as a bishop does: along
    /// the diagonals, up to the first piece in the way, which is taken if it
    /// is an enemy.
    pub fn get_bishop_moves(&self, pos: (usize, usize), board: &Vec<Vec<Piece>>) -> (moves: Vec<
        (usize, usize),
    >)
        requires
            grid_wf(grid(board)),
            on_board(pos.0 as int, pos.1 as int),
            self.colour() is Some,
        ensures
            moves@.no_duplicates(),
            forall|sq: (usize, usize)| #[trigger]
                moves@.contains(sq) <==> bishop_reaches(
                    grid(board),
                    self.colour()->0,
                    pos.0 as int,
                    pos.1 as int,
                    sq.0 as int,
                    sq.1 as int,
                ),
    {
        let side: Colour = match self.get_colour() {
            Some(c) => *c,
            None => Colour::White,
        };
        let mut moves: Vec<(usize, usize)> = Vec::new();
        push_ray(&mut moves, board, side, pos, 1, 1);
        push_ray(&mut moves, board, side, pos, 1, -1);
        push_ray(&mut moves, board, side, pos, -1, 1);
        push_ray(&mut moves, board, side, pos, -1, -1);
        moves
    }

    /// The squares that the piece reaches from `pos` as a knight does: the
    /// up to eight squares a jump away that are empty or hold an enemy.
    pub fn get_knight_moves(&self, pos: (usize, usize), board: &Vec<Vec<Piece>>) -> (moves: Vec<
        (usize, usize),
    >)
        requires
            grid_wf(grid(board)),
            on_board(pos.0 as int, pos.1 as int),
            self.colour() is Some,
        ensures
            moves@.no_duplicates(),
            forall|sq: (usize, usize)| #[trigger]
                moves@.contains(sq) <==> knight_reaches(
                    grid(board),
                    self.colour()->0,
                    pos.0 as int,
                    pos.1 as int,
                    sq.0 as int,
                    sq.1 as int,
                ),
    {
        let side: Colour = match self.get_colour() {
            Some(c) => *c,
            None => Colour::White,
        };
        let mut moves: Vec<(usize, usize)> = Vec::new();
        push_jump(&mut moves, board, side, pos, -1, -2);
        push_jump(&mut moves, board, side, pos, -1, 2);
        push_jump(&mut moves, board, side, pos, 1, -2);
        push_jump(&mut moves, board, side, pos, 1, 2);
        push_jump(&mut moves, board, side, pos, -2, -1);
        push_jump(&mut moves, board, side, pos, -2, 1);
        push_jump(&mut moves, board, side, pos, 2, -1);
        push_jump(&mut moves, board, side, pos, 2, 1);
        moves
    }

    /// The squares that the piece reaches from `pos` as a pawn does: one
    /// square forward if it is empty, two from the starting row if both are,
    /// and diagonally forward onto an enemy or onto the en passant square.
    /// Any `en_passant_square` off the board stands for none.
    pub fn get_pawn_moves(
        &self,
        pos: (usize, usize),
        board: &Vec<Vec<Piece>>,
        en_passant_square: (usize, usize),
    ) -> (moves: Vec<(usize, usize)>)
        requires
            grid_wf(grid(board)),
            on_board(pos.0 as int, pos.1 as int),
            self.colour() is Some,
        ensures
            moves@.no_duplicates(),
            forall|sq: (usize, usize)| #[trigger]
                moves@.contains(sq) <==> pawn_reaches(
                    grid(board),
                    self.colour()->0,
                    en_passant_model(en_passant_square),
                    pos.0 as int,
                    pos.1 as int,
                    sq.0 as int,
                    sq.1 as int,
                ),
    {
        let side: Colour = match self.get_colour() {
            Some(c) => *c,
            None => Colour::White,
        };
        let foe: Colour = side.other();
        let (step, start): (i8, usize) = match side {
            Colour::White => (-1, 6),
            Colour::Black => (1, 1),
        };
        let mut moves: Vec<(usize, usize)> = Vec::new();
        match offset_square(pos, step, 1) {
            Some(sq) => {
                if piece_at(board, sq.0, sq.1).is_owned_by(foe) || (en_passant_square.0 == sq.0
                    && en_passant_square.1 == sq.1) {
                    push_square(&mut moves, sq);
                }
            },
            None => {},
        }
        match offset_square(pos, step, -1) {
            Some(sq) => {
                if piece_at(board, sq.0, sq.1).is_owned_by(foe) || (en_passant_square.0 == sq.0
                    && en_passant_square.1 == sq.1) {
                    push_square(&mut moves, sq);
                }
            },
            None => {},
        }
        match offset_square(pos, step, 0) {
            Some(one) => {
                if piece_at(board, one.0, one.1) == Piece::Empty {
                    push_square(&mut moves, one);
                    if pos.0 == start {
                        match offset_square(pos, 2 * step, 0) {
                            Some(two) => {
                                if piece_at(board, two.0, two.1) == Piece::Empty {
                                    push_square(&mut moves, two);
                                }
                            },
                            None => {},
                        }
                    }
                }
            },
            None => {},
        }
        moves
    }
}

} // verus!
