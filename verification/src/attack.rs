//! Coverage: the squares that a piece, or a whole side, could capture on,
//! and whether a side is in check.

use crate::board::{grid, grid_wf, on_board, piece_at, Grid};
use crate::moves::{lists_square, offset_square, push_square};
use crate::piece::{Colour, Piece};
use crate::rules::{covered_from, covers, in_check, is_attacked, king_attacked_on};
use crate::seqs::{lemma_concat_contains, lemma_concat_no_duplicates};
use vstd::prelude::*;

verus! {

/// Adds the square `(dr, dc)` away from `pos` if it is on the board.
fn push_offset(moves: &mut Vec<(usize, usize)>, pos: (usize, usize), dr: i8, dc: i8)
    requires
        on_board(pos.0 as int, pos.1 as int),
        -1 <= dr <= 1,
        -1 <= dc <= 1,
        old(moves)@.no_duplicates(),
        forall|sq: (usize, usize)| #[trigger]
            old(moves)@.contains(sq) ==> !(sq.0 == pos.0 + dr && sq.1 == pos.1 + dc),
    ensures
        final(moves)@.no_duplicates(),
        forall|sq: (usize, usize)| #[trigger]
            final(moves)@.contains(sq) <==> old(moves)@.contains(sq) || (sq.0 == pos.0 + dr && sq.1
                == pos.1 + dc && on_board(sq.0 as int, sq.1 as int)),
{
    match offset_square(pos, dr, dc) {
        Some(sq) => {
            push_square(moves, sq);
        },
        None => {},
    }
}

/// Whether a piece of `by` that stands before `(x, y)` in reading order
/// (row by row, left to right) covers `(tr, tc)`.
pub open spec fn attacked_before(g: Grid, by: Colour, x: int, y: int, tr: int, tc: int) -> bool {
    exists|r: int, c: int|
        (r < x || (r == x && c < y)) && #[trigger] covered_from(g, by, r, c, tr, tc)
}

impl Piece {
    /// The squares that the piece, standing on `pos`, covers: those on which
    /// it could capture. For a king these are the squares next to it (never
    /// a castling square) and for a pawn the two squares diagonally in front
    /// of it, whatever stands there; every other piece covers the squares it
    /// can move to. An empty square covers nothing.
    pub fn get_threatened_squares(&self, pos: (usize, usize), board: &Vec<Vec<Piece>>) -> (moves:
        Vec<(usize, usize)>)
        requires
            grid_wf(grid(board)),
            on_board(pos.0 as int, pos.1 as int),
        ensures
            moves@.no_duplicates(),
            forall|sq: (usize, usize)| #[trigger]
                moves@.contains(sq) <==> covers(
                    *self,
                    grid(board),
                    pos.0 as int,
                    pos.1 as int,
                    sq.0 as int,
                    sq.1 as int,
                ),
    {
        match self {
            Piece::King(_colour) => {
                let mut moves: Vec<(usize, usize)> = Vec::new();
                push_offset(&mut moves, pos, -1, -1);
                push_offset(&mut moves, pos, -1, 0);
                push_offset(&mut moves, pos, -1, 1);
                push_offset(&mut moves, pos, 0, -1);
                push_offset(&mut moves, pos, 0, 1);
                push_offset(&mut moves, pos, 1, -1);
                push_offset(&mut moves, pos, 1, 0);
                push_offset(&mut moves, pos, 1, 1);
                moves
            },
            Piece::Pawn(colour) => {
                let step: i8 = match colour {
                    Colour::White => -1,
                    Colour::Black => 1,
                };
                let mut moves: Vec<(usize, usize)> = Vec::new();
                push_offset(&mut moves, pos, step, -1);
                push_offset(&mut moves, pos, step, 1);
                moves
            },
            Piece::Queen(_colour) => {
                let mut moves: Vec<(usize, usize)> = self.get_rook_moves(pos, board);
                let mut diagonal: Vec<(usize, usize)> = self.get_bishop_moves(pos, board);
                proof {
                    lemma_concat_contains(moves@, diagonal@);
                    lemma_concat_no_duplicates(moves@, diagonal@);
                }
                moves.append(&mut diagonal);
                moves
            },
            Piece::Rook(_colour) => self.get_rook_moves(pos, board),
            Piece::Bishop(_colour) => self.get_bishop_moves(pos, board),
            Piece::Knight(_colour) => self.get_knight_moves(pos, board),
            Piece::Empty => Vec::new(),
        }
    }
}

/// The squares that the pieces of `by` cover, each listed at least once.
pub fn threatened_by(board: &Vec<Vec<Piece>>, by: Colour) -> (squares: Vec<(usize, usize)>)
    requires
        grid_wf(grid(board)),
    ensures
        forall|sq: (usize, usize)| #[trigger]
            squares@.contains(sq) <==> is_attacked(grid(board), by, sq.0 as int, sq.1 as int),
{
    let ghost g = grid(board);
    let mut squares: Vec<(usize, usize)> = Vec::new();
    let mut x: usize = 0;
    while x < 8
        invariant
            x <= 8,
            g == grid(board),
            grid_wf(g),
            forall|sq: (usize, usize)| #[trigger]
                squares@.contains(sq) <==> attacked_before(
                    g,
                    by,
                    x as int,
                    0,
                    sq.0 as int,
                    sq.1 as int,
                ),
        decreases 8 - x,
    {
        let mut y: usize = 0;
        while y < 8
            invariant
                x < 8,
                y <= 8,
                g == grid(board),
                grid_wf(g),
                forall|sq: (usize, usize)| #[trigger]
                    squares@.contains(sq) <==> attacked_before(
                        g,
                        by,
                        x as int,
                        y as int,
                        sq.0 as int,
                        sq.1 as int,
                    ),
            decreases 8 - y,
        {
            let ghost before = squares@;
            let p: Piece = piece_at(board, x, y);
            if p.is_owned_by(by) {
                let mut covered: Vec<(usize, usize)> = p.get_threatened_squares((x, y), board);
                proof {
                    lemma_concat_contains(squares@, covered@);
                }
                squares.append(&mut covered);
            }
            assert forall|sq: (usize, usize)| #[trigger]
                squares@.contains(sq) <==> attacked_before(
                    g,
                    by,
                    x as int,
                    y + 1,
                    sq.0 as int,
                    sq.1 as int,
                ) by {
                let tr = sq.0 as int;
                let tc = sq.1 as int;
                if attacked_before(g, by, x as int, y + 1, tr, tc) {
                    let (r, c) = choose|r: int, c: int|
                        (r < x || (r == x && c < y + 1)) && #[trigger] covered_from(
                            g,
                            by,
                            r,
                            c,
                            tr,
                            tc,
                        );
                    if r == x && c == y {
                    } else {
                        assert(covered_from(g, by, r, c, tr, tc));
                        assert(attacked_before(g, by, x as int, y as int, tr, tc));
                    }
                }
                if before.contains(sq) {
                    let (r, c) = choose|r: int, c: int|
                        (r < x || (r == x && c < y)) && #[trigger] covered_from(
                            g,
                            by,
                            r,
                            c,
                            tr,
                            tc,
                        );
                    assert(covered_from(g, by, r, c, tr, tc));
                }
                if covered_from(g, by, x as int, y as int, tr, tc) {
                    assert(attacked_before(g, by, x as int, y + 1, tr, tc));
                }
            }
            y += 1;
        }
        assert forall|sq: (usize, usize)| #[trigger]
            squares@.contains(sq) <==> attacked_before(
                g,
                by,
                x + 1,
                0,
                sq.0 as int,
                sq.1 as int,
            ) by {
            let tr = sq.0 as int;
            let tc = sq.1 as int;
            if attacked_before(g, by, x + 1, 0, tr, tc) {
                let (r, c) = choose|r: int, c: int|
                    (r < x + 1 || (r == x + 1 && c < 0)) && #[trigger] covered_from(
                        g,
                        by,
                        r,
                        c,
                        tr,
                        tc,
                    );
                assert(covered_from(g, by, r, c, tr, tc));
                assert(attacked_before(g, by, x as int, 8, tr, tc));
            }
            if attacked_before(g, by, x as int, 8, tr, tc) {
                let (r, c) = choose|r: int, c: int|
                    (r < x || (r == x && c < 8)) && #[trigger] covered_from(g, by, r, c, tr, tc);
                assert(covered_from(g, by, r, c, tr, tc));
                assert(attacked_before(g, by, x + 1, 0, tr, tc));
            }
        }
        x += 1;
    }
    assert forall|sq: (usize, usize)| #[trigger]
        squares@.contains(sq) <==> is_attacked(g, by, sq.0 as int, sq.1 as int) by {
        let tr = sq.0 as int;
        let tc = sq.1 as int;
        if is_attacked(g, by, tr, tc) {
            let (r, c) = choose|r: int, c: int| #[trigger] covered_from(g, by, r, c, tr, tc);
            assert(covered_from(g, by, r, c, tr, tc));
            assert(attacked_before(g, by, 8, 0, tr, tc));
        }
        if attacked_before(g, by, 8, 0, tr, tc) {
            let (r, c) = choose|r: int, c: int|
                (r < 8 || (r == 8 && c < 0)) && #[trigger] covered_from(g, by, r, c, tr, tc);
            assert(covered_from(g, by, r, c, tr, tc));
        }
    }
    squares
}

/// Whether `side` is in check on this board.
pub fn is_in_check(board: &Vec<Vec<Piece>>, side: Colour) -> (res: bool)
    requires
        grid_wf(grid(board)),
    ensures
        res == in_check(grid(board), side),
{
    let ghost g = grid(board);
    let threatened: Vec<(usize, usize)> = threatened_by(board, side.other());
    let mut x: usize = 0;
    while x < 8
        invariant
            x <= 8,
            g == grid(board),
            grid_wf(g),
            forall|sq: (usize, usize)| #[trigger]
                threatened@.contains(sq) <==> is_attacked(
                    g,
                    side.opposite(),
                    sq.0 as int,
                    sq.1 as int,
                ),
            forall|r: int, c: int| 0 <= r < x && 0 <= c < 8 ==> !#[trigger] king_attacked_on(
                g,
                side,
                r,
                c,
            ),
        decreases 8 - x,
    {
        let mut y: usize = 0;
        while y < 8
            invariant
                x < 8,
                y <= 8,
                g == grid(board),
                grid_wf(g),
                forall|sq: (usize, usize)| #[trigger]
                    threatened@.contains(sq) <==> is_attacked(
                        g,
                        side.opposite(),
                        sq.0 as int,
                        sq.1 as int,
                    ),
                forall|r: int, c: int| 0 <= r < x && 0 <= c < 8 ==> !#[trigger] king_attacked_on(
                    g,
                    side,
                    r,
                    c,
                ),
                forall|c: int| 0 <= c < y ==> !#[trigger] king_attacked_on(g, side, x as int, c),
            decreases 8 - y,
        {
            if piece_at(board, x, y) == Piece::King(side) && lists_square(&threatened, (x, y)) {
                assert(king_attacked_on(g, side, x as int, y as int));
                return true;
            }
            assert(threatened@.contains((x, y)) <==> is_attacked(
                g,
                side.opposite(),
                x as int,
                y as int,
            ));
            y += 1;
        }
        x += 1;
    }
    assert forall|r: int, c: int| !#[trigger] king_attacked_on(g, side, r, c) by {
        if on_board(r, c) {
            assert(0 <= r < 8 && 0 <= c < 8);
        }
    }
    false
}

} // verus!
