//! Legal moves: the moves of a piece that do not leave its own king in
//! check.

use crate::attack::is_in_check;
use crate::board::{copy_board, grid, grid_wf, on_board, piece_at, put, relocated, Grid};
use crate::piece::Piece;
use crate::position::en_passant_model;
use crate::rules::{keeps_king_safe, legal, pseudo_legal};
use crate::seqs::{lemma_concat_contains, lemma_concat_no_duplicates, lemma_filter_facts};
use vstd::prelude::*;

verus! {

/// The test that a move from `from` must pass to be kept: it does not leave
/// the mover's side in check.
pub open spec fn safe_from(g: Grid, from: (int, int)) -> spec_fn((usize, usize)) -> bool {
    |to: (usize, usize)| keeps_king_safe(g, from, (to.0 as int, to.1 as int))
}

/// Keeps the moves of the piece on `pos` that do not leave its own king in
/// check, in the order in which they came. Each move is tried on a copy of
/// the board on which the piece is lifted from `pos` and set down on the
/// move's square, and nothing else is done.
pub fn clean_moves(pos: (usize, usize), board: &Vec<Vec<Piece>>, moves: Vec<(usize, usize)>) -> (kept:
    Vec<(usize, usize)>)
    requires
        grid_wf(grid(board)),
        on_board(pos.0 as int, pos.1 as int),
        forall|i: int| 0 <= i < moves@.len() ==> on_board(moves@[i].0 as int, moves@[i].1 as int),
    ensures
        kept@ == moves@.filter(safe_from(grid(board), (pos.0 as int, pos.1 as int))),
{
    let ghost g = grid(board);
    let ghost from = (pos.0 as int, pos.1 as int);
    let piece: Piece = piece_at(board, pos.0, pos.1);
    let mut kept: Vec<(usize, usize)> = Vec::new();
    let mut i: usize = 0;
    proof {
        reveal(Seq::filter);
        assert(moves@.take(0) =~= Seq::<(usize, usize)>::empty());
    }
    while i < moves.len()
        invariant
            i <= moves.len(),
            g == grid(board),
            grid_wf(g),
            from == (pos.0 as int, pos.1 as int),
            on_board(from.0, from.1),
            piece == g[from.0][from.1],
            forall|j: int|
                0 <= j < moves@.len() ==> on_board(moves@[j].0 as int, moves@[j].1 as int),
            kept@ == moves@.take(i as int).filter(safe_from(g, from)),
        decreases moves.len() - i,
    {
        let to: (usize, usize) = moves[i];
        assert(on_board(to.0 as int, to.1 as int));
        let safe: bool = match piece.get_colour() {
            Some(side) => {
                let mut trial: Vec<Vec<Piece>> = copy_board(board);
                put(&mut trial, to.0, to.1, piece);
                put(&mut trial, pos.0, pos.1, Piece::Empty);
                assert(grid(&trial) == relocated(g, from, (to.0 as int, to.1 as int), piece));
                !is_in_check(&trial, *side)
            },
            None => true,
        };
        proof {
            reveal(Seq::filter);
            let next = moves@.take(i + 1);
            assert(next.drop_last() =~= moves@.take(i as int));
            assert(next.last() == to);
            assert(safe == safe_from(g, from)(to));
        }
        if safe {
            kept.push(to);
        }
        i += 1;
    }
    assert(moves@.take(i as int) =~= moves@);
    kept
}

impl Piece {
    /// The legal moves of the piece, which stands on `pos`: the squares it
    /// reaches by the rules of its kind, without those that would leave its
    /// own king in check. An empty square has none. Any
    /// `en_passant_square` off the board stands for none.
    pub fn get_valid_moves(
        &self,
        pos: (usize, usize),
        board: &Vec<Vec<Piece>>,
        en_passant_square: (usize, usize),
        castlings: (bool, bool, bool, bool),
    ) -> (moves: Vec<(usize, usize)>)
        requires
            grid_wf(grid(board)),
            on_board(pos.0 as int, pos.1 as int),
            grid(board)[pos.0 as int][pos.1 as int] == *self,
        ensures
            moves@.no_duplicates(),
            forall|sq: (usize, usize)| #[trigger]
                moves@.contains(sq) <==> legal(
                    grid(board),
                    en_passant_model(en_passant_square),
                    castlings,
                    pos.0 as int,
                    pos.1 as int,
                    sq.0 as int,
                    sq.1 as int,
                ),
    {
        let ghost g = grid(board);
        let ghost r = pos.0 as int;
        let ghost c = pos.1 as int;
        let ghost ep = en_passant_model(en_passant_square);
        let pseudo: Vec<(usize, usize)> = match self {
            Piece::Empty => Vec::new(),
            Piece::Queen(_colour) => {
                let mut moves: Vec<(usize, usize)> = self.get_rook_moves(pos, board);
                let mut diagonal: Vec<(usize, usize)> = self.get_bishop_moves(pos, board);
                proof {
                    lemma_concat_contains(moves@, diagonal@);
                    lemma_concat_no_duplicates(moves@, diagonal@);
                }
                moves.append(&mut diagonal);
                moves
            },
            Piece::Rook(_colour) => self.get_rook_moves(pos, board),
            Piece::Bishop(_colour) => self.get_bishop_moves(pos, board),
            Piece::Knight(_colour) => self.get_knight_moves(pos, board),
            Piece::Pawn(_colour) => self.get_pawn_moves(pos, board, en_passant_square),
            Piece::King(_colour) => self.get_king_moves(pos, board, castlings),
        };
        assert(pseudo@.no_duplicates());
        assert forall|sq: (usize, usize)| #[trigger]
            pseudo@.contains(sq) <==> pseudo_legal(
                *self,
                g,
                ep,
                castlings,
                r,
                c,
                sq.0 as int,
                sq.1 as int,
            ) by {}
        assert forall|i: int| 0 <= i < pseudo@.len() implies on_board(
            pseudo@[i].0 as int,
            pseudo@[i].1 as int,
        ) by {
            assert(pseudo@.contains(pseudo@[i]));
        }
        proof {
            lemma_filter_facts(pseudo@, safe_from(g, (r, c)));
        }
        clean_moves(pos, board, pseudo)
    }
}

} // verus!
