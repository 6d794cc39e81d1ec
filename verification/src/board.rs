//! The 8×8 board: its mathematical model and the few operations on it.
//!
//! A board is stored as eight rows of eight pieces. Row 0 is the rank that a
//! position text writes first (Black's back rank in the usual orientation),
//! column 0 is file `a`.

use crate::piece::Piece;
use vstd::prelude::*;

verus! {

/// The mathematical model of a board: rows of pieces.
pub type Grid = Seq<Seq<Piece>>;

/// Whether `(r, c)` names a square of the board.
pub open spec fn on_board(r: int, c: int) -> bool {
    0 <= r < 8 && 0 <= c < 8
}

/// Whether a grid has exactly eight rows of eight squares.
pub open spec fn grid_wf(g: Grid) -> bool {
    &&& g.len() == 8
    &&& forall|r: int| 0 <= r < 8 ==> (#[trigger] g[r]).len() == 8
}

/// The grid that a stored board stands for.
pub open spec fn grid(board: &Vec<Vec<Piece>>) -> Grid {
    Seq::new(board@.len(), |r: int| board@[r]@)
}

/// The grid with the piece on `(r, c)` replaced by `p`.
pub open spec fn with_piece(g: Grid, r: int, c: int, p: Piece) -> Grid {
    g.update(r, g[r].update(c, p))
}

/// The grid after the piece on `from` has been lifted and `p` set down on `to`,
/// with nothing else touched.
pub open spec fn relocated(g: Grid, from: (int, int), to: (int, int), p: Piece) -> Grid {
    with_piece(with_piece(g, to.0, to.1, p), from.0, from.1, Piece::Empty)
}

/// An empty grid row.
pub open spec fn empty_row() -> Seq<Piece> {
    Seq::new(8, |c: int| Piece::Empty)
}

/// The grid with no piece on it.
pub open spec fn empty_grid() -> Grid {
    Seq::new(8, |r: int| empty_row())
}

/// Replacing a piece keeps the grid well formed and changes that square only.
pub proof fn lemma_with_piece(g: Grid, r: int, c: int, p: Piece)
    requires
        grid_wf(g),
        on_board(r, c),
    ensures
        grid_wf(with_piece(g, r, c, p)),
        with_piece(g, r, c, p)[r][c] == p,
        forall|i: int, j: int|
            on_board(i, j) && (i != r || j != c) ==> #[trigger] with_piece(g, r, c, p)[i][j]
                == g[i][j],
{
    let h = with_piece(g, r, c, p);
    assert forall|i: int| 0 <= i < 8 implies (#[trigger] h[i]).len() == 8 by {
        assert(g[i].len() == 8);
    }
}

/// Writes `p` on the square `(r, c)`.
pub fn put(board: &mut Vec<Vec<Piece>>, r: usize, c: usize, p: Piece)
    requires
        grid_wf(grid(old(board))),
        on_board(r as int, c as int),
    ensures
        grid(final(board)) == with_piece(grid(old(board)), r as int, c as int, p),
        grid_wf(grid(final(board))),
{
    assert(grid(board)[r as int].len() == 8);
    board[r][c] = p;
    proof {
        lemma_with_piece(grid(old(board)), r as int, c as int, p);
        assert(grid(board) =~= with_piece(grid(old(board)), r as int, c as int, p));
    }
}

/// Reads the piece on the square `(r, c)`.
pub fn piece_at(board: &Vec<Vec<Piece>>, r: usize, c: usize) -> (p: Piece)
    requires
        grid_wf(grid(board)),
        on_board(r as int, c as int),
    ensures
        p == grid(board)[r as int][c as int],
{
    assert(grid(board)[r as int].len() == 8);
    board[r][c]
}

/// A row of eight empty squares.
pub fn new_empty_row() -> (row: Vec<Piece>)
    ensures
        row@ == empty_row(),
{
    let mut row: Vec<Piece> = Vec::new();
    let mut c: usize = 0;
    while c < 8
        invariant
            c <= 8,
            row@.len() == c,
            forall|j: int| 0 <= j < c ==> row@[j] == Piece::Empty,
        decreases 8 - c,
    {
        row.push(Piece::Empty);
        c += 1;
    }
    assert(row@ =~= empty_row());
    row
}

/// A board with no piece on it.
pub fn new_empty_board() -> (board: Vec<Vec<Piece>>)
    ensures
        grid(&board) == empty_grid(),
        grid_wf(grid(&board)),
{
    let mut board: Vec<Vec<Piece>> = Vec::new();
    let mut r: usize = 0;
    while r < 8
        invariant
            r <= 8,
            board@.len() == r,
            forall|i: int| 0 <= i < r ==> (#[trigger] board@[i])@ == empty_row(),
        decreases 8 - r,
    {
        board.push(new_empty_row());
        r += 1;
    }
    assert(grid(&board) =~= empty_grid());
    board
}

/// A copy of the board.
pub fn copy_board(board: &Vec<Vec<Piece>>) -> (res: Vec<Vec<Piece>>)
    ensures
        grid(&res) == grid(board),
{
    let mut res: Vec<Vec<Piece>> = Vec::new();
    let mut r: usize = 0;
    while r < board.len()
        invariant
            r <= board@.len(),
            res@.len() == r,
            forall|i: int| 0 <= i < r ==> (#[trigger] res@[i])@ == board@[i]@,
        decreases board@.len() - r,
    {
        let mut row: Vec<Piece> = Vec::new();
        let mut c: usize = 0;
        while c < board[r].len()
            invariant
                r < board@.len(),
                c <= board@[r as int]@.len(),
                row@.len() == c,
                forall|j: int| 0 <= j < c ==> row@[j] == board@[r as int]@[j],
            decreases board@[r as int]@.len() - c,
        {
            row.push(board[r][c]);
            c += 1;
        }
        assert(row@ =~= board@[r as int]@);
        res.push(row);
        r += 1;
    }
    assert(grid(&res) =~= grid(board));
    res
}

} // verus!
