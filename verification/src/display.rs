//! A picture of a position in plain text, for a terminal: the side to
//! move, the file letters, and the eight ranks from the top, each square
//! two characters wide.

use crate::board::{grid, grid_wf, Grid};
use crate::fen::{letter_of, parse_fen, piece_letter, rank_char, read_fen, FenError};
use crate::piece::{Colour, Piece};
use crate::position::Position;
use crate::text::{chars_of, digit};
use vstd::prelude::*;
use vstd::string::StringExecFns;

verus! {

/// The name of a side.
pub open spec fn side_name(side: Colour) -> Seq<char> {
    match side {
        Colour::White => "White"@,
        Colour::Black => "Black"@,
    }
}

/// The picture of one square: the letter of its piece, or a blank, and a
/// blank after it.
pub open spec fn square_picture(p: Piece) -> Seq<char> {
    if p is Empty {
        seq![' ', ' ']
    } else {
        seq![letter_of(p), ' ']
    }
}

/// The pictures of the squares of a row, one after the other.
pub open spec fn row_picture(row: Seq<Piece>) -> Seq<char>
    decreases row.len(),
{
    if row.len() == 0 {
        Seq::<char>::empty()
    } else {
        row_picture(row.drop_last()) + square_picture(row.last())
    }
}

/// The line of row `r`: its rank digit, two blanks, its squares, and a line
/// break.
pub open spec fn rank_line(g: Grid, r: int) -> Seq<char> {
    (seq![rank_char(r), ' ', ' '] + row_picture(g[r])).push('\n')
}

/// The lines of the first `n` rows.
pub open spec fn rank_lines(g: Grid, n: int) -> Seq<char>
    decreases n,
{
    if n <= 0 {
        Seq::<char>::empty()
    } else {
        rank_lines(g, n - 1) + rank_line(g, n - 1)
    }
}

/// The picture of a position.
pub open spec fn picture(p: Position) -> Seq<char> {
    "Current turn: "@ + side_name(p.turn) + "\n\n   a b c d e f g h\n \n"@ + rank_lines(p.board, 8)
}

/// Appends the line of row `r`.
fn push_rank_line(out: &mut String, board: &Vec<Vec<Piece>>, r: usize)
    requires
        grid_wf(grid(board)),
        r < 8,
    ensures
        final(out)@ == old(out)@ + rank_line(grid(board), r as int),
{
    let ghost row = grid(board)[r as int];
    assert(row.len() == 8);
    out.push(digit((8 - r) as u8));
    out.push(' ');
    out.push(' ');
    let ghost start = out@;
    assert(start =~= old(out)@ + seq![rank_char(r as int), ' ', ' ']);
    let mut c: usize = 0;
    assert(row.take(0) =~= Seq::<Piece>::empty());
    assert(start + row_picture(row.take(0)) =~= start);
    while c < 8
        invariant
            c <= 8,
            r < 8,
            grid_wf(grid(board)),
            row == grid(board)[r as int],
            row.len() == 8,
            out@ == start + row_picture(row.take(c as int)),
        decreases 8 - c,
    {
        let ghost next = row.take(c + 1);
        assert(next.drop_last() =~= row.take(c as int));
        assert(next.last() == row[c as int]);
        let p: Piece = board[r][c];
        match p {
            Piece::Empty => {
                out.push(' ');
            },
            _ => {
                out.push(piece_letter(p));
            },
        }
        out.push(' ');
        assert(out@ =~= start + row_picture(next));
        c += 1;
    }
    assert(row.take(8) =~= row);
    out.push('\n');
    assert(out@ =~= old(out)@ + rank_line(grid(board), r as int));
}

/// The picture of the position that `fen` writes, ready to be printed, or
/// what is wrong with the text.
pub fn fen_into_display(fen: String) -> (res: Result<String, FenError>)
    ensures
        match parse_fen(fen@) {
            Ok(p) => res matches Ok(text) && text@ == picture(p),
            Err(e) => res matches Err(f) && f == e,
        },
{
    let text: Vec<char> = chars_of(fen.as_str());
    let record = match read_fen(&text) {
        Ok(record) => record,
        Err(e) => {
            return Err(e);
        },
    };
    let mut out: String = String::new();
    out.append("Current turn: ");
    match record.current_turn {
        Colour::White => out.append("White"),
        Colour::Black => out.append("Black"),
    }
    out.append("\n\n   a b c d e f g h\n \n");
    let ghost head = out@;
    let ghost g = grid(&record.board);
    assert(head =~= "Current turn: "@ + side_name(record@.turn)
        + "\n\n   a b c d e f g h\n \n"@);
    let mut r: usize = 0;
    assert(head + rank_lines(g, 0) =~= head);
    while r < 8
        invariant
            r <= 8,
            g == grid(&record.board),
            grid_wf(g),
            out@ == head + rank_lines(g, r as int),
        decreases 8 - r,
    {
        push_rank_line(&mut out, &record.board, r);
        assert(out@ =~= head + rank_lines(g, r + 1));
        r += 1;
    }
    Ok(out)
}

} // verus!
