//! The text notation of a position: six fields separated by single spaces.
//!
//! 1. the pieces, rank by rank from the top, ranks separated by `/`; a
//!    letter for a piece (upper case for White), a digit 1–8 for that many
//!    empty squares in a row;
//! 2. the side to move, `w` or `b`;
//! 3. the castling rights, letters out of `KQkq`, or `-` for none;
//! 4. the en passant square, as a file letter and a rank digit, or `-`;
//! 5. the halfmove clock, in decimal;
//! 6. the move number, in decimal.

use crate::board::{grid, grid_wf, on_board, Grid};
use crate::piece::{Colour, Piece};
use crate::position::{en_passant_model, en_passant_wf, Position};
use crate::text::{
    chars_of, decimal, digit, digit_char, digit_of, digit_value, join, number, parse_number, rows,
    split, split_chars,
};
use vstd::prelude::*;

verus! {

/// Why a text is not the notation of a position: the first field, in
/// reading order, that is not as it should be.
#[derive(Debug, Clone, Copy, PartialEq, Eq, Structural)]
pub enum FenError {
    /// The text does not have exactly six fields.
    FieldCount,
    /// The first field is not eight ranks of eight squares each.
    Placement,
    /// The second field is neither `w` nor `b`.
    SideToMove,
    /// The third field holds a character other than `K`, `Q`, `k`, `q`, or
    /// is not `-` alone.
    Castling,
    /// The fourth field is neither a square nor `-`.
    EnPassant,
    /// The fifth field is not a number that fits.
    HalfmoveClock,
    /// The sixth field is not a number that fits.
    FullmoveNumber,
}

// ---------------------------------------------------------------------------
// Pieces and ranks
// ---------------------------------------------------------------------------
/// The letter that writes a piece. A single empty square is written `1`.
pub open spec fn letter_of(p: Piece) -> char {
    match p {
        Piece::King(Colour::White) => 'K',
        Piece::King(Colour::Black) => 'k',
        Piece::Queen(Colour::White) => 'Q',
        Piece::Queen(Colour::Black) => 'q',
        Piece::Rook(Colour::White) => 'R',
        Piece::Rook(Colour::Black) => 'r',
        Piece::Bishop(Colour::White) => 'B',
        Piece::Bishop(Colour::Black) => 'b',
        Piece::Knight(Colour::White) => 'N',
        Piece::Knight(Colour::Black) => 'n',
        Piece::Pawn(Colour::White) => 'P',
        Piece::Pawn(Colour::Black) => 'p',
        Piece::Empty => '1',
    }
}

/// The piece that a letter writes, if it writes one.
pub open spec fn piece_of_letter(c: char) -> Option<Piece> {
    if c == 'K' {
        Some(Piece::King(Colour::White))
    } else if c == 'k' {
        Some(Piece::King(Colour::Black))
    } else if c == 'Q' {
        Some(Piece::Queen(Colour::White))
    } else if c == 'q' {
        Some(Piece::Queen(Colour::Black))
    } else if c == 'R' {
        Some(Piece::Rook(Colour::White))
    } else if c == 'r' {
        Some(Piece::Rook(Colour::Black))
    } else if c == 'B' {
        Some(Piece::Bishop(Colour::White))
    } else if c == 'b' {
        Some(Piece::Bishop(Colour::Black))
    } else if c == 'N' {
        Some(Piece::Knight(Colour::White))
    } else if c == 'n' {
        Some(Piece::Knight(Colour::Black))
    } else if c == 'P' {
        Some(Piece::Pawn(Colour::White))
    } else if c == 'p' {
        Some(Piece::Pawn(Colour::Black))
    } else {
        None
    }
}

/// Whether `c` counts empty squares in a rank: a digit from 1 to 8.
pub open spec fn is_gap(c: char) -> bool {
    '1' <= c <= '8'
}

/// `n` empty squares.
pub open spec fn empties(n: int) -> Seq<Piece> {
    Seq::new(n as nat, |i: int| Piece::Empty)
}

/// The squares that a rank text writes, however many they are; `None` if a
/// character is neither a piece letter nor a digit from 1 to 8.
pub open spec fn expand(s: Seq<char>) -> Option<Seq<Piece>>
    decreases s.len(),
{
    if s.len() == 0 {
        Some(Seq::<Piece>::empty())
    } else {
        match expand(s.drop_last()) {
            None => None,
            Some(head) => {
                if piece_of_letter(s.last()) is Some {
                    Some(head.push(piece_of_letter(s.last())->0))
                } else if is_gap(s.last()) {
                    Some(head + empties(digit_value(s.last())))
                } else {
                    None
                }
            },
        }
    }
}

/// The rank that a text writes: what it expands to, if that is exactly
/// eight squares.
pub open spec fn parse_rank(s: Seq<char>) -> Option<Seq<Piece>> {
    match expand(s) {
        Some(row) => if row.len() == 8 {
            Some(row)
        } else {
            None
        },
        None => None,
    }
}

/// The number of empty squares at the end of a row.
pub open spec fn trailing_gap(row: Seq<Piece>) -> nat
    decreases row.len(),
{
    if row.len() == 0 {
        0
    } else if row.last() is Empty {
        trailing_gap(row.drop_last()) + 1
    } else {
        0
    }
}

/// How a gap of `n` empty squares is written: not at all if `n` is 0,
/// else as the digit `n`.
pub open spec fn gap_text(n: nat) -> Seq<char> {
    if n == 0 {
        Seq::<char>::empty()
    } else {
        seq![digit_char(n as int)]
    }
}

/// The text of a row up to its last piece: each piece as its letter, each
/// gap between pieces as a digit.
pub open spec fn text_to_last_piece(row: Seq<Piece>) -> Seq<char>
    decreases row.len(),
{
    if row.len() == 0 {
        Seq::<char>::empty()
    } else if row.last() is Empty {
        text_to_last_piece(row.drop_last())
    } else {
        (text_to_last_piece(row.drop_last()) + gap_text(trailing_gap(row.drop_last()))).push(
            letter_of(row.last()),
        )
    }
}

/// The text of a rank: pieces as letters, every run of empty squares as
/// one digit.
pub open spec fn rank_text(row: Seq<Piece>) -> Seq<char> {
    text_to_last_piece(row) + gap_text(trailing_gap(row))
}

// ---------------------------------------------------------------------------
// The six fields
// ---------------------------------------------------------------------------
/// The texts of the eight ranks of a board.
pub open spec fn rank_texts(g: Grid) -> Seq<Seq<char>> {
    Seq::new(8, |r: int| rank_text(g[r]))
}

/// The first field: the ranks from the top, separated by `/`.
pub open spec fn placement_text(g: Grid) -> Seq<char> {
    join(rank_texts(g), '/')
}

/// The board that a first field writes: eight ranks between `/`, each of
/// eight squares.
pub open spec fn parse_placement(s: Seq<char>) -> Option<Grid> {
    let ranks = split(s, '/');
    if ranks.len() == 8 && (forall|r: int| 0 <= r < 8 ==> parse_rank(#[trigger] ranks[r]) is Some) {
        Some(Seq::new(8, |r: int| parse_rank(ranks[r])->0))
    } else {
        None
    }
}

/// The second field.
pub open spec fn side_text(side: Colour) -> Seq<char> {
    match side {
        Colour::White => seq!['w'],
        Colour::Black => seq!['b'],
    }
}

/// The side that a second field names.
pub open spec fn parse_side(s: Seq<char>) -> Option<Colour> {
    if s == seq!['w'] {
        Some(Colour::White)
    } else if s == seq!['b'] {
        Some(Colour::Black)
    } else {
        None
    }
}

/// One castling letter, if its right is granted.
pub open spec fn right_text(granted: bool, letter: char) -> Seq<char> {
    if granted {
        seq![letter]
    } else {
        Seq::<char>::empty()
    }
}

/// The third field: the letters of the rights that are granted, in the
/// order `KQkq`; `-` if none is.
pub open spec fn castling_text(rights: (bool, bool, bool, bool)) -> Seq<char> {
    if !rights.0 && !rights.1 && !rights.2 && !rights.3 {
        seq!['-']
    } else {
        right_text(rights.0, 'K') + right_text(rights.1, 'Q') + right_text(rights.2, 'k')
            + right_text(rights.3, 'q')
    }
}

/// Whether `c` is one of the four castling letters.
pub open spec fn is_castling_letter(c: char) -> bool {
    c == 'K' || c == 'Q' || c == 'k' || c == 'q'
}

/// The rights that a third field grants: those whose letter occurs in it.
/// The field is `-` alone, or holds castling letters only, in any order and
/// number (none at all grants nothing).
pub open spec fn parse_castling(s: Seq<char>) -> Option<(bool, bool, bool, bool)> {
    if s == seq!['-'] {
        Some((false, false, false, false))
    } else if forall|i: int| 0 <= i < s.len() ==> is_castling_letter(#[trigger] s[i]) {
        Some((s.contains('K'), s.contains('Q'), s.contains('k'), s.contains('q')))
    } else {
        None
    }
}

/// The letter of a file: `a` for column 0 up to `h` for column 7.
pub open spec fn file_char(c: int) -> char {
    (c + 97) as char
}

/// The digit of a rank: `8` for row 0 down to `1` for row 7.
pub open spec fn rank_char(r: int) -> char {
    digit_char(8 - r)
}

/// The text of a square: its file letter, then its rank digit.
pub open spec fn square_text(sq: (int, int)) -> Seq<char> {
    seq![file_char(sq.1), rank_char(sq.0)]
}

/// The square that a text names, if it is a file letter `a`–`h` followed by
/// a rank digit `1`–`8`.
pub open spec fn parse_square(s: Seq<char>) -> Option<(int, int)> {
    if s.len() == 2 && 'a' <= s[0] <= 'h' && '1' <= s[1] <= '8' {
        Some((8 - digit_value(s[1]), s[0] as int - 97))
    } else {
        None
    }
}

/// The fourth field: the en passant square, or `-` if there is none.
pub open spec fn en_passant_text(target: Option<(int, int)>) -> Seq<char> {
    match target {
        Some(sq) => square_text(sq),
        None => seq!['-'],
    }
}

/// What a fourth field says of the en passant square.
pub open spec fn parse_en_passant(s: Seq<char>) -> Option<Option<(int, int)>> {
    if s == seq!['-'] {
        Some(None)
    } else if parse_square(s) is Some {
        Some(parse_square(s))
    } else {
        None
    }
}

// ---------------------------------------------------------------------------
// The whole text
// ---------------------------------------------------------------------------
/// The six fields of a position's text.
pub open spec fn fen_fields(p: Position) -> Seq<Seq<char>> {
    seq![
        placement_text(p.board),
        side_text(p.turn),
        castling_text(p.castlings),
        en_passant_text(p.en_passant),
        decimal(p.halfmove_clock),
        decimal(p.fullmove),
    ]
}

/// The text of a position.
pub open spec fn fen_text(p: Position) -> Seq<char> {
    join(fen_fields(p), ' ')
}

/// The position that a text writes, or the first thing wrong with it.
pub open spec fn parse_fen(s: Seq<char>) -> Result<Position, FenError> {
    let f = split(s, ' ');
    if f.len() != 6 {
        Err(FenError::FieldCount)
    } else if parse_placement(f[0]) is None {
        Err(FenError::Placement)
    } else if parse_side(f[1]) is None {
        Err(FenError::SideToMove)
    } else if parse_castling(f[2]) is None {
        Err(FenError::Castling)
    } else if parse_en_passant(f[3]) is None {
        Err(FenError::EnPassant)
    } else if number(f[4]) is None {
        Err(FenError::HalfmoveClock)
    } else if number(f[5]) is None {
        Err(FenError::FullmoveNumber)
    } else {
        Ok(
            Position {
                board: parse_placement(f[0])->0,
                turn: parse_side(f[1])->0,
                castlings: parse_castling(f[2])->0,
                en_passant: parse_en_passant(f[3])->0,
                halfmove_clock: number(f[4])->0,
                fullmove: number(f[5])->0,
            },
        )
    }
}

// ---------------------------------------------------------------------------
// Writing
// ---------------------------------------------------------------------------
/// The letter that writes a piece.
pub fn piece_letter(p: Piece) -> (c: char)
    ensures
        c == letter_of(p),
{
    match p {
        Piece::King(Colour::White) => 'K',
        Piece::King(Colour::Black) => 'k',
        Piece::Queen(Colour::White) => 'Q',
        Piece::Queen(Colour::Black) => 'q',
        Piece::Rook(Colour::White) => 'R',
        Piece::Rook(Colour::Black) => 'r',
        Piece::Bishop(Colour::White) => 'B',
        Piece::Bishop(Colour::Black) => 'b',
        Piece::Knight(Colour::White) => 'N',
        Piece::Knight(Colour::Black) => 'n',
        Piece::Pawn(Colour::White) => 'P',
        Piece::Pawn(Colour::Black) => 'p',
        Piece::Empty => '1',
    }
}

/// Appends the text of a rank.
pub fn push_rank(out: &mut String, row: &Vec<Piece>)
    requires
        row@.len() == 8,
    ensures
        final(out)@ == old(out)@ + rank_text(row@),
{
    let mut gap: u8 = 0;
    let mut c: usize = 0;
    assert(old(out)@ + text_to_last_piece(row@.take(0)) =~= old(out)@);
    while c < 8
        invariant
            c <= 8,
            row@.len() == 8,
            gap <= c,
            gap as nat == trailing_gap(row@.take(c as int)),
            out@ == old(out)@ + text_to_last_piece(row@.take(c as int)),
        decreases 8 - c,
    {
        let ghost before = row@.take(c as int);
        let ghost prefix = row@.take(c + 1);
        assert(prefix.drop_last() =~= before);
        assert(prefix.last() == row@[c as int]);
        let p: Piece = row[c];
        match p {
            Piece::Empty => {
                gap += 1;
            },
            _ => {
                if gap > 0 {
                    out.push(digit(gap));
                    gap = 0;
                }
                out.push(piece_letter(p));
                assert(out@ =~= old(out)@ + text_to_last_piece(prefix));
            },
        }
        c += 1;
    }
    assert(row@.take(8) =~= row@);
    if gap > 0 {
        out.push(digit(gap));
    }
    assert(out@ =~= old(out)@ + rank_text(row@));
}

/// Appends the first field: the eight ranks, separated by `/`.
pub fn push_placement(out: &mut String, board: &Vec<Vec<Piece>>)
    requires
        grid_wf(grid(board)),
    ensures
        final(out)@ == old(out)@ + placement_text(grid(board)),
{
    let ghost texts = rank_texts(grid(board));
    let mut r: usize = 0;
    assert(old(out)@ + join(texts.take(0), '/') =~= old(out)@);
    while r < 8
        invariant
            r <= 8,
            grid_wf(grid(board)),
            texts == rank_texts(grid(board)),
            out@ == old(out)@ + join(texts.take(r as int), '/'),
        decreases 8 - r,
    {
        let ghost done = texts.take(r as int);
        let ghost next = texts.take(r + 1);
        assert(next.drop_last() =~= done);
        assert(next.last() == rank_text(grid(board)[r as int]));
        assert(grid(board)[r as int].len() == 8);
        if r > 0 {
            out.push('/');
        }
        push_rank(out, &board[r]);
        assert(out@ =~= old(out)@ + join(next, '/'));
        r += 1;
    }
    assert(texts.take(8) =~= texts);
}

/// Appends the second field.
pub fn push_side(out: &mut String, side: Colour)
    ensures
        final(out)@ == old(out)@ + side_text(side),
{
    match side {
        Colour::White => out.push('w'),
        Colour::Black => out.push('b'),
    }
    assert(out@ =~= old(out)@ + side_text(side));
}

/// Appends the third field.
pub fn push_castling(out: &mut String, rights: (bool, bool, bool, bool))
    ensures
        final(out)@ == old(out)@ + castling_text(rights),
{
    if !rights.0 && !rights.1 && !rights.2 && !rights.3 {
        out.push('-');
    } else {
        if rights.0 {
            out.push('K');
        }
        if rights.1 {
            out.push('Q');
        }
        if rights.2 {
            out.push('k');
        }
        if rights.3 {
            out.push('q');
        }
    }
    assert(out@ =~= old(out)@ + castling_text(rights));
}

/// The letter of a file.
pub fn file_letter(c: usize) -> (res: char)
    requires
        c < 8,
    ensures
        res == file_char(c as int),
        'a' <= res <= 'h',
{
    ((c as u8) + 97) as char
}

/// Appends the fourth field.
pub fn push_en_passant(out: &mut String, target: (usize, usize))
    requires
        en_passant_wf(target),
    ensures
        final(out)@ == old(out)@ + en_passant_text(en_passant_model(target)),
{
    if target.0 < 8 && target.1 < 8 {
        out.push(file_letter(target.1));
        out.push(digit((8 - target.0) as u8));
    } else {
        out.push('-');
    }
    assert(out@ =~= old(out)@ + en_passant_text(en_passant_model(target)));
}

// ---------------------------------------------------------------------------
// Reading
// ---------------------------------------------------------------------------
/// The piece that a letter writes, if it writes one.
pub fn letter_piece(c: char) -> (res: Option<Piece>)
    ensures
        res == piece_of_letter(c),
{
    if c == 'K' {
        Some(Piece::King(Colour::White))
    } else if c == 'k' {
        Some(Piece::King(Colour::Black))
    } else if c == 'Q' {
        Some(Piece::Queen(Colour::White))
    } else if c == 'q' {
        Some(Piece::Queen(Colour::Black))
    } else if c == 'R' {
        Some(Piece::Rook(Colour::White))
    } else if c == 'r' {
        Some(Piece::Rook(Colour::Black))
    } else if c == 'B' {
        Some(Piece::Bishop(Colour::White))
    } else if c == 'b' {
        Some(Piece::Bishop(Colour::Black))
    } else if c == 'N' {
        Some(Piece::Knight(Colour::White))
    } else if c == 'n' {
        Some(Piece::Knight(Colour::Black))
    } else if c == 'P' {
        Some(Piece::Pawn(Colour::White))
    } else if c == 'p' {
        Some(Piece::Pawn(Colour::Black))
    } else {
        None
    }
}

/// A text whose beginning cannot be expanded cannot be expanded.
pub proof fn lemma_expand_prefix(s: Seq<char>, k: int)
    requires
        0 <= k <= s.len(),
        expand(s.take(k)) is None,
    ensures
        expand(s) is None,
    decreases s.len(),
{
    if k == s.len() {
        assert(s.take(k) =~= s);
    } else {
        assert(s.drop_last().take(k) =~= s.take(k));
        lemma_expand_prefix(s.drop_last(), k);
    }
}

/// Reads a rank.
pub fn read_rank(s: &Vec<char>) -> (res: Option<Vec<Piece>>)
    ensures
        res is Some <==> parse_rank(s@) is Some,
        res matches Some(row) ==> row@ == parse_rank(s@)->0,
{
    let mut row: Vec<Piece> = Vec::new();
    let mut i: usize = 0;
    assert(s@.take(0) =~= Seq::<char>::empty());
    while i < s.len()
        invariant
            i <= s.len(),
            expand(s@.take(i as int)) == Some(row@),
        decreases s.len() - i,
    {
        let ghost before = row@;
        let ghost prefix = s@.take(i + 1);
        assert(prefix.drop_last() =~= s@.take(i as int));
        assert(prefix.last() == s@[i as int]);
        let c: char = s[i];
        match letter_piece(c) {
            Some(p) => {
                row.push(p);
            },
            None => {
                let gap: u8 = match digit_of(c) {
                    Some(d) => d,
                    None => 0,
                };
                if 1 <= gap && gap <= 8 {
                    let mut n: u8 = 0;
                    while n < gap
                        invariant
                            n <= gap,
                            row@ == before + empties(n as int),
                        decreases gap - n,
                    {
                        row.push(Piece::Empty);
                        n += 1;
                        assert(row@ =~= before + empties(n as int));
                    }
                } else {
                    proof {
                        assert(!is_gap(c));
                        assert(expand(prefix) is None);
                        lemma_expand_prefix(s@, i + 1);
                    }
                    return None;
                }
            },
        }
        i += 1;
    }
    assert(s@.take(i as int) =~= s@);
    if row.len() == 8 {
        Some(row)
    } else {
        None
    }
}

/// Reads the first field.
pub fn read_placement(s: &Vec<char>) -> (res: Option<Vec<Vec<Piece>>>)
    ensures
        res is Some <==> parse_placement(s@) is Some,
        res matches Some(board) ==> grid(&board) == parse_placement(s@)->0 && grid_wf(
            grid(&board),
        ),
{
    let ranks: Vec<Vec<char>> = split_chars(s, '/');
    if ranks.len() != 8 {
        return None;
    }
    let ghost texts = split(s@, '/');
    let mut board: Vec<Vec<Piece>> = Vec::new();
    let mut r: usize = 0;
    while r < 8
        invariant
            r <= 8,
            ranks@.len() == 8,
            rows(&ranks) == texts,
            texts == split(s@, '/'),
            board@.len() == r,
            forall|i: int| 0 <= i < r ==> parse_rank(#[trigger] texts[i]) == Some(board@[i]@),
        decreases 8 - r,
    {
        assert(texts[r as int] == ranks@[r as int]@);
        match read_rank(&ranks[r]) {
            Some(row) => {
                board.push(row);
            },
            None => {
                return None;
            },
        }
        r += 1;
    }
    assert(grid(&board) =~= parse_placement(s@)->0);
    Some(board)
}

/// Reads the second field.
pub fn read_side(s: &Vec<char>) -> (res: Option<Colour>)
    ensures
        res == parse_side(s@),
{
    if s.len() == 1 && s[0] == 'w' {
        assert(s@ =~= seq!['w']);
        Some(Colour::White)
    } else if s.len() == 1 && s[0] == 'b' {
        assert(s@ =~= seq!['b']);
        Some(Colour::Black)
    } else {
        assert(seq!['w'].len() == 1 && seq!['w'][0] == 'w');
        assert(seq!['b'].len() == 1 && seq!['b'][0] == 'b');
        None
    }
}

/// Reads the third field.
pub fn read_castling(s: &Vec<char>) -> (res: Option<(bool, bool, bool, bool)>)
    ensures
        res == parse_castling(s@),
{
    if s.len() == 1 && s[0] == '-' {
        assert(s@ =~= seq!['-']);
        return Some((false, false, false, false));
    }
    assert(seq!['-'].len() == 1 && seq!['-'][0] == '-');
    let mut rights: (bool, bool, bool, bool) = (false, false, false, false);
    let mut i: usize = 0;
    while i < s.len()
        invariant
            i <= s.len(),
            s@ != seq!['-'],
            forall|j: int| 0 <= j < i ==> is_castling_letter(#[trigger] s@[j]),
            rights.0 == s@.take(i as int).contains('K'),
            rights.1 == s@.take(i as int).contains('Q'),
            rights.2 == s@.take(i as int).contains('k'),
            rights.3 == s@.take(i as int).contains('q'),
        decreases s.len() - i,
    {
        let c: char = s[i];
        let ghost before = s@.take(i as int);
        let ghost after = s@.take(i + 1);
        assert(after =~= before.push(c));
        assert(forall|x: char| after.contains(x) <==> before.contains(x) || x == c) by {
            assert forall|x: char| after.contains(x) implies before.contains(x) || x == c by {
                let j = choose|j: int| 0 <= j < after.len() && after[j] == x;
                if j < i {
                    assert(before[j] == x);
                }
            }
            assert forall|x: char| before.contains(x) || x == c implies after.contains(x) by {
                if before.contains(x) {
                    let j = choose|j: int| 0 <= j < before.len() && before[j] == x;
                    assert(after[j] == x);
                } else {
                    assert(after[i as int] == x);
                }
            }
        }
        if c == 'K' {
            rights.0 = true;
        } else if c == 'Q' {
            rights.1 = true;
        } else if c == 'k' {
            rights.2 = true;
        } else if c == 'q' {
            rights.3 = true;
        } else {
            assert(!is_castling_letter(s@[i as int]));
            return None;
        }
        i += 1;
    }
    assert(s@.take(i as int) =~= s@);
    Some(rights)
}

/// Reads a square: a file letter, then a rank digit.
pub fn read_square(s: &Vec<char>) -> (res: Option<(usize, usize)>)
    ensures
        res is Some <==> parse_square(s@) is Some,
        res matches Some(sq) ==> parse_square(s@) == Some((sq.0 as int, sq.1 as int)) && on_board(
            sq.0 as int,
            sq.1 as int,
        ),
{
    if s.len() == 2 && s[0] >= 'a' && s[0] <= 'h' && s[1] >= '1' && s[1] <= '8' {
        let file: usize = ((s[0] as u32) - 97) as usize;
        let rank: usize = ((s[1] as u32) - 48) as usize;
        Some((8 - rank, file))
    } else {
        None
    }
}

/// The square that `square` names, as in `a4` or `c6`: a file letter `a`–`h`
/// followed by a rank digit `1`–`8`. The result is the pair of row and
/// column, with row 0 for rank 8.
pub fn convert_square(square: &str) -> (res: (usize, usize))
    requires
        parse_square(square@) is Some,
    ensures
        parse_square(square@) == Some((res.0 as int, res.1 as int)),
        on_board(res.0 as int, res.1 as int),
{
    let text: Vec<char> = chars_of(square);
    match read_square(&text) {
        Some(sq) => sq,
        None => (8, 8),
    }
}

/// Reads the fourth field. No square is stored as the pair `(8, 8)`.
pub fn read_en_passant(s: &Vec<char>) -> (res: Option<(usize, usize)>)
    ensures
        res is Some <==> parse_en_passant(s@) is Some,
        res matches Some(sq) ==> parse_en_passant(s@) == Some(en_passant_model(sq))
            && en_passant_wf(sq),
{
    if s.len() == 1 && s[0] == '-' {
        assert(s@ =~= seq!['-']);
        Some((8, 8))
    } else {
        assert(seq!['-'].len() == 1 && seq!['-'][0] == '-');
        read_square(s)
    }
}

/// What a position text records, as stored values.
#[derive(Debug, PartialEq, Eq)]
pub struct FenRecord {
    /// The pieces, row by row.
    pub board: Vec<Vec<Piece>>,
    /// The side to move.
    pub current_turn: Colour,
    /// The castling rights: White kingside, White queenside, Black kingside,
    /// Black queenside.
    pub castlings: (bool, bool, bool, bool),
    /// The en passant square, or `(8, 8)` for none.
    pub en_passant_square: (usize, usize),
    /// The number of moves since the last capture or pawn move.
    pub halfmove_clock: usize,
    /// The number of the move.
    pub turn: usize,
}

impl View for FenRecord {
    type V = Position;

    open spec fn view(&self) -> Position {
        Position {
            board: grid(&self.board),
            turn: self.current_turn,
            castlings: self.castlings,
            en_passant: en_passant_model(self.en_passant_square),
            halfmove_clock: self.halfmove_clock as nat,
            fullmove: self.turn as nat,
        }
    }
}

/// Reads a position text.
pub fn read_fen(s: &Vec<char>) -> (res: Result<FenRecord, FenError>)
    ensures
        match res {
            Ok(record) => parse_fen(s@) == Ok::<Position, FenError>(record@) && record@.wf()
                && en_passant_wf(record.en_passant_square),
            Err(e) => parse_fen(s@) == Err::<Position, FenError>(e),
        },
{
    let mut fields: Vec<Vec<char>> = split_chars(s, ' ');
    if fields.len() != 6 {
        return Err(FenError::FieldCount);
    }
    let ghost f = split(s@, ' ');
    assert(forall|i: int| 0 <= i < 6 ==> f[i] == (#[trigger] fields@[i])@);
    let board: Vec<Vec<Piece>> = match read_placement(&fields[0]) {
        Some(board) => board,
        None => {
            return Err(FenError::Placement);
        },
    };
    let current_turn: Colour = match read_side(&fields[1]) {
        Some(side) => side,
        None => {
            return Err(FenError::SideToMove);
        },
    };
    let castlings: (bool, bool, bool, bool) = match read_castling(&fields[2]) {
        Some(rights) => rights,
        None => {
            return Err(FenError::Castling);
        },
    };
    let en_passant_square: (usize, usize) = match read_en_passant(&fields[3]) {
        Some(sq) => sq,
        None => {
            return Err(FenError::EnPassant);
        },
    };
    let halfmove_clock: usize = match parse_number(&fields[4]) {
        Some(n) => n,
        None => {
            return Err(FenError::HalfmoveClock);
        },
    };
    let turn: usize = match parse_number(&fields[5]) {
        Some(n) => n,
        None => {
            return Err(FenError::FullmoveNumber);
        },
    };
    Ok(FenRecord { board, current_turn, castlings, en_passant_square, halfmove_clock, turn })
}

} // verus!
