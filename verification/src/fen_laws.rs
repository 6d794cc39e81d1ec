//! What holds of the text notation: reading the text of a position gives
//! the position back.

use crate::board::{grid_wf, on_board, Grid};
use crate::fen::{
    castling_text, empties, en_passant_text, expand, fen_fields, fen_text, file_char, gap_text,
    is_castling_letter, is_gap, letter_of, parse_castling, parse_en_passant, parse_fen,
    parse_placement, parse_rank, parse_side, parse_square, piece_of_letter, placement_text,
    rank_char, rank_text, rank_texts, right_text, side_text, square_text, text_to_last_piece,
    trailing_gap, FenError,
};
use crate::piece::Piece;
use crate::position::Position;
use crate::text::{
    all_digits, decimal, digit_char, digit_value, digits_value, is_digit, join, number, split,
    unsigned_body,
};
use vstd::prelude::*;

verus! {

/// Whether the character `c` does not occur in `s`.
pub open spec fn free_of(s: Seq<char>, c: char) -> bool {
    forall|i: int| 0 <= i < s.len() ==> #[trigger] s[i] != c
}

/// A text without the separator is a single field.
pub proof fn lemma_split_single(s: Seq<char>, sep: char)
    requires
        free_of(s, sep),
    ensures
        split(s, sep) == seq![s],
    decreases s.len(),
{
    if s.len() == 0 {
        assert(s =~= Seq::<char>::empty());
    } else {
        let init = s.drop_last();
        assert(free_of(init, sep)) by {
            assert forall|i: int| 0 <= i < init.len() implies #[trigger] init[i] != sep by {
                assert(init[i] == s[i]);
            }
        }
        lemma_split_single(init, sep);
        assert(s.last() == s[s.len() - 1]);
        let head = split(init, sep);
        assert(head.drop_last() =~= Seq::<Seq<char>>::empty());
        assert(head.last().push(s.last()) =~= s);
        assert(split(s, sep) =~= seq![s]);
    }
}

/// A separator followed by a text without it adds that text as one more
/// field.
pub proof fn lemma_split_append(a: Seq<char>, b: Seq<char>, sep: char)
    requires
        free_of(b, sep),
    ensures
        split(a.push(sep) + b, sep) == split(a, sep).push(b),
    decreases b.len(),
{
    let whole = a.push(sep) + b;
    if b.len() == 0 {
        assert(whole =~= a.push(sep));
        assert(whole.drop_last() =~= a);
        assert(b =~= Seq::<char>::empty());
    } else {
        let init = b.drop_last();
        assert(free_of(init, sep)) by {
            assert forall|i: int| 0 <= i < init.len() implies #[trigger] init[i] != sep by {
                assert(init[i] == b[i]);
            }
        }
        lemma_split_append(a, init, sep);
        assert(whole.drop_last() =~= a.push(sep) + init);
        assert(whole.last() == b[b.len() - 1]);
        let head = split(a.push(sep) + init, sep);
        assert(head.drop_last() =~= split(a, sep));
        assert(head.last() == init);
        assert(init.push(b.last()) =~= b);
    }
}

/// Splitting what was joined gives the fields back, as long as no field
/// holds the separator.
pub proof fn lemma_split_join(parts: Seq<Seq<char>>, sep: char)
    requires
        parts.len() >= 1,
        forall|i: int| 0 <= i < parts.len() ==> free_of(#[trigger] parts[i], sep),
    ensures
        split(join(parts, sep), sep) == parts,
    decreases parts.len(),
{
    if parts.len() == 1 {
        lemma_split_single(parts[0], sep);
        assert(seq![parts[0]] =~= parts);
    } else {
        let init = parts.drop_last();
        assert forall|i: int| 0 <= i < init.len() implies free_of(#[trigger] init[i], sep) by {
            assert(init[i] == parts[i]);
        }
        lemma_split_join(init, sep);
        lemma_split_append(join(init, sep), parts.last(), sep);
        assert(init.push(parts.last()) =~= parts);
    }
}

/// A character that is neither the separator nor in any field is not in the
/// joined text.
pub proof fn lemma_join_free_of(parts: Seq<Seq<char>>, sep: char, c: char)
    requires
        c != sep,
        forall|i: int| 0 <= i < parts.len() ==> free_of(#[trigger] parts[i], c),
    ensures
        free_of(join(parts, sep), c),
    decreases parts.len(),
{
    if parts.len() >= 2 {
        let init = parts.drop_last();
        assert forall|i: int| 0 <= i < init.len() implies free_of(#[trigger] init[i], c) by {
            assert(init[i] == parts[i]);
        }
        lemma_join_free_of(init, sep, c);
        assert(free_of(parts.last(), c));
    } else if parts.len() == 1 {
        assert(free_of(parts[0], c));
    }
}

/// The decimal text of a number is a run of digits that writes the number.
pub proof fn lemma_decimal(n: nat)
    ensures
        decimal(n).len() >= 1,
        all_digits(decimal(n)),
        digits_value(decimal(n)) == n,
    decreases n,
{
    if n < 10 {
        let s = decimal(n);
        assert(s.drop_last() =~= Seq::<char>::empty());
        assert(digits_value(s.drop_last()) == 0);
    } else {
        lemma_decimal(n / 10);
        let s = decimal(n);
        assert(s.drop_last() =~= decimal(n / 10));
    }
}

/// Reading the decimal text of a number that fits gives the number.
pub proof fn lemma_number_of_decimal(n: nat)
    requires
        n <= usize::MAX,
    ensures
        number(decimal(n)) == Some(n),
        free_of(decimal(n), ' '),
{
    lemma_decimal(n);
    assert(is_digit(decimal(n)[0]));
    assert(unsigned_body(decimal(n)) == decimal(n));
}

/// The end of a row is as many empty squares as its trailing gap counts.
pub proof fn lemma_trailing_gap(row: Seq<Piece>)
    ensures
        trailing_gap(row) <= row.len(),
        row == row.take(row.len() - trailing_gap(row)) + empties(trailing_gap(row) as int),
    decreases row.len(),
{
    if row.len() == 0 {
        assert(row =~= row.take(0) + empties(0));
    } else if row.last() is Empty {
        let init = row.drop_last();
        lemma_trailing_gap(init);
        let g = trailing_gap(init);
        assert(row.take(row.len() - (g + 1)) =~= init.take(init.len() - g));
        assert forall|i: int| init.len() - g <= i < init.len() implies init[i]
            == Piece::Empty by {
            let parts = init.take(init.len() - g) + empties(g as int);
            assert(init[i] == parts[i]);
        }
        let kept = row.len() - (g + 1);
        let parts = row.take(kept) + empties((g + 1) as int);
        assert(parts.len() == row.len());
        assert forall|i: int| 0 <= i < row.len() implies row[i] == parts[i] by {
            if i >= kept {
                assert(parts[i] == empties((g + 1) as int)[i - kept]);
                if i < init.len() {
                    assert(row[i] == init[i]);
                } else {
                    assert(row[i] == row.last());
                }
            }
        }
        assert(row =~= parts);
    } else {
        assert(row =~= row.take(row.len() as int) + empties(0));
    }
}

/// Whether `c` may stand in a rank text: a piece letter or a digit from 1
/// to 8.
pub open spec fn is_rank_char(c: char) -> bool {
    piece_of_letter(c) is Some || is_gap(c)
}

/// The text of a row up to its last piece expands to the row without its
/// trailing gap, and holds rank characters only.
pub proof fn lemma_expand_to_last_piece(row: Seq<Piece>)
    requires
        row.len() <= 8,
    ensures
        expand(text_to_last_piece(row)) == Some(row.take(row.len() - trailing_gap(row))),
        forall|i: int|
            0 <= i < text_to_last_piece(row).len() ==> is_rank_char(
                #[trigger] text_to_last_piece(row)[i],
            ),
    decreases row.len(),
{
    lemma_trailing_gap(row);
    if row.len() == 0 {
        assert(row.take(0) =~= Seq::<Piece>::empty());
    } else {
        let init = row.drop_last();
        lemma_expand_to_last_piece(init);
        lemma_trailing_gap(init);
        let g = trailing_gap(init);
        if row.last() is Empty {
            assert(row.take(row.len() - (g + 1)) =~= init.take(init.len() - g));
        } else {
            let p = row.last();
            let t = text_to_last_piece(init);
            let mid = t + gap_text(g);
            assert(expand(mid) == Some(init)) by {
                if g == 0 {
                    assert(mid =~= t);
                    assert(init.take(init.len() as int) =~= init);
                } else {
                    assert(mid =~= t.push(digit_char(g as int)));
                    assert(mid.drop_last() =~= t);
                    assert(mid.last() == digit_char(g as int));
                    assert(is_gap(digit_char(g as int)));
                    assert(piece_of_letter(digit_char(g as int)) is None);
                    assert(digit_value(digit_char(g as int)) == g);
                }
            }
            let full = text_to_last_piece(row);
            assert(full == mid.push(letter_of(p)));
            assert(full.drop_last() =~= mid);
            assert(piece_of_letter(letter_of(p)) == Some(p));
            assert(init.push(p) =~= row);
            assert(row.take(row.len() as int) =~= row);
            assert forall|i: int| 0 <= i < full.len() implies is_rank_char(#[trigger] full[i]) by {
                if i < t.len() {
                    assert(full[i] == t[i]);
                } else if i < mid.len() {
                    assert(full[i] == digit_char(g as int));
                    assert(is_gap(digit_char(g as int)));
                } else {
                    assert(full[i] == letter_of(p));
                }
            }
        }
    }
}

/// Reading the text of a rank gives the rank, and the text holds rank
/// characters only.
pub proof fn lemma_rank_round_trip(row: Seq<Piece>)
    requires
        row.len() == 8,
    ensures
        parse_rank(rank_text(row)) == Some(row),
        free_of(rank_text(row), '/'),
        free_of(rank_text(row), ' '),
{
    lemma_expand_to_last_piece(row);
    lemma_trailing_gap(row);
    let g = trailing_gap(row);
    let t = text_to_last_piece(row);
    let full = rank_text(row);
    if g == 0 {
        assert(full =~= t);
        assert(row.take(row.len() as int) =~= row);
    } else {
        assert(full =~= t.push(digit_char(g as int)));
        assert(full.drop_last() =~= t);
        assert(full.last() == digit_char(g as int));
        assert(is_gap(digit_char(g as int)));
        assert(piece_of_letter(digit_char(g as int)) is None);
        assert(digit_value(digit_char(g as int)) == g);
    }
    assert forall|i: int| 0 <= i < full.len() implies is_rank_char(#[trigger] full[i]) by {
        if i < t.len() {
            assert(full[i] == t[i]);
        } else {
            assert(full[i] == digit_char(g as int));
            assert(is_gap(digit_char(g as int)));
        }
    }
    assert(!is_rank_char('/'));
    assert(!is_rank_char(' '));
}

/// Reading the first field of a board's text gives the board.
pub proof fn lemma_placement_round_trip(g: Grid)
    requires
        grid_wf(g),
    ensures
        parse_placement(placement_text(g)) == Some(g),
        free_of(placement_text(g), ' '),
{
    let texts = rank_texts(g);
    assert forall|r: int| 0 <= r < 8 implies free_of(#[trigger] texts[r], '/') && free_of(
        texts[r],
        ' ',
    ) && parse_rank(texts[r]) == Some(g[r]) by {
        assert(g[r].len() == 8);
        lemma_rank_round_trip(g[r]);
    }
    lemma_split_join(texts, '/');
    lemma_join_free_of(texts, '/', ' ');
    assert(Seq::new(8, |r: int| parse_rank(texts[r])->0) =~= g);
}

/// Reading the third field written for some rights gives those rights.
pub proof fn lemma_castling_round_trip(rights: (bool, bool, bool, bool))
    ensures
        parse_castling(castling_text(rights)) == Some(rights),
        free_of(castling_text(rights), ' '),
{
    let s = castling_text(rights);
    if !rights.0 && !rights.1 && !rights.2 && !rights.3 {
    } else {
        let k = right_text(rights.0, 'K');
        let q = right_text(rights.1, 'Q');
        let bk = right_text(rights.2, 'k');
        let bq = right_text(rights.3, 'q');
        assert(s == k + q + bk + bq);
        assert(s.len() >= 1);
        assert(s[0] != '-');
        assert(seq!['-'][0] == '-');
        assert(forall|i: int| 0 <= i < s.len() ==> is_castling_letter(#[trigger] s[i]));
        assert(s.contains('K') == rights.0) by {
            if rights.0 {
                assert(s[0] == 'K');
            }
        }
        assert(s.contains('Q') == rights.1) by {
            if rights.1 {
                assert(s[k.len() as int] == 'Q');
            }
        }
        assert(s.contains('k') == rights.2) by {
            if rights.2 {
                assert(s[(k.len() + q.len()) as int] == 'k');
            }
        }
        assert(s.contains('q') == rights.3) by {
            if rights.3 {
                assert(s[(k.len() + q.len() + bk.len()) as int] == 'q');
            }
        }
    }
}

/// Reading the text of a square of the board gives the square.
pub proof fn lemma_square_round_trip(sq: (int, int))
    requires
        on_board(sq.0, sq.1),
    ensures
        parse_square(square_text(sq)) == Some(sq),
        free_of(square_text(sq), ' '),
        square_text(sq) != seq!['-'],
{
    let s = square_text(sq);
    assert(s[0] == file_char(sq.1));
    assert(s[1] == rank_char(sq.0));
    assert(s.len() == 2);
    assert(seq!['-'].len() == 1);
}

/// Reading the text of a position gives the position.
pub proof fn lemma_fen_round_trip(p: Position)
    requires
        p.wf(),
    ensures
        parse_fen(fen_text(p)) == Ok::<Position, FenError>(p),
{
    let fields = fen_fields(p);
    lemma_placement_round_trip(p.board);
    lemma_castling_round_trip(p.castlings);
    lemma_number_of_decimal(p.halfmove_clock);
    lemma_number_of_decimal(p.fullmove);
    match p.en_passant {
        Some(sq) => {
            lemma_square_round_trip(sq);
        },
        None => {},
    }
    assert(parse_side(side_text(p.turn)) == Some(p.turn)) by {
        assert(seq!['w'][0] == 'w');
        assert(seq!['b'][0] == 'b');
    }
    assert(free_of(side_text(p.turn), ' '));
    assert(free_of(en_passant_text(p.en_passant), ' '));
    assert(parse_en_passant(en_passant_text(p.en_passant)) == Some(p.en_passant));
    assert forall|i: int| 0 <= i < fields.len() implies free_of(#[trigger] fields[i], ' ') by {}
    lemma_split_join(fields, ' ');
    let q = parse_fen(fen_text(p))->Ok_0;
    assert(q.board =~= p.board);
}

} // verus!
