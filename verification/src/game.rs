//! A game: one position, the promotion that the side to move has chosen,
//! and the state that the last move left.

use crate::attack::is_in_check;
use crate::board::{
    copy_board, empty_grid, empty_row, grid, grid_wf, new_empty_board, new_empty_row, on_board,
    piece_at, put, Grid,
};
use crate::fen::{
    fen_text, parse_fen, push_castling, push_en_passant, push_placement, push_side, read_fen,
    read_square, FenError,
};
use crate::laws::lemma_legal_move_keeps_king_safe;
use crate::moves::lists_square;
use crate::piece::{Colour, Piece};
use crate::position::{en_passant_model, en_passant_wf, Position};
use crate::rules::{in_check, legal};
use crate::text::{chars_of, join, push_decimal, split, split_chars};
use crate::turn::{
    check_state, game_after, has_reply, is_en_passant, parse_move, position_after, reply,
    requested_move, rights_without, side_effects, state_of,
};
use vstd::prelude::*;

verus! {

/// Whether the side to move is in check, and whether it has a way out.
#[derive(Debug, Clone, Copy, PartialEq, Eq, Structural)]
pub enum GameState {
    InProgress,
    Check,
    Checkmate,
}

/// The letter given as a promotion choice names no piece that a pawn can
/// become.
#[derive(Debug, Clone, Copy, PartialEq, Eq, Structural)]
pub struct InvalidPromotion {
    /// The letter that was given.
    pub letter: char,
}

/// The full state of a game of chess.
#[derive(Debug, PartialEq, Eq)]
pub struct Game {
    /// The pieces: eight rows of eight squares, Black's back rank first.
    pub board: Vec<Vec<Piece>>,
    /// The side to move.
    pub current_turn: Colour,
    /// The castling rights: White kingside, White queenside, Black kingside,
    /// Black queenside.
    pub castlings: (bool, bool, bool, bool),
    /// The square that a pawn may capture on in passing; `(8, 8)` for none.
    pub en_passant_square: (usize, usize),
    /// The number of moves since the last capture or pawn move.
    pub halfmove_clock: usize,
    /// The number of the move; it goes up after each move of Black.
    pub turn: usize,
    /// The piece that the next pawn to reach the far rank becomes.
    pub selected_promotion: Piece,
    /// The state that the last move left.
    pub game_state: GameState,
}

/// A game as a mathematical value.
pub struct GameView {
    /// The position.
    pub position: Position,
    /// The piece that the next pawn to reach the far rank becomes.
    pub promotion: Piece,
    /// The state that the last move left.
    pub state: GameState,
}

impl View for Game {
    type V = GameView;

    open spec fn view(&self) -> GameView {
        GameView {
            position: Position {
                board: grid(&self.board),
                turn: self.current_turn,
                castlings: self.castlings,
                en_passant: en_passant_model(self.en_passant_square),
                halfmove_clock: self.halfmove_clock as nat,
                fullmove: self.turn as nat,
            },
            promotion: self.selected_promotion,
            state: self.game_state,
        }
    }
}

impl Clone for Game {
    /// A copy of the game, equal to it in every part.
    fn clone(&self) -> (res: Game)
        ensures
            res@ == self@,
            res.en_passant_square == self.en_passant_square,
    {
        Game {
            board: copy_board(&self.board),
            current_turn: self.current_turn,
            castlings: self.castlings,
            en_passant_square: self.en_passant_square,
            halfmove_clock: self.halfmove_clock,
            turn: self.turn,
            selected_promotion: self.selected_promotion,
            game_state: self.game_state,
        }
    }
}

/// The back rank of a side at the start of a game.
pub open spec fn back_rank(side: Colour) -> Seq<Piece> {
    seq![
        Piece::Rook(side),
        Piece::Knight(side),
        Piece::Bishop(side),
        Piece::Queen(side),
        Piece::King(side),
        Piece::Bishop(side),
        Piece::Knight(side),
        Piece::Rook(side),
    ]
}

/// The pawn rank of a side at the start of a game.
pub open spec fn pawn_rank(side: Colour) -> Seq<Piece> {
    Seq::new(8, |c: int| Piece::Pawn(side))
}

/// The board at the start of a game.
pub open spec fn standard_grid() -> Grid {
    seq![
        back_rank(Colour::Black),
        pawn_rank(Colour::Black),
        empty_row(),
        empty_row(),
        empty_row(),
        empty_row(),
        pawn_rank(Colour::White),
        back_rank(Colour::White),
    ]
}

/// The position at the start of a game.
pub open spec fn standard_position() -> Position {
    Position {
        board: standard_grid(),
        turn: Colour::White,
        castlings: (true, true, true, true),
        en_passant: None,
        halfmove_clock: 0,
        fullmove: 1,
    }
}

/// The position with no piece on the board, White to move and every
/// castling right granted.
pub open spec fn empty_position() -> Position {
    Position {
        board: empty_grid(),
        turn: Colour::White,
        castlings: (true, true, true, true),
        en_passant: None,
        halfmove_clock: 0,
        fullmove: 1,
    }
}

/// The kind of piece that a promotion letter chooses, in White: `q`, `r`,
/// `b` or `n`, in either case.
pub open spec fn promotion_of_letter(letter: char) -> Option<Piece> {
    if letter == 'q' || letter == 'Q' {
        Some(Piece::Queen(Colour::White))
    } else if letter == 'r' || letter == 'R' {
        Some(Piece::Rook(Colour::White))
    } else if letter == 'b' || letter == 'B' {
        Some(Piece::Bishop(Colour::White))
    } else if letter == 'n' || letter == 'N' {
        Some(Piece::Knight(Colour::White))
    } else {
        None
    }
}

fn back_rank_of(side: Colour) -> (row: Vec<Piece>)
    ensures
        row@ == back_rank(side),
{
    let mut row: Vec<Piece> = Vec::new();
    row.push(Piece::Rook(side));
    row.push(Piece::Knight(side));
    row.push(Piece::Bishop(side));
    row.push(Piece::Queen(side));
    row.push(Piece::King(side));
    row.push(Piece::Bishop(side));
    row.push(Piece::Knight(side));
    row.push(Piece::Rook(side));
    assert(row@ =~= back_rank(side));
    row
}

fn pawn_rank_of(side: Colour) -> (row: Vec<Piece>)
    ensures
        row@ == pawn_rank(side),
{
    let mut row: Vec<Piece> = Vec::new();
    let mut c: usize = 0;
    while c < 8
        invariant
            c <= 8,
            row@.len() == c,
            forall|j: int| 0 <= j < c ==> row@[j] == Piece::Pawn(side),
        decreases 8 - c,
    {
        row.push(Piece::Pawn(side));
        c += 1;
    }
    assert(row@ =~= pawn_rank(side));
    row
}

/// Whether a piece of `side` that stands before `(x, y)` in reading order
/// (row by row, left to right) has a legal move.
pub open spec fn reply_before(
    g: Grid,
    en_passant: Option<(int, int)>,
    rights: (bool, bool, bool, bool),
    side: Colour,
    x: int,
    y: int,
) -> bool {
    exists|r: int, c: int, tr: int, tc: int|
        (r < x || (r == x && c < y)) && #[trigger] reply(g, en_passant, rights, side, r, c, tr, tc)
}

/// The rights that are left once a piece has left or reached `sq`.
fn drop_rights(rights: (bool, bool, bool, bool), sq: (usize, usize)) -> (res: (
    bool,
    bool,
    bool,
    bool,
))
    ensures
        res == rights_without(rights, (sq.0 as int, sq.1 as int)),
{
    if sq.0 == 7 && sq.1 == 7 {
        (false, rights.1, rights.2, rights.3)
    } else if sq.0 == 7 && sq.1 == 0 {
        (rights.0, false, rights.2, rights.3)
    } else if sq.0 == 7 && sq.1 == 4 {
        (false, false, rights.2, rights.3)
    } else if sq.0 == 0 && sq.1 == 7 {
        (rights.0, rights.1, false, rights.3)
    } else if sq.0 == 0 && sq.1 == 0 {
        (rights.0, rights.1, rights.2, false)
    } else if sq.0 == 0 && sq.1 == 4 {
        (rights.0, rights.1, false, false)
    } else {
        rights
    }
}

impl Game {
    /// What every operation on a game expects and keeps: a board of eight
    /// rows of eight squares, an en passant square that is on the board or is
    /// `(8, 8)`, and a promotion choice that is a queen, a rook, a bishop or a
    /// knight.
    pub open spec fn wf(&self) -> bool {
        &&& grid_wf(grid(&self.board))
        &&& en_passant_wf(self.en_passant_square)
        &&& self.selected_promotion.is_promotion_choice()
    }

    /// Whether the game is as every operation on it expects.
    pub fn is_well_formed(&self) -> (ok: bool)
        ensures
            ok == self.wf(),
    {
        if self.board.len() != 8 {
            return false;
        }
        let mut r: usize = 0;
        while r < 8
            invariant
                r <= 8,
                self.board@.len() == 8,
                forall|i: int| 0 <= i < r ==> (#[trigger] grid(&self.board)[i]).len() == 8,
            decreases 8 - r,
        {
            if self.board[r].len() != 8 {
                assert(grid(&self.board)[r as int].len() != 8);
                return false;
            }
            r += 1;
        }
        let square_ok: bool = (self.en_passant_square.0 < 8 && self.en_passant_square.1 < 8) || (
        self.en_passant_square.0 == 8 && self.en_passant_square.1 == 8);
        let choice_ok: bool = match self.selected_promotion {
            Piece::Queen(_) | Piece::Rook(_) | Piece::Bishop(_) | Piece::Knight(_) => true,
            _ => false,
        };
        square_ok && choice_ok
    }

    /// A new game, with the pieces on their starting squares.
    pub fn new() -> (game: Game)
        ensures
            game.wf(),
            game@.position == standard_position(),
            game@.promotion == Piece::Queen(Colour::White),
            game@.state == GameState::InProgress,
            game.en_passant_square == (8usize, 8usize),
    {
        let mut board: Vec<Vec<Piece>> = Vec::new();
        board.push(back_rank_of(Colour::Black));
        board.push(pawn_rank_of(Colour::Black));
        board.push(new_empty_row());
        board.push(new_empty_row());
        board.push(new_empty_row());
        board.push(new_empty_row());
        board.push(pawn_rank_of(Colour::White));
        board.push(back_rank_of(Colour::White));
        assert(grid(&board) =~= standard_grid());
        Game {
            board,
            current_turn: Colour::White,
            castlings: (true, true, true, true),
            en_passant_square: (8, 8),
            halfmove_clock: 0,
            turn: 1,
            selected_promotion: Piece::Queen(Colour::White),
            game_state: GameState::InProgress,
        }
    }

    /// The state that the last move left. Asking changes nothing, so asking
    /// again gives the same answer.
    pub fn game_state(&self) -> (state: GameState)
        ensures
            state == self@.state,
    {
        self.game_state
    }

    /// A new game with no piece on the board.
    pub fn new_empty() -> (game: Game)
        ensures
            game.wf(),
            game@.position == empty_position(),
            game@.promotion == Piece::Queen(Colour::White),
            game@.state == GameState::InProgress,
            game.en_passant_square == (8usize, 8usize),
    {
        Game {
            board: new_empty_board(),
            current_turn: Colour::White,
            castlings: (true, true, true, true),
            en_passant_square: (8, 8),
            halfmove_clock: 0,
            turn: 1,
            selected_promotion: Piece::Queen(Colour::White),
            game_state: GameState::InProgress,
        }
    }

    /// Replaces the position by the one that `fen` writes. The promotion
    /// choice and the recorded state stay as they are. A text that is not
    /// the notation of a position changes nothing, and the error names the
    /// first field that is wrong.
    pub fn set_state_from_fen(&mut self, fen: &str) -> (res: Result<(), FenError>)
        ensures
            match parse_fen(fen@) {
                Ok(p) => {
                    &&& res is Ok
                    &&& final(self)@.position == p
                    &&& final(self)@.promotion == old(self)@.promotion
                    &&& final(self)@.state == old(self)@.state
                    &&& grid_wf(grid(&final(self).board))
                    &&& en_passant_wf(final(self).en_passant_square)
                },
                Err(e) => res == Err::<(), FenError>(e) && *final(self) == *old(self),
            },
    {
        let text: Vec<char> = chars_of(fen);
        match read_fen(&text) {
            Ok(record) => {
                self.board = record.board;
                self.current_turn = record.current_turn;
                self.castlings = record.castlings;
                self.en_passant_square = record.en_passant_square;
                self.halfmove_clock = record.halfmove_clock;
                self.turn = record.turn;
                Ok(())
            },
            Err(e) => Err(e),
        }
    }

    /// Chooses what the next pawn to reach the far rank becomes: `q`, `r`,
    /// `b` or `n`, in either case, for a queen, a rook, a bishop or a knight
    /// of the side to move. Any other letter changes nothing.
    pub fn select_promotion(&mut self, piece: char) -> (res: Result<(), InvalidPromotion>)
        ensures
            match promotion_of_letter(piece) {
                Some(choice) => {
                    &&& res is Ok
                    &&& *final(self) == Game {
                        selected_promotion: choice.recoloured(old(self).current_turn),
                        ..*old(self)
                    }
                },
                None => res == Err::<(), InvalidPromotion>(InvalidPromotion { letter: piece })
                    && *final(self) == *old(self),
            },
    {
        if piece == 'q' || piece == 'Q' {
            self.selected_promotion = Piece::Queen(self.current_turn);
            Ok(())
        } else if piece == 'r' || piece == 'R' {
            self.selected_promotion = Piece::Rook(self.current_turn);
            Ok(())
        } else if piece == 'b' || piece == 'B' {
            self.selected_promotion = Piece::Bishop(self.current_turn);
            Ok(())
        } else if piece == 'n' || piece == 'N' {
            self.selected_promotion = Piece::Knight(self.current_turn);
            Ok(())
        } else {
            Err(InvalidPromotion { letter: piece })
        }
    }

    /// The text of the position.
    pub fn get_fen(&self) -> (fen: String)
        requires
            self.wf(),
        ensures
            fen@ == fen_text(self@.position),
    {
        let mut fen: String = String::new();
        push_placement(&mut fen, &self.board);
        fen.push(' ');
        push_side(&mut fen, self.current_turn);
        fen.push(' ');
        push_castling(&mut fen, self.castlings);
        fen.push(' ');
        push_en_passant(&mut fen, self.en_passant_square);
        fen.push(' ');
        push_decimal(&mut fen, self.halfmove_clock);
        fen.push(' ');
        push_decimal(&mut fen, self.turn);
        proof {
            reveal_with_fuel(join, 7);
            assert(fen@ =~= fen_text(self@.position));
        }
        fen
    }

    /// Whether the side to move is in check: `Check` if the other side
    /// covers the square of its king, else `InProgress`. No move is looked
    /// at.
    pub fn get_game_state_no_recursion(&self) -> (state: GameState)
        requires
            self.wf(),
        ensures
            state == check_state(self@.position.board, self@.position.turn),
    {
        if is_in_check(&self.board, self.current_turn) {
            GameState::Check
        } else {
            GameState::InProgress
        }
    }

    /// The state of the position. With `eot` set, as at the end of a turn,
    /// a side in check is checkmated if none of its pieces has a legal move.
    /// Without it only check is looked for. A side that is not in check is
    /// `InProgress`, even with no move to make.
    pub fn get_game_state(&self, eot: bool) -> (state: GameState)
        requires
            self.wf(),
        ensures
            state == if eot {
                state_of(self@.position)
            } else {
                check_state(self@.position.board, self@.position.turn)
            },
    {
        let state: GameState = self.get_game_state_no_recursion();
        if !(state == GameState::Check && eot) {
            return state;
        }
        let ghost g = grid(&self.board);
        let ghost ep = en_passant_model(self.en_passant_square);
        let ghost rights = self.castlings;
        let ghost side = self.current_turn;
        let mut x: usize = 0;
        while x < 8
            invariant
                x <= 8,
                self.wf(),
                g == grid(&self.board),
                ep == en_passant_model(self.en_passant_square),
                rights == self.castlings,
                side == self.current_turn,
                eot && in_check(g, side),
                !reply_before(g, ep, rights, side, x as int, 0),
            decreases 8 - x,
        {
            let mut y: usize = 0;
            while y < 8
                invariant
                    x < 8,
                    y <= 8,
                    self.wf(),
                    g == grid(&self.board),
                    ep == en_passant_model(self.en_passant_square),
                    rights == self.castlings,
                    side == self.current_turn,
                    eot && in_check(g, side),
                    !reply_before(g, ep, rights, side, x as int, y as int),
                decreases 8 - y,
            {
                let p: Piece = piece_at(&self.board, x, y);
                if p.is_owned_by(self.current_turn) {
                    let moves: Vec<(usize, usize)> = p.get_valid_moves(
                        (x, y),
                        &self.board,
                        self.en_passant_square,
                        self.castlings,
                    );
                    if moves.len() > 0 {
                        proof {
                            let to = moves@[0];
                            assert(moves@.contains(to));
                            assert(reply(
                                g,
                                ep,
                                rights,
                                side,
                                x as int,
                                y as int,
                                to.0 as int,
                                to.1 as int,
                            ));
                        }
                        return GameState::Check;
                    }
                    assert forall|tr: int, tc: int| !legal(g, ep, rights, x as int, y as int, tr, tc) by {
                        if legal(g, ep, rights, x as int, y as int, tr, tc) {
                            assert(on_board(tr, tc));
                            let to = (tr as usize, tc as usize);
                            assert(moves@.contains(to));
                        }
                    }
                }
                assert(!reply_before(g, ep, rights, side, x as int, y + 1)) by {
                    if reply_before(g, ep, rights, side, x as int, y + 1) {
                        let (r, c, tr, tc) = choose|r: int, c: int, tr: int, tc: int|
                            (r < x || (r == x && c < y + 1)) && #[trigger] reply(
                                g,
                                ep,
                                rights,
                                side,
                                r,
                                c,
                                tr,
                                tc,
                            );
                        if r == x && c == y {
                        } else {
                            assert(reply(g, ep, rights, side, r, c, tr, tc));
                            assert(reply_before(g, ep, rights, side, x as int, y as int));
                        }
                    }
                }
                y += 1;
            }
            assert(!reply_before(g, ep, rights, side, x + 1, 0)) by {
                if reply_before(g, ep, rights, side, x + 1, 0) {
                    let (r, c, tr, tc) = choose|r: int, c: int, tr: int, tc: int|
                        (r < x + 1 || (r == x + 1 && c < 0)) && #[trigger] reply(
                            g,
                            ep,
                            rights,
                            side,
                            r,
                            c,
                            tr,
                            tc,
                        );
                    assert(reply(g, ep, rights, side, r, c, tr, tc));
                    assert(reply_before(g, ep, rights, side, x as int, 8));
                }
            }
            x += 1;
        }
        assert(!has_reply(g, ep, rights, side)) by {
            if has_reply(g, ep, rights, side) {
                let (r, c, tr, tc) = choose|r: int, c: int, tr: int, tc: int| #[trigger]
                    reply(g, ep, rights, side, r, c, tr, tc);
                assert(reply(g, ep, rights, side, r, c, tr, tc));
                assert(reply_before(g, ep, rights, side, 8, 0));
            }
        }
        GameState::Checkmate
    }

    /// Makes the move that `mov` names, as in `e2 e4`, if the side to move
    /// may make it, and returns the state that the move leaves. A text that
    /// names no move, a square that does not hold a piece of the side to
    /// move, and a move that is not legal are turned down with `None`, and
    /// nothing changes.
    ///
    /// A move that is made takes effect in this order: castling moves the
    /// rook too, and a pawn that arrives on the en passant square takes the
    /// pawn behind it; the en passant square is set anew; castling rights
    /// are given up; the halfmove clock is reset by a pawn move or a capture
    /// and goes up otherwise; the piece moves; a pawn that reaches the far
    /// row becomes the chosen piece; the turn passes, and after Black's move
    /// the move number goes up; the promotion choice takes the colour of the
    /// side now to move; the state of the new position is recorded.
    ///
    /// After a move that was made, the side that made it is not in check,
    /// unless a pawn arrived on the en passant square: the pawn it takes is
    /// not lifted when the move is tried for check.
    pub fn take_turn(&mut self, mov: String) -> (res: Option<GameState>)
        requires
            old(self).wf(),
            old(self).halfmove_clock < usize::MAX,
            old(self).turn < usize::MAX,
        ensures
            final(self).wf(),
            match requested_move(old(self)@.position, mov@) {
                Some((from, to)) => {
                    &&& final(self)@ == game_after(old(self)@, from, to)
                    &&& res == Some(final(self)@.state)
                    &&& !is_en_passant(
                        old(self)@.position.board[from.0][from.1],
                        old(self)@.position.en_passant,
                        to,
                    ) ==> !in_check(final(self)@.position.board, old(self)@.position.turn)
                },
                None => res is None && *final(self) == *old(self),
            },
    {
        let text: Vec<char> = chars_of(mov.as_str());
        let parts: Vec<Vec<char>> = split_chars(&text, ' ');
        if parts.len() != 2 {
            return None;
        }
        assert(split(mov@, ' ')[0] == parts@[0]@ && split(mov@, ' ')[1] == parts@[1]@);
        let from: (usize, usize) = match read_square(&parts[0]) {
            Some(sq) => sq,
            None => {
                return None;
            },
        };
        let to: (usize, usize) = match read_square(&parts[1]) {
            Some(sq) => sq,
            None => {
                return None;
            },
        };
        let ghost origin = (from.0 as int, from.1 as int);
        let ghost goal = (to.0 as int, to.1 as int);
        let ghost before = self@;
        let ghost g = grid(&self.board);
        assert(parse_move(mov@) == Some((origin, goal)));
        let piece: Piece = piece_at(&self.board, from.0, from.1);
        let side: Colour = self.current_turn;
        if !piece.is_owned_by(side) {
            return None;
        }
        let valids: Vec<(usize, usize)> = piece.get_valid_moves(
            from,
            &self.board,
            self.en_passant_square,
            self.castlings,
        );
        if !lists_square(&valids, to) {
            return None;
        }
        assert(requested_move(before.position, mov@) == Some((origin, goal)));
        let target: Piece = piece_at(&self.board, to.0, to.1);
        match piece {
            Piece::King(_colour) => {
                let (home, kingside, queenside): (usize, bool, bool) = match side {
                    Colour::White => (7, self.castlings.0, self.castlings.1),
                    Colour::Black => (0, self.castlings.2, self.castlings.3),
                };
                if to.0 == home && to.1 == 6 && kingside {
                    put(&mut self.board, home, 7, Piece::Empty);
                    put(&mut self.board, home, 5, Piece::Rook(side));
                } else if to.0 == home && to.1 == 2 && queenside {
                    put(&mut self.board, home, 0, Piece::Empty);
                    put(&mut self.board, home, 3, Piece::Rook(side));
                }
            },
            Piece::Pawn(_colour) => {
                if to.0 == self.en_passant_square.0 && to.1 == self.en_passant_square.1 {
                    let behind: usize = match side {
                        Colour::White => to.0 + 1,
                        Colour::Black => to.0 - 1,
                    };
                    put(&mut self.board, behind, to.1, Piece::Empty);
                }
            },
            _ => {},
        }
        assert(grid(&self.board) == side_effects(
            g,
            piece,
            before.position.castlings,
            before.position.en_passant,
            goal,
        ));
        self.en_passant_square = match piece {
            Piece::Pawn(_colour) => {
                match side {
                    Colour::White => if from.0 >= 2 && to.0 == from.0 - 2 {
                        (from.0 - 1, from.1)
                    } else {
                        (8, 8)
                    },
                    Colour::Black => if to.0 == from.0 + 2 {
                        (from.0 + 1, from.1)
                    } else {
                        (8, 8)
                    },
                }
            },
            _ => (8, 8),
        };
        let kept: (bool, bool, bool, bool) = match piece {
            Piece::King(_colour) => match side {
                Colour::White => (false, false, self.castlings.2, self.castlings.3),
                Colour::Black => (self.castlings.0, self.castlings.1, false, false),
            },
            _ => self.castlings,
        };
        self.castlings = drop_rights(drop_rights(kept, from), to);
        let pawn_moved: bool = match piece {
            Piece::Pawn(_colour) => true,
            _ => false,
        };
        if pawn_moved || target != Piece::Empty {
            self.halfmove_clock = 0;
        } else {
            self.halfmove_clock = self.halfmove_clock + 1;
        }
        let arrives: Piece = match piece {
            Piece::Pawn(_colour) => {
                let far: usize = match side {
                    Colour::White => 0,
                    Colour::Black => 7,
                };
                if to.0 == far {
                    self.selected_promotion.with_colour(side)
                } else {
                    piece
                }
            },
            _ => piece,
        };
        put(&mut self.board, to.0, to.1, arrives);
        put(&mut self.board, from.0, from.1, Piece::Empty);
        match side {
            Colour::White => {
                self.current_turn = Colour::Black;
            },
            Colour::Black => {
                self.turn = self.turn + 1;
                self.current_turn = Colour::White;
            },
        }
        self.selected_promotion = self.selected_promotion.with_colour(self.current_turn);
        proof {
            let q = position_after(before.position, before.promotion, origin, goal);
            assert(self@.position.board =~= q.board);
            assert(self@.position == q);
            if !is_en_passant(piece, before.position.en_passant, goal) {
                lemma_legal_move_keeps_king_safe(
                    g,
                    before.position.en_passant,
                    before.position.castlings,
                    before.promotion,
                    origin,
                    goal,
                );
            }
        }
        self.game_state = self.get_game_state(true);
        Some(self.game_state)
    }
}

} // verus!
