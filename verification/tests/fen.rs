use chess_rules::{Colour, FenError, Game, GameState, Piece};

fn back_rank(side: Colour) -> Vec<Piece> {
    vec![
        Piece::Rook(side),
        Piece::Knight(side),
        Piece::Bishop(side),
        Piece::Queen(side),
        Piece::King(side),
        Piece::Bishop(side),
        Piece::Knight(side),
        Piece::Rook(side),
    ]
}

#[test]
fn fen_sets_start_correctly() {
    let fen_game = Game::new();
    let mut test_game = Game::new_empty();

    let _board = vec![
        back_rank(Colour::Black),
        vec![Piece::Pawn(Colour::Black); 8],
        vec![Piece::Empty; 8],
        vec![Piece::Empty; 8],
        vec![Piece::Empty; 8],
        vec![Piece::Empty; 8],
        vec![Piece::Pawn(Colour::White); 8],
        back_rank(Colour::White),
    ];
    test_game.board = _board;

    assert_eq!(fen_game, test_game);
}

#[test]
fn fen_sets_inprogress_correctly() {
    let mut fen_game = Game::new();
    let loaded =
        fen_game.set_state_from_fen("rnbqkbnr/pp1ppppp/2p5/8/4P3/8/PPPP1PPP/RNBQKBNR b kq e3 20 2");
    assert_eq!(loaded, Ok(()));
    let mut test_game = Game::new_empty();

    let _board = vec![
        back_rank(Colour::Black),
        vec![
            Piece::Pawn(Colour::Black),
            Piece::Pawn(Colour::Black),
            Piece::Empty,
            Piece::Pawn(Colour::Black),
            Piece::Pawn(Colour::Black),
            Piece::Pawn(Colour::Black),
            Piece::Pawn(Colour::Black),
            Piece::Pawn(Colour::Black),
        ],
        vec![
            Piece::Empty,
            Piece::Empty,
            Piece::Pawn(Colour::Black),
            Piece::Empty,
            Piece::Empty,
            Piece::Empty,
            Piece::Empty,
            Piece::Empty,
        ],
        vec![Piece::Empty; 8],
        vec![
            Piece::Empty,
            Piece::Empty,
            Piece::Empty,
            Piece::Empty,
            Piece::Pawn(Colour::White),
            Piece::Empty,
            Piece::Empty,
            Piece::Empty,
        ],
        vec![Piece::Empty; 8],
        vec![
            Piece::Pawn(Colour::White),
            Piece::Pawn(Colour::White),
            Piece::Pawn(Colour::White),
            Piece::Pawn(Colour::White),
            Piece::Empty,
            Piece::Pawn(Colour::White),
            Piece::Pawn(Colour::White),
            Piece::Pawn(Colour::White),
        ],
        back_rank(Colour::White),
    ];
    test_game.board = _board;
    test_game.turn = 2;
    test_game.current_turn = Colour::Black;
    test_game.en_passant_square = (5, 4);
    test_game.castlings = (false, false, true, true);
    test_game.halfmove_clock = 20;

    assert_eq!(fen_game, test_game);
}

#[test]
fn standard_start_round_trips() {
    let start = "rnbqkbnr/pppppppp/8/8/8/8/PPPPPPPP/RNBQKBNR w KQkq - 0 1";
    let game = Game::new();
    assert_eq!(game.get_fen(), start);
    let mut loaded = Game::new_empty();
    assert_eq!(loaded.set_state_from_fen(start), Ok(()));
    assert_eq!(loaded, game);
    assert_eq!(loaded.game_state(), GameState::InProgress);
}

#[test]
fn fen_errors_name_the_first_bad_field() {
    let mut game = Game::new();
    let before = game.get_fen();
    assert_eq!(game.set_state_from_fen("8/8/8/8/8/8/8/8 w - 0 0"), Err(FenError::FieldCount));
    assert_eq!(game.set_state_from_fen("8/8/8/8/8/8/8 w - - 0 0"), Err(FenError::Placement));
    assert_eq!(game.set_state_from_fen("8/8/8/8/8/8/8/9 w - - 0 0"), Err(FenError::Placement));
    assert_eq!(game.set_state_from_fen("8/8/8/8/8/8/8/7x w - - 0 0"), Err(FenError::Placement));
    assert_eq!(game.set_state_from_fen("8/8/8/8/8/8/8/8 x - - 0 0"), Err(FenError::SideToMove));
    assert_eq!(game.set_state_from_fen("8/8/8/8/8/8/8/8 w KX - 0 0"), Err(FenError::Castling));
    assert_eq!(game.set_state_from_fen("8/8/8/8/8/8/8/8 w - i3 0 0"), Err(FenError::EnPassant));
    assert_eq!(game.set_state_from_fen("8/8/8/8/8/8/8/8 w - e9 0 0"), Err(FenError::EnPassant));
    assert_eq!(game.set_state_from_fen("8/8/8/8/8/8/8/8 w - - x 0"), Err(FenError::HalfmoveClock));
    assert_eq!(
        game.set_state_from_fen("8/8/8/8/8/8/8/8 w - - 0 99999999999999999999999999"),
        Err(FenError::FullmoveNumber)
    );
    assert_eq!(game.get_fen(), before);
}

#[test]
fn text_of_a_loaded_position_is_the_text_that_was_loaded() {
    for fen in [
        "rnbqkbnr/pp1ppppp/2p5/8/4P3/8/PPPP1PPP/RNBQKBNR b kq e3 20 2",
        "8/8/8/8/8/8/8/8 w - - 0 0",
        "r3k2r/8/8/8/8/8/8/R3K2R b Kq a6 1234567 89",
        "1p1p1p1p/p1p1p1p1/3PP3/8/2n2N2/8/Q6q/K6k w Qk h3 10 100",
    ] {
        let mut game = Game::new();
        assert_eq!(game.set_state_from_fen(fen), Ok(()));
        assert_eq!(game.get_fen(), fen);
        let mut again = Game::new();
        assert_eq!(again.set_state_from_fen(&game.get_fen()), Ok(()));
        assert_eq!(again, game);
    }
}

#[test]
fn no_castling_right_is_written_as_a_dash() {
    let mut game = Game::new();
    assert_eq!(game.set_state_from_fen("8/8/8/8/8/2b5/1q6/K7 w  - 0 0"), Ok(()));
    assert_eq!(game.castlings, (false, false, false, false));
    assert_eq!(game.en_passant_square, (8, 8));
    assert_eq!(game.get_fen(), "8/8/8/8/8/2b5/1q6/K7 w - - 0 0");
}

#[test]
fn castling_letters_are_read_in_any_order() {
    let mut game = Game::new();
    assert_eq!(game.set_state_from_fen("8/8/8/8/8/8/8/8 w qK - 0 0"), Ok(()));
    assert_eq!(game.castlings, (true, false, false, true));
    assert_eq!(game.get_fen(), "8/8/8/8/8/8/8/8 w Kq - 0 0");
    assert_eq!(game.set_state_from_fen("8/8/8/8/8/8/8/8 w K- - 0 0"), Err(FenError::Castling));
}

#[test]
fn numbers_may_have_a_plus_sign_and_leading_zeros() {
    let mut game = Game::new();
    assert_eq!(game.set_state_from_fen("8/8/8/8/8/8/8/8 w - - +7 007"), Ok(()));
    assert_eq!(game.halfmove_clock, 7);
    assert_eq!(game.turn, 7);
    assert_eq!(game.get_fen(), "8/8/8/8/8/8/8/8 w - - 7 7");
    assert_eq!(game.set_state_from_fen("8/8/8/8/8/8/8/8 w - - + 1"), Err(FenError::HalfmoveClock));
    assert_eq!(game.set_state_from_fen("8/8/8/8/8/8/8/8 w - - -1 1"), Err(FenError::HalfmoveClock));
    assert_eq!(game.set_state_from_fen("8/8/8/8/8/8/8/8 w - - 1 "), Err(FenError::FullmoveNumber));
}

#[test]
fn largest_counter_is_read_and_written() {
    let text = format!("8/8/8/8/8/8/8/8 w - - {} {}", usize::MAX, 0);
    let mut game = Game::new();
    assert_eq!(game.set_state_from_fen(&text), Ok(()));
    assert_eq!(game.halfmove_clock, usize::MAX);
    assert_eq!(game.get_fen(), text);
    let over = format!("8/8/8/8/8/8/8/8 w - - {}0 0", usize::MAX);
    assert_eq!(game.set_state_from_fen(&over), Err(FenError::HalfmoveClock));
}

#[test]
fn ranks_may_split_a_gap_into_several_digits() {
    let mut game = Game::new();
    assert_eq!(game.set_state_from_fen("44/8/8/8/8/8/8/1111K111 w - - 0 1"), Ok(()));
    assert_eq!(game.get_fen(), "8/8/8/8/8/8/8/4K3 w - - 0 1");
    assert_eq!(game.set_state_from_fen("45/8/8/8/8/8/8/8 w - - 0 1"), Err(FenError::Placement));
    assert_eq!(game.set_state_from_fen("7/8/8/8/8/8/8/8 w - - 0 1"), Err(FenError::Placement));
    assert_eq!(game.set_state_from_fen("80/8/8/8/8/8/8/8 w - - 0 1"), Err(FenError::Placement));
    assert_eq!(
        game.set_state_from_fen("8/8/8/8/8/8/8/8/8 w - - 0 1"),
        Err(FenError::Placement)
    );
}

#[test]
fn loading_keeps_promotion_choice_and_state() {
    let mut game = Game::new();
    assert_eq!(game.select_promotion('r'), Ok(()));
    assert_eq!(game.set_state_from_fen("8/8/8/8/8/2b5/1q6/K7 b - - 0 0"), Ok(()));
    assert_eq!(game.selected_promotion, Piece::Rook(Colour::White));
    assert_eq!(game.game_state(), GameState::InProgress);
}

#[test]
fn convert_square_reads_file_then_rank() {
    assert_eq!(chess_rules::convert_square("a8"), (0, 0));
    assert_eq!(chess_rules::convert_square("h1"), (7, 7));
    assert_eq!(chess_rules::convert_square("e2"), (6, 4));
    assert_eq!(chess_rules::convert_square("c6"), (2, 2));
}
