use chess_rules::attack::{is_in_check, threatened_by};
use chess_rules::{clean_moves, convert_square, Colour, Game, GameState, InvalidPromotion, Piece};

fn load(fen: &str) -> Game {
    let mut game = Game::new_empty();
    assert_eq!(game.set_state_from_fen(fen), Ok(()));
    game
}

fn at(game: &Game, square: &str) -> Piece {
    let sq = convert_square(square);
    game.board[sq.0][sq.1]
}

fn sorted(mut squares: Vec<(usize, usize)>) -> Vec<(usize, usize)> {
    squares.sort();
    squares
}

#[test]
fn castling_kingside_moves_king_and_rook() {
    let mut game = load("8/8/8/8/8/8/8/4K2R w KQkq - 0 0");
    assert_eq!(game.take_turn("e1 g1".to_string()), Some(GameState::InProgress));
    assert_eq!(game.get_fen(), "8/8/8/8/8/8/8/5RK1 b kq - 1 0");
}

#[test]
fn castling_queenside_moves_king_and_rook() {
    let mut game = load("r3k3/8/8/8/8/8/8/8 b q - 4 7");
    assert_eq!(game.take_turn("e8 c8".to_string()), Some(GameState::InProgress));
    assert_eq!(game.get_fen(), "2kr4/8/8/8/8/8/8/8 w - - 5 8");
}

#[test]
fn castling_is_refused_out_of_through_and_into_check() {
    let out_of = load("4r3/8/8/8/8/8/8/4K2R w K - 0 1");
    assert!(!out_of.board[7][4]
        .get_king_moves((7, 4), &out_of.board, out_of.castlings)
        .contains(&(7, 6)));
    let through = load("5r2/8/8/8/8/8/8/4K2R w K - 0 1");
    assert!(!through.board[7][4]
        .get_king_moves((7, 4), &through.board, through.castlings)
        .contains(&(7, 6)));
    let into = load("6r1/8/8/8/8/8/8/4K2R w K - 0 1");
    assert!(!into.board[7][4]
        .get_king_moves((7, 4), &into.board, into.castlings)
        .contains(&(7, 6)));
    let free = load("7r/8/8/8/8/8/8/4K2R w K - 0 1");
    assert!(free.board[7][4]
        .get_king_moves((7, 4), &free.board, free.castlings)
        .contains(&(7, 6)));
}

#[test]
fn queenside_castling_ignores_an_attack_on_the_knight_square() {
    let game = load("1r6/8/8/8/8/8/8/R3K3 w Q - 0 1");
    let moves = game.board[7][4].get_king_moves((7, 4), &game.board, game.castlings);
    assert!(moves.contains(&(7, 2)));
    let blocked = load("3r4/8/8/8/8/8/8/R3K3 w Q - 0 1");
    let moves = blocked.board[7][4].get_king_moves((7, 4), &blocked.board, blocked.castlings);
    assert!(!moves.contains(&(7, 2)));
}

#[test]
fn king_moves_hold_each_square_once() {
    let game = load("8/8/8/8/8/8/8/7K w K - 0 1");
    let moves = sorted(game.board[7][7].get_king_moves((7, 7), &game.board, game.castlings));
    assert_eq!(moves, vec![(6, 6), (6, 7), (7, 6)]);
}

#[test]
fn en_passant_capture_removes_the_passed_pawn() {
    let mut game = load("8/8/3p4/1pP5/8/8/8/8 w - b6 0 0");
    assert_eq!(game.take_turn("c5 b6".to_string()), Some(GameState::InProgress));
    assert_eq!(at(&game, "b6"), Piece::Pawn(Colour::White));
    assert_eq!(at(&game, "b5"), Piece::Empty);
    assert_eq!(at(&game, "c5"), Piece::Empty);
    assert_eq!(game.get_fen(), "8/8/1P1p4/8/8/8/8/8 b - - 0 0");
}

#[test]
fn en_passant_capture_by_black() {
    let mut game = load("8/8/8/8/3Pp3/8/8/8 b - d3 3 9");
    assert_eq!(game.take_turn("e4 d3".to_string()), Some(GameState::InProgress));
    assert_eq!(game.get_fen(), "8/8/8/8/8/3p4/8/8 w - - 0 10");
}

#[test]
fn en_passant_capture_may_uncover_the_king() {
    let mut game = load("8/8/8/KPp4r/8/8/8/8 w - c6 0 1");
    assert!(!is_in_check(&game.board, Colour::White));
    assert!(game.take_turn("b5 c6".to_string()).is_some());
    assert!(is_in_check(&game.board, Colour::White));
}

#[test]
fn double_pawn_step_sets_the_en_passant_square() {
    let mut game = Game::new();
    assert_eq!(game.take_turn("e2 e4".to_string()), Some(GameState::InProgress));
    assert_eq!(game.en_passant_square, (5, 4));
    assert_eq!(game.get_fen(), "rnbqkbnr/pppppppp/8/8/4P3/8/PPPP1PPP/RNBQKBNR b KQkq e3 0 1");
    assert_eq!(game.take_turn("c7 c5".to_string()), Some(GameState::InProgress));
    assert_eq!(game.get_fen(), "rnbqkbnr/pp1ppppp/8/2p5/4P3/8/PPPP1PPP/RNBQKBNR w KQkq c6 0 2");
    assert_eq!(game.take_turn("g1 f3".to_string()), Some(GameState::InProgress));
    assert_eq!(game.en_passant_square, (8, 8));
    assert_eq!(game.get_fen(), "rnbqkbnr/pp1ppppp/8/2p5/4P3/5N2/PPPP1PPP/RNBQKB1R b KQkq - 1 2");
}

#[test]
fn rejected_moves_change_nothing() {
    let mut game = Game::new();
    let before = game.clone();
    assert_eq!(game.take_turn("e3 e4".to_string()), None);
    assert_eq!(game.take_turn("e7 e5".to_string()), None);
    assert_eq!(game.take_turn("e2 e5".to_string()), None);
    assert_eq!(game.take_turn("e2".to_string()), None);
    assert_eq!(game.take_turn("e2 e4 e5".to_string()), None);
    assert_eq!(game.take_turn("e2  e4".to_string()), None);
    assert_eq!(game.take_turn("i2 e4".to_string()), None);
    assert_eq!(game.take_turn("e9 e4".to_string()), None);
    assert_eq!(game.take_turn("".to_string()), None);
    assert_eq!(game, before);
}

#[test]
fn a_pinned_piece_may_not_leave_the_line() {
    let mut game = load("8/8/8/2b5/1P6/K7/8/8 w - - 0 1");
    assert_eq!(game.take_turn("b4 b5".to_string()), None);
    assert_eq!(game.take_turn("b4 c5".to_string()), Some(GameState::InProgress));
    assert!(!is_in_check(&game.board, Colour::White));
}

#[test]
fn pawn_promotes_to_queen_by_default() {
    let mut game = load("8/2P5/8/8/8/8/8/8 w - - 7 3");
    assert_eq!(game.take_turn("c7 c8".to_string()), Some(GameState::InProgress));
    assert_eq!(at(&game, "c8"), Piece::Queen(Colour::White));
    assert_eq!(game.selected_promotion, Piece::Queen(Colour::Black));
    assert_eq!(game.get_fen(), "2Q5/8/8/8/8/8/8/8 b - - 0 3");
}

#[test]
fn promotion_choice_persists_and_follows_the_side_to_move() {
    let mut game = load("8/2P5/8/8/8/8/5p2/8 w - - 0 1");
    assert_eq!(game.select_promotion('N'), Ok(()));
    assert_eq!(game.selected_promotion, Piece::Knight(Colour::White));
    assert_eq!(game.take_turn("c7 c8".to_string()), Some(GameState::InProgress));
    assert_eq!(at(&game, "c8"), Piece::Knight(Colour::White));
    assert_eq!(game.selected_promotion, Piece::Knight(Colour::Black));
    assert_eq!(game.take_turn("f2 f1".to_string()), Some(GameState::InProgress));
    assert_eq!(at(&game, "f1"), Piece::Knight(Colour::Black));
    assert_eq!(game.selected_promotion, Piece::Knight(Colour::White));
}

#[test]
fn promotion_takes_the_colour_of_the_pawn() {
    let mut game = load("8/8/8/8/8/8/5p2/8 b - - 0 1");
    assert_eq!(game.selected_promotion, Piece::Queen(Colour::White));
    assert_eq!(game.take_turn("f2 f1".to_string()), Some(GameState::InProgress));
    assert_eq!(at(&game, "f1"), Piece::Queen(Colour::Black));
}

#[test]
fn select_promotion_reads_four_letters_in_either_case() {
    let mut game = load("8/8/8/8/8/8/8/8 b - - 0 1");
    assert_eq!(game.select_promotion('r'), Ok(()));
    assert_eq!(game.selected_promotion, Piece::Rook(Colour::Black));
    assert_eq!(game.select_promotion('B'), Ok(()));
    assert_eq!(game.selected_promotion, Piece::Bishop(Colour::Black));
    assert_eq!(game.select_promotion('n'), Ok(()));
    assert_eq!(game.selected_promotion, Piece::Knight(Colour::Black));
    assert_eq!(game.select_promotion('Q'), Ok(()));
    assert_eq!(game.selected_promotion, Piece::Queen(Colour::Black));
    assert_eq!(game.select_promotion('R'), Ok(()));
    assert_eq!(game.select_promotion('b'), Ok(()));
    assert_eq!(game.select_promotion('N'), Ok(()));
    assert_eq!(game.select_promotion('q'), Ok(()));
}

#[test]
fn select_promotion_refuses_other_letters() {
    let mut game = Game::new();
    assert_eq!(game.select_promotion('n'), Ok(()));
    let before = game.clone();
    assert_eq!(game.select_promotion('k'), Err(InvalidPromotion { letter: 'k' }));
    assert_eq!(game.select_promotion('p'), Err(InvalidPromotion { letter: 'p' }));
    assert_eq!(game.select_promotion('1'), Err(InvalidPromotion { letter: '1' }));
    assert_eq!(game, before);
}

#[test]
fn halfmove_clock_counts_quiet_moves() {
    let mut game = load("4k3/8/8/8/8/7r/4P3/R3K3 w Q - 7 10");
    assert_eq!(game.take_turn("a1 a2".to_string()), Some(GameState::InProgress));
    assert_eq!(game.halfmove_clock, 8);
    assert_eq!(game.turn, 10);
    assert_eq!(game.take_turn("e8 d8".to_string()), Some(GameState::InProgress));
    assert_eq!(game.halfmove_clock, 9);
    assert_eq!(game.turn, 11);
    assert_eq!(game.take_turn("e2 e3".to_string()), Some(GameState::InProgress));
    assert_eq!(game.halfmove_clock, 0);
    assert_eq!(game.take_turn("h3 h2".to_string()), Some(GameState::InProgress));
    assert_eq!(game.halfmove_clock, 1);
    assert_eq!(game.take_turn("a2 h2".to_string()), Some(GameState::InProgress));
    assert_eq!(game.halfmove_clock, 0);
    assert_eq!(game.turn, 12);
}

#[test]
fn castling_rights_go_with_king_and_rooks() {
    let mut game = load("r3k2r/8/8/8/8/8/8/R3K2R w KQkq - 0 1");
    assert_eq!(game.take_turn("h1 h8".to_string()), Some(GameState::Check));
    assert_eq!(game.castlings, (false, true, false, true));
    assert_eq!(game.take_turn("e8 e7".to_string()), Some(GameState::InProgress));
    assert_eq!(game.castlings, (false, true, false, false));
    assert_eq!(game.take_turn("a1 a2".to_string()), Some(GameState::InProgress));
    assert_eq!(game.castlings, (false, false, false, false));
}

#[test]
fn king_move_gives_up_both_rights() {
    let mut game = load("4k3/8/8/8/8/8/8/R3K2R w KQ - 0 1");
    assert_eq!(game.take_turn("e1 e2".to_string()), Some(GameState::InProgress));
    assert_eq!(game.castlings, (false, false, false, false));
}

#[test]
fn fools_mate_ends_in_checkmate() {
    let mut game = Game::new();
    assert_eq!(game.take_turn("f2 f3".to_string()), Some(GameState::InProgress));
    assert_eq!(game.take_turn("e7 e5".to_string()), Some(GameState::InProgress));
    assert_eq!(game.take_turn("g2 g4".to_string()), Some(GameState::InProgress));
    assert_eq!(game.take_turn("d8 h4".to_string()), Some(GameState::Checkmate));
    assert_eq!(game.game_state(), GameState::Checkmate);
    assert_eq!(game.game_state(), GameState::Checkmate);
    assert_eq!(game.get_fen(), "rnb1kbnr/pppp1ppp/8/4p3/6Pq/5P2/PPPPP2P/RNBQKBNR w KQkq - 1 3");
}

#[test]
fn check_with_a_way_out_is_check() {
    let mut game = load("4k3/8/8/8/8/8/8/4K2R w - - 0 1");
    assert_eq!(game.take_turn("h1 h8".to_string()), Some(GameState::Check));
    assert_eq!(game.get_game_state(true), GameState::Check);
    assert_eq!(game.get_game_state(false), GameState::Check);
    assert_eq!(game.get_game_state_no_recursion(), GameState::Check);
}

#[test]
fn no_move_without_check_stays_in_progress() {
    let game = load("k7/8/1Q6/8/8/8/8/7K b - - 0 1");
    assert_eq!(game.get_game_state(true), GameState::InProgress);
    assert!(game.board[0][0]
        .get_valid_moves((0, 0), &game.board, game.en_passant_square, game.castlings)
        .is_empty());
}

#[test]
fn checkmate_is_seen_only_at_the_end_of_a_turn() {
    let game = load("8/8/8/8/8/2b5/1q6/K7 w  - 0 0");
    assert_eq!(game.get_game_state(false), GameState::Check);
    assert_eq!(game.get_game_state(true), GameState::Checkmate);
}

#[test]
fn game_state_is_stored_not_recomputed() {
    let game = load("8/8/8/8/8/2b5/1q6/K7 w  - 0 0");
    assert_eq!(game.game_state(), GameState::InProgress);
    assert_eq!(game.game_state(), GameState::InProgress);
}

#[test]
fn legal_moves_never_leave_the_mover_in_check() {
    let game = load("4r3/8/8/8/1b6/8/3NP3/2R1K2R w K - 0 1");
    for r in 0..8 {
        for c in 0..8 {
            let piece = game.board[r][c];
            if piece.get_colour() != Some(&Colour::White) {
                continue;
            }
            let moves =
                piece.get_valid_moves((r, c), &game.board, game.en_passant_square, game.castlings);
            for to in moves {
                let mut next = game.clone();
                let text = format!(
                    "{}{} {}{}",
                    (b'a' + c as u8) as char,
                    8 - r,
                    (b'a' + to.1 as u8) as char,
                    8 - to.0
                );
                assert!(next.take_turn(text).is_some());
                assert!(!is_in_check(&next.board, Colour::White));
            }
        }
    }
}

#[test]
fn clean_moves_keeps_order_and_drops_exposing_moves() {
    let game = load("8/8/8/8/r7/K7/8/8 w  - 0 0");
    let kept = clean_moves((5, 0), &game.board, vec![(6, 1), (4, 1), (4, 0), (6, 0), (5, 1)]);
    assert_eq!(kept, vec![(6, 1), (4, 0), (5, 1)]);
}

#[test]
fn pawns_cover_the_squares_diagonally_ahead() {
    let game = load("8/8/8/3p4/8/P6P/8/8 w - - 0 1");
    assert_eq!(
        sorted(Piece::Pawn(Colour::Black).get_threatened_squares((3, 3), &game.board)),
        vec![(4, 2), (4, 4)]
    );
    assert_eq!(
        sorted(Piece::Pawn(Colour::White).get_threatened_squares((5, 0), &game.board)),
        vec![(4, 1)]
    );
    assert_eq!(
        sorted(Piece::Pawn(Colour::White).get_threatened_squares((5, 7), &game.board)),
        vec![(4, 6)]
    );
    assert!(Piece::Empty.get_threatened_squares((0, 0), &game.board).is_empty());
}

#[test]
fn a_king_covers_the_squares_next_to_it() {
    let game = load("8/8/8/8/8/8/PP6/K7 w - - 0 1");
    assert_eq!(
        sorted(Piece::King(Colour::White).get_threatened_squares((7, 0), &game.board)),
        vec![(6, 0), (6, 1), (7, 1)]
    );
    assert_eq!(
        sorted(game.board[7][0].get_king_moves((7, 0), &game.board, game.castlings)),
        vec![(7, 1)]
    );
}

#[test]
fn a_side_covers_what_its_pieces_cover() {
    let game = load("8/8/8/8/8/8/8/Rn6 w - - 0 1");
    let mut covered = threatened_by(&game.board, Colour::White);
    covered.sort();
    covered.dedup();
    assert_eq!(
        covered,
        vec![(0, 0), (1, 0), (2, 0), (3, 0), (4, 0), (5, 0), (6, 0), (7, 1)]
    );
}

#[test]
fn sliding_stops_at_the_first_piece() {
    let game = load("8/8/8/8/8/8/8/R2p1P2 w - - 0 1");
    let rook = sorted(game.board[7][0].get_rook_moves((7, 0), &game.board));
    assert_eq!(
        rook,
        vec![(0, 0), (1, 0), (2, 0), (3, 0), (4, 0), (5, 0), (6, 0), (7, 1), (7, 2), (7, 3)]
    );
    let blocked = load("8/8/8/8/8/8/8/R2P1p2 w - - 0 1");
    let rook = sorted(blocked.board[7][0].get_rook_moves((7, 0), &blocked.board));
    assert_eq!(
        rook,
        vec![(0, 0), (1, 0), (2, 0), (3, 0), (4, 0), (5, 0), (6, 0), (7, 1), (7, 2)]
    );
}

#[test]
fn queen_moves_as_rook_and_bishop() {
    let game = load("8/8/8/8/8/8/1P6/Q1R5 w - - 0 1");
    let queen = sorted(game.board[7][0].get_valid_moves(
        (7, 0),
        &game.board,
        game.en_passant_square,
        game.castlings,
    ));
    assert_eq!(queen, vec![(0, 0), (1, 0), (2, 0), (3, 0), (4, 0), (5, 0), (6, 0), (7, 1)]);
}

#[test]
fn white_pawn_steps_onto_the_far_row() {
    let game = load("8/2P5/8/8/8/8/8/8 w - - 0 1");
    let moves =
        game.board[1][2].get_pawn_moves((1, 2), &game.board, game.en_passant_square);
    assert_eq!(moves, vec![(0, 2)]);
}

#[test]
fn black_pawn_moves_down_the_board() {
    let game = load("8/3p4/2P1p3/8/8/8/8/8 b - - 0 1");
    let moves = sorted(game.board[1][3].get_pawn_moves((1, 3), &game.board, (8, 8)));
    assert_eq!(moves, vec![(2, 2), (2, 3), (3, 3)]);
}

#[test]
fn get_colour_names_the_owner() {
    assert_eq!(Piece::Rook(Colour::Black).get_colour(), Some(&Colour::Black));
    assert_eq!(Piece::King(Colour::White).get_colour(), Some(&Colour::White));
    assert_eq!(Piece::Empty.get_colour(), None);
}

#[test]
fn a_castling_right_is_taken_at_its_word() {
    let mut game = load("8/8/8/8/8/8/8/4K3 w K - 0 1");
    assert_eq!(game.take_turn("e1 g1".to_string()), Some(GameState::InProgress));
    assert_eq!(game.get_fen(), "8/8/8/8/8/8/8/5RK1 b - - 1 1");
    let blocked = load("8/8/8/8/8/8/8/4KB1R w K - 0 1");
    assert!(!blocked.board[7][4]
        .get_king_moves((7, 4), &blocked.board, blocked.castlings)
        .contains(&(7, 6)));
    let no_right = load("8/8/8/8/8/8/8/4K2R w Q - 0 1");
    assert!(!no_right.board[7][4]
        .get_king_moves((7, 4), &no_right.board, no_right.castlings)
        .contains(&(7, 6)));
}

#[test]
fn a_move_to_or_from_a_home_square_takes_its_rights() {
    let mut game = load("4k3/8/8/8/8/8/8/R3Q2R w KQ - 0 1");
    assert_eq!(game.take_turn("e1 e2".to_string()), Some(GameState::Check));
    assert_eq!(game.castlings, (false, false, false, false));
    let mut taken = load("r3k2r/8/8/8/8/8/8/B6B w kq - 0 1");
    assert_eq!(taken.take_turn("h1 a8".to_string()), Some(GameState::InProgress));
    assert_eq!(taken.castlings, (false, false, true, false));
}
