use chess_rules::{convert_square, Game, GameState};

fn legal_moves(fen: &str, piece: &str) -> Vec<(usize, usize)> {
    let mut game = Game::new_empty();
    let square = convert_square(piece);
    assert_eq!(game.set_state_from_fen(fen), Ok(()));
    let mut actual_moves = game.board[square.0][square.1].get_valid_moves(
        square,
        &game.board,
        game.en_passant_square,
        game.castlings,
    );
    actual_moves.sort();
    actual_moves
}

fn squares(names: &[&str]) -> Vec<(usize, usize)> {
    let mut all_moves: Vec<(usize, usize)> = names.iter().map(|name| convert_square(name)).collect();
    all_moves.sort();
    all_moves
}

#[test]
fn checkmate_correctly_applies() {
    let mut game = Game::new();
    assert_eq!(game.set_state_from_fen("8/8/8/8/8/2b5/1q6/K7 w  - 0 0"), Ok(()));
    let state = game.get_game_state(true);

    assert_eq!(state, GameState::Checkmate);
}

#[test]
fn bishop_takes_correctly() {
    assert_eq!(
        squares(&["a7", "c7", "d6", "e5", "f4", "g3", "h2"]),
        legal_moves("1B6/8/8/8/8/8/8/8 w  - 0 0", "b8")
    );
}

#[test]
fn bishop_moves_correctly() {
    assert_eq!(
        squares(&["a7", "c7", "d6", "e5", "f4", "g3", "h2"]),
        legal_moves("1B6/8/8/8/8/8/8/8 w  - 0 0", "b8")
    );
}

#[test]
fn rook_moves_correctly() {
    assert_eq!(
        squares(&["a5", "b5", "d5", "c4", "c3", "c2", "c1"]),
        legal_moves("8/8/2R5/2R1R3/8/8/8/8 w  - 0 0", "c5")
    );
}

#[test]
fn rook_takes_correctly() {
    assert_eq!(
        squares(&["c6", "a5", "b5", "d5", "c4", "c3", "c2", "c1"]),
        legal_moves("8/8/2r5/2R1R3/8/8/8/8 w  - 0 0", "c5")
    );
}

#[test]
fn knight_moves_correctly() {
    assert_eq!(
        squares(&["a5", "c5", "d8", "d6"]),
        legal_moves("8/1N6/8/8/8/8/8/8 w  - 0 0", "b7")
    );
}

#[test]
fn knight_takes_correctly() {
    assert_eq!(
        squares(&["a5", "c5", "d8"]),
        legal_moves("3r4/1N6/3R4/8/8/8/8/8 w  - 0 0", "b7")
    );
}

#[test]
fn pawn_moves_correctly() {
    assert_eq!(squares(&["c3", "c4"]), legal_moves("8/8/8/8/8/8/2P5/8 w  - 0 0", "c2"));
}

#[test]
fn pawn_takes_correctly() {
    assert_eq!(squares(&["b6", "d6"]), legal_moves("8/8/2Pp4/1pP5/8/8/8/8 w  b6 0 0", "c5"));
}

#[test]
fn king_moves_correctly() {
    assert_eq!(squares(&["a2", "b2", "b1"]), legal_moves("8/8/8/8/8/8/8/K7 w  - 0 0", "a1"));
}

#[test]
fn king_takes_correctly() {
    assert_eq!(
        squares(&["b4", "b3", "b2"]),
        legal_moves("8/8/8/8/P7/Kp6/8/8 w  - 0 0", "a3")
    );
}

#[test]
fn king_checks_correctly() {
    assert_eq!(
        squares(&["a4", "b3", "b2"]),
        legal_moves("8/8/8/8/r7/K7/8/8 w  - 0 0", "a3")
    );
}

#[test]
fn king_pins_correctly() {
    assert_eq!(squares(&["c5"]), legal_moves("8/8/8/2b5/1P6/K7/8/8 w  - 0 0", "b4"));
}

#[test]
fn king_castle_correctly() {
    assert_eq!(
        squares(&["f1", "g1", "d2", "e2", "f2"]),
        legal_moves("8/8/8/8/8/8/8/3QK2R w KQ - 0 0", "e1")
    );
}
