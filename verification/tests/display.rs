use chess_rules::{fen_into_display, FenError, Game};

#[test]
fn start_position_is_drawn_rank_by_rank() {
    let expected = "Current turn: White\n\
\n   a b c d e f g h\n \n\
8  r n b q k b n r \n\
7  p p p p p p p p \n\
6                  \n\
5                  \n\
4                  \n\
3                  \n\
2  P P P P P P P P \n\
1  R N B Q K B N R \n";
    assert_eq!(fen_into_display(Game::new().get_fen()), Ok(expected.to_string()));
}

#[test]
fn black_to_move_is_named() {
    let text = fen_into_display("8/8/8/8/8/2b5/1q6/K7 b - - 0 0".to_string()).unwrap();
    let lines: Vec<&str> = text.split('\n').collect();
    assert_eq!(lines[0], "Current turn: Black");
    assert_eq!(lines[1], "");
    assert_eq!(lines[2], "   a b c d e f g h");
    assert_eq!(lines[3], " ");
    assert_eq!(lines[9], "3      b           ");
    assert_eq!(lines[10], "2    q             ");
    assert_eq!(lines[11], "1  K               ");
    assert_eq!(lines.len(), 13);
}

#[test]
fn a_bad_text_is_not_drawn() {
    assert_eq!(fen_into_display("8/8/8 w - - 0 0".to_string()), Err(FenError::Placement));
    assert_eq!(fen_into_display("".to_string()), Err(FenError::FieldCount));
}
