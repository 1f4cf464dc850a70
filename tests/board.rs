use chess_server::{Board, Color, Piece, PieceType, Position};

#[test]
fn test_starting_position() {
    let board = Board::new();

    let king_pos = Position::from_algebraic("e1").unwrap();
    let king = board.get_piece(king_pos).unwrap();
    assert_eq!(king.piece_type, PieceType::King);
    assert_eq!(king.color, Color::White);

    let pawn_pos = Position::from_algebraic("e2").unwrap();
    let pawn = board.get_piece(pawn_pos).unwrap();
    assert_eq!(pawn.piece_type, PieceType::Pawn);
    assert_eq!(pawn.color, Color::White);
}

#[test]
fn test_fen_generation() {
    let board = Board::new();
    let fen = board.to_fen();
    assert!(fen.starts_with("rnbqkbnr/pppppppp/8/8/8/8/PPPPPPPP/RNBQKBNR w KQkq -"));
}

#[test]
fn test_path_clear() {
    let board = Board::new();

    let rook_pos = Position::from_algebraic("a1").unwrap();
    let target_pos = Position::from_algebraic("a3").unwrap();
    assert!(!board.is_path_clear(rook_pos, target_pos));

    let empty_board = Board::empty();
    assert!(empty_board.is_path_clear(rook_pos, target_pos));
}

#[test]
fn full_fen_of_start() {
    assert_eq!(
        Board::new().to_fen(),
        "rnbqkbnr/pppppppp/8/8/8/8/PPPPPPPP/RNBQKBNR w KQkq - 0 1"
    );
    assert_eq!(Board::empty().to_fen(), "8/8/8/8/8/8/8/8 w - - 0 1");
}

#[test]
fn position_key_ignores_clocks() {
    let mut a = Board::new();
    let b = Board::new();
    a.halfmove_clock = 17;
    a.fullmove_number = 40;
    assert_eq!(a.position_key(), b.position_key());
    assert_ne!(a.to_fen(), b.to_fen());
    assert_eq!(a.position_key(), "rnbqkbnr/pppppppp/8/8/8/8/PPPPPPPP/RNBQKBNR w KQkq -");
}

#[test]
fn place_and_remove() {
    let mut board = Board::empty();
    let e4 = Position::from_algebraic("e4").unwrap();
    assert!(board.is_empty(e4));
    board.place_piece(e4, Piece::new(PieceType::Queen, Color::Black));
    assert!(board.is_occupied_by(e4, Color::Black));
    assert!(!board.is_occupied_by(e4, Color::White));
    assert_eq!(board.find_king(Color::White), None);
    let taken = board.remove_piece(e4).unwrap();
    assert_eq!(taken.piece_type, PieceType::Queen);
    assert!(board.is_empty(e4));
    assert_eq!(Board::new().find_king(Color::Black), Position::new(4, 7));
}

#[test]
fn display_draws_ranks() {
    let text = Board::new().display();
    assert!(text.starts_with("8 r n b q k b n r \n7 p p p p p p p p \n6 . . . . . . . . \n"));
    assert!(text.ends_with("1 R N B Q K B N R \n  a b c d e f g h\n"));
}

#[test]
fn double_push_sets_en_passant_target_and_clocks() {
    let mut board = Board::new();
    let m = chess_server::Move::from_algebraic("e2e4").unwrap();
    board.make_move(&m).unwrap();
    assert_eq!(board.get_en_passant_target(), Position::from_algebraic("e3"));
    assert_eq!(board.get_to_move(), Color::Black);
    assert_eq!(board.get_halfmove_clock(), 0);
    assert_eq!(board.get_fullmove_number(), 1);
    let reply = chess_server::Move::from_algebraic("g8f6").unwrap();
    board.make_move(&reply).unwrap();
    assert_eq!(board.get_en_passant_target(), None);
    assert_eq!(board.get_halfmove_clock(), 1);
    assert_eq!(board.get_fullmove_number(), 2);
    assert_eq!(
        board.to_fen(),
        "rnbqkb1r/pppppppp/5n2/8/4P3/8/PPPP1PPP/RNBQKBNR w KQkq - 1 2"
    );
}

#[test]
fn make_move_refuses_wrong_side_and_empty_square() {
    let mut board = Board::new();
    let black = chess_server::Move::from_algebraic("e7e5").unwrap();
    assert!(board.make_move(&black).is_err());
    let empty = chess_server::Move::from_algebraic("e4e5").unwrap();
    assert!(board.make_move(&empty).is_err());
    assert_eq!(board.to_fen(), Board::new().to_fen());
}
