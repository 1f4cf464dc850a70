use chess_server::{Color, Move, Piece, PieceType, Position};

#[test]
fn position_validity_bounds() {
    assert!(Position { file: 7, rank: 7 }.is_valid());
    assert!(Position { file: 0, rank: 0 }.is_valid());
    assert!(!Position { file: 8, rank: 0 }.is_valid());
    assert!(!Position { file: 0, rank: 8 }.is_valid());
    assert_eq!(Position::new(8, 1), None);
    assert_eq!(Position::new(3, 4), Some(Position { file: 3, rank: 4 }));
}

#[test]
fn algebraic_squares() {
    assert_eq!(Position::from_algebraic("a1"), Some(Position { file: 0, rank: 0 }));
    assert_eq!(Position::from_algebraic("h8"), Some(Position { file: 7, rank: 7 }));
    assert_eq!(Position::from_algebraic("i1"), None);
    assert_eq!(Position::from_algebraic("a9"), None);
    assert_eq!(Position::from_algebraic("a10"), None);
    assert_eq!(Position { file: 4, rank: 3 }.to_algebraic(), "e4");
}

#[test]
fn algebraic_moves() {
    let m = Move::from_algebraic("e7e8q").unwrap();
    assert_eq!(m.promotion, Some(PieceType::Queen));
    assert_eq!(m.to_algebraic(), "e7e8q");
    let n = Move::from_algebraic("g1f3").unwrap();
    assert_eq!(n, Move::new(Position { file: 6, rank: 0 }, Position { file: 5, rank: 2 }));
    assert_eq!(n.to_algebraic(), "g1f3");
    assert_eq!(Move::from_algebraic("e2"), None);
    assert_eq!(Move::from_algebraic("e2e9"), None);
    assert_eq!(Move::from_algebraic("e7e8x").unwrap().promotion, None);
}

#[test]
fn fen_letters() {
    assert_eq!(Piece::new(PieceType::Knight, Color::White).to_fen_char(), 'N');
    assert_eq!(Piece::new(PieceType::King, Color::Black).to_fen_char(), 'k');
    assert_eq!(Piece::from_fen_char('Q'), Some(Piece::new(PieceType::Queen, Color::White)));
    assert_eq!(Piece::from_fen_char('p'), Some(Piece::new(PieceType::Pawn, Color::Black)));
    assert_eq!(Piece::from_fen_char('x'), None);
    assert_eq!(Piece::new(PieceType::Queen, Color::White).get_value(), 9);
    assert_eq!(Color::White.opposite(), Color::Black);
    let mut p = Piece::new(PieceType::Rook, Color::White);
    p.mark_moved();
    assert!(p.has_moved);
}
