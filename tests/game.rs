use chess_server::{
    GameListFilter, GameStatus, Board, Color, DrawReason, GameManager, GameResult, GameState, Move, MoveValidator, Piece,
    PieceType, Position,
};

fn sq(name: &str) -> Position {
    Position::from_algebraic(name).unwrap()
}

fn seated_game() -> GameState {
    let mut game = GameState::new();
    game.add_player("white".to_string(), Some(Color::White)).unwrap();
    game.add_player("black".to_string(), Some(Color::Black)).unwrap();
    game
}

fn play(game: &mut GameState, moves: &[&str]) {
    for (i, text) in moves.iter().enumerate() {
        let player = if i % 2 == 0 { "white" } else { "black" };
        let m = Move::from_algebraic(text).unwrap();
        game.make_move(player, m).unwrap();
    }
}

#[test]
fn scholars_mate() {
    let mut game = seated_game();
    play(&mut game, &["e2e4", "e7e5", "f1c4", "b8c6", "d1h5", "g8f6", "h5f7"]);
    assert_eq!(game.result, GameResult::Checkmate(Color::White));
    assert_eq!(game.position_history.len(), 8);
    assert_eq!(game.move_history.len(), 7);
    assert!(game.is_in_check());
    assert!(game.get_legal_moves().is_empty());
    assert!(game.make_move("black", Move::from_algebraic("e8e7").unwrap()).is_err());
}

#[test]
fn stalemate_board() {
    let mut board = Board::empty();
    board.place_piece(sq("h8"), Piece::new(PieceType::King, Color::Black));
    board.place_piece(sq("g6"), Piece::new(PieceType::Queen, Color::White));
    board.place_piece(sq("h6"), Piece::new(PieceType::King, Color::White));
    board.set_to_move(Color::Black);
    let mut game = GameState::new();
    game.board = board;
    game.check_game_end();
    assert_eq!(game.result, GameResult::Stalemate);
    assert!(MoveValidator::generate_legal_moves(&game.board).is_empty());
    assert!(MoveValidator::is_stalemate(&game.board));
    assert!(!MoveValidator::is_checkmate(&game.board));
}

#[test]
fn en_passant_window() {
    let mut game = seated_game();
    play(&mut game, &["e2e4", "a7a6", "e4e5", "d7d5"]);
    let capture = Move::en_passant(sq("e5"), sq("d6"));
    let legal = game.get_legal_moves();
    assert!(legal.contains(&capture));
    assert!(MoveValidator::is_valid_move(&game.board, &capture));
    play_one(&mut game, "white", "b1c3");
    play_one(&mut game, "black", "a6a5");
    assert!(!MoveValidator::is_valid_move(&game.board, &capture));
    assert!(!game.get_legal_moves().contains(&capture));
}

fn play_one(game: &mut GameState, player: &str, text: &str) {
    game.make_move(player, Move::from_algebraic(text).unwrap()).unwrap();
}

#[test]
fn en_passant_capture_removes_pawn() {
    let mut game = seated_game();
    play(&mut game, &["e2e4", "a7a6", "e4e5", "d7d5"]);
    game.make_move("white", Move::en_passant(sq("e5"), sq("d6"))).unwrap();
    assert!(game.board.is_empty(sq("d5")));
    assert!(game.board.is_occupied_by(sq("d6"), Color::White));
}

#[test]
fn threefold_repetition() {
    let mut game = seated_game();
    play(
        &mut game,
        &["g1f3", "g8f6", "f3g1", "f6g8", "g1f3", "g8f6", "f3g1", "f6g8"],
    );
    assert_eq!(game.result, GameResult::Draw(DrawReason::ThreefoldRepetition));
}

#[test]
fn start_has_twenty_moves() {
    let board = Board::new();
    let moves = MoveValidator::generate_legal_moves(&board);
    assert_eq!(moves.len(), 20);
    for m in &moves {
        assert!(MoveValidator::is_valid_move(&board, m));
    }
}

#[test]
fn promotion_must_be_named() {
    let mut board = Board::empty();
    board.place_piece(sq("a7"), Piece::new(PieceType::Pawn, Color::White));
    board.place_piece(sq("e1"), Piece::new(PieceType::King, Color::White));
    board.place_piece(sq("e8"), Piece::new(PieceType::King, Color::Black));
    let bare = Move::new(sq("a7"), sq("a8"));
    assert!(!MoveValidator::is_valid_move(&board, &bare));
    let queen = Move::with_promotion(sq("a7"), sq("a8"), PieceType::Queen);
    assert!(MoveValidator::is_valid_move(&board, &queen));
    let king = Move::with_promotion(sq("a7"), sq("a8"), PieceType::King);
    assert!(!MoveValidator::is_valid_move(&board, &king));
    let moves = MoveValidator::generate_legal_moves(&board);
    assert!(moves.contains(&queen));
    assert!(!moves.contains(&bare));
    board.make_move(&queen).unwrap();
    assert_eq!(board.get_piece(sq("a8")).unwrap().piece_type, PieceType::Queen);
}

fn castling_board() -> Board {
    let mut board = Board::empty();
    board.place_piece(sq("e1"), Piece::new(PieceType::King, Color::White));
    board.place_piece(sq("h1"), Piece::new(PieceType::Rook, Color::White));
    board.place_piece(sq("a1"), Piece::new(PieceType::Rook, Color::White));
    board.place_piece(sq("e8"), Piece::new(PieceType::King, Color::Black));
    board.castling_rights.white_kingside = true;
    board.castling_rights.white_queenside = true;
    board
}

#[test]
fn castling_allowed_and_played() {
    let mut board = castling_board();
    let short = Move::castle(sq("e1"), sq("g1"));
    let long = Move::castle(sq("e1"), sq("c1"));
    assert!(MoveValidator::is_valid_move(&board, &short));
    assert!(MoveValidator::is_valid_move(&board, &long));
    board.make_move(&short).unwrap();
    assert_eq!(board.get_piece(sq("g1")).unwrap().piece_type, PieceType::King);
    assert_eq!(board.get_piece(sq("f1")).unwrap().piece_type, PieceType::Rook);
    assert!(board.is_empty(sq("h1")));
    assert!(!board.get_castling_rights().white_kingside);
    assert!(!board.get_castling_rights().white_queenside);
}

#[test]
fn castling_through_attacked_square_refused() {
    for attacked in ["e5", "f5", "g5"] {
        let mut board = castling_board();
        board.place_piece(sq(attacked), Piece::new(PieceType::Rook, Color::Black));
        let short = Move::castle(sq("e1"), sq("g1"));
        assert!(!MoveValidator::is_valid_move(&board, &short), "attacked {}", attacked);
    }
    let mut board = castling_board();
    board.place_piece(sq("h5"), Piece::new(PieceType::Rook, Color::Black));
    assert!(MoveValidator::is_valid_move(&board, &Move::castle(sq("e1"), sq("g1"))));
}

#[test]
fn no_move_leaves_own_king_attacked() {
    let mut board = Board::empty();
    board.place_piece(sq("e1"), Piece::new(PieceType::King, Color::White));
    board.place_piece(sq("e2"), Piece::new(PieceType::Bishop, Color::White));
    board.place_piece(sq("e8"), Piece::new(PieceType::Rook, Color::Black));
    board.place_piece(sq("a8"), Piece::new(PieceType::King, Color::Black));
    let pinned = Move::new(sq("e2"), sq("d3"));
    assert!(!MoveValidator::is_valid_move(&board, &pinned));
    for m in MoveValidator::generate_legal_moves(&board) {
        let mut after = board;
        after.make_move(&m).unwrap();
        assert!(!MoveValidator::is_in_check(&after, Color::White));
    }
    assert!(MoveValidator::is_square_attacked(&board, sq("e5"), Color::Black));
    assert!(!MoveValidator::is_square_attacked(&board, sq("d1"), Color::Black));
}

#[test]
fn seats_and_turns() {
    let mut game = GameState::new();
    assert_eq!(game.add_player("a".to_string(), None), Ok(Color::White));
    assert_eq!(game.add_player("b".to_string(), None), Ok(Color::Black));
    assert!(game.add_player("c".to_string(), None).is_err());
    assert!(game.is_ready_to_start());
    assert_eq!(game.get_player_color("b"), Some(Color::Black));
    assert_eq!(game.get_opponent("a").map(|s| s.as_str()), Some("b"));
    assert_eq!(game.get_current_player().map(|s| s.as_str()), Some("a"));
    assert!(game.make_move("b", Move::from_algebraic("e7e5").unwrap()).is_err());
    assert!(game.make_move("a", Move::from_algebraic("e2e5").unwrap()).is_err());
    assert_eq!(game.get_legal_moves_for_player("b").len(), 0);
    assert_eq!(game.get_legal_moves_for_player("a").len(), 20);
    game.make_move("a", Move::from_algebraic("e2e4").unwrap()).unwrap();
    assert_eq!(game.get_move_count(), 1);
    assert_eq!(game.get_last_move(), Some(&Move::from_algebraic("e2e4").unwrap()));
    game.remove_player("a");
    assert!(!game.is_player_in_game("a"));
    assert!(!game.is_ready_to_start());
}

#[test]
fn resignation_timeout_and_draw_offers() {
    let mut game = seated_game();
    game.offer_draw("white").unwrap();
    assert_eq!(game.result, GameResult::Ongoing);
    play_one(&mut game, "white", "e2e4");
    assert_eq!(game.draw_offer, None);
    game.offer_draw("black").unwrap();
    game.offer_draw("white").unwrap();
    assert_eq!(game.result, GameResult::Draw(DrawReason::Agreement));
    assert!(game.resign("white").is_err());

    let mut game = seated_game();
    assert!(game.resign("nobody").is_err());
    game.resign("black").unwrap();
    assert_eq!(game.result, GameResult::Resignation(Color::Black));

    let mut game = seated_game();
    game.timeout("white").unwrap();
    assert_eq!(game.result, GameResult::Timeout(Color::White));
    assert!(game.get_legal_moves().is_empty());
}

#[test]
fn insufficient_material_rules() {
    assert!(GameState::is_insufficient_material_for_color(&[PieceType::King]));
    assert!(GameState::is_insufficient_material_for_color(&[PieceType::King, PieceType::Bishop]));
    assert!(GameState::is_insufficient_material_for_color(&[PieceType::Knight, PieceType::King]));
    assert!(!GameState::is_insufficient_material_for_color(&[PieceType::King, PieceType::Bishop, PieceType::Knight]));
    assert!(!GameState::is_insufficient_material_for_color(&[PieceType::King, PieceType::Pawn]));
    let mut game = GameState::new();
    let mut board = Board::empty();
    board.place_piece(sq("e1"), Piece::new(PieceType::King, Color::White));
    board.place_piece(sq("e8"), Piece::new(PieceType::King, Color::Black));
    board.place_piece(sq("c8"), Piece::new(PieceType::Bishop, Color::Black));
    game.board = board;
    assert!(game.is_insufficient_material());
    game.check_game_end();
    assert_eq!(game.result, GameResult::Draw(DrawReason::InsufficientMaterial));
}

#[test]
fn fifty_move_rule() {
    let mut game = GameState::new();
    game.board.halfmove_clock = 100;
    game.check_game_end();
    assert_eq!(game.result, GameResult::Draw(DrawReason::FiftyMoveRule));
}

#[test]
fn pgn_lists_moves() {
    let mut game = seated_game();
    game.created_at = 1700000000;
    play(&mut game, &["e2e4", "e7e5", "g1f3"]);
    let pgn = game.to_pgn();
    assert!(pgn.starts_with("[Event \"Chess game\"]\n[Site \"Chess Server\"]\n[Date \"1700000000\"]\n"));
    assert!(pgn.contains("[White \"white\"]\n[Black \"black\"]\n[Result \"*\"]\n\n"));
    assert!(pgn.ends_with("\n\n1. e2e4  e7e5 2. g1f3  *"));
    let info = game.get_game_info();
    assert_eq!(info.move_count, 3);
    assert_eq!(info.to_move, Color::Black);
    assert_eq!(GameState::format_date(42), "42");
}

#[test]
fn manager_routes_by_id() {
    let mut manager = GameManager::new();
    let id = manager.create_game();
    assert_eq!(id.len(), 32);
    assert!(manager.join_game("missing", "p".to_string(), None).is_err());
    assert_eq!(manager.join_game(&id, "ann".to_string(), None), Ok(Color::White));
    assert_eq!(manager.join_game(&id, "ben".to_string(), None), Ok(Color::Black));
    assert!(manager.join_game(&id, "cid".to_string(), None).is_err());
    manager.make_move(&id, "ann", Move::from_algebraic("d2d4").unwrap()).unwrap();
    assert!(manager.make_move(&id, "ann", Move::from_algebraic("d4d5").unwrap()).is_err());
    assert!(manager.make_move("missing", "ann", Move::from_algebraic("d4d5").unwrap()).is_err());
    assert_eq!(manager.get_game(&id).unwrap().get_move_count(), 1);
    assert_eq!(manager.get_player_games("ben").len(), 1);
    manager.get_game_mut(&id).unwrap().resign("ben").unwrap();
    assert_eq!(manager.get_game(&id).unwrap().result, GameResult::Resignation(Color::Black));
    manager.leave_game(&id, "ben").unwrap();
    assert_eq!(manager.get_player_games("ben").len(), 0);
    assert!(!manager.get_game(&id).unwrap().is_player_in_game("ben"));
}

#[test]
fn en_passant_onto_last_rank_promotes() {
    let mut board = Board::empty();
    board.place_piece(sq("e7"), Piece::new(PieceType::Pawn, Color::White));
    board.place_piece(sq("d7"), Piece::new(PieceType::Pawn, Color::Black));
    board.place_piece(sq("a1"), Piece::new(PieceType::King, Color::White));
    board.place_piece(sq("h1"), Piece::new(PieceType::King, Color::Black));
    board.en_passant_target = Some(sq("d8"));
    let mut m = Move::en_passant(sq("e7"), sq("d8"));
    assert!(!MoveValidator::is_valid_move(&board, &m));
    m.promotion = Some(PieceType::Knight);
    assert!(MoveValidator::is_valid_move(&board, &m));
    board.make_move(&m).unwrap();
    assert_eq!(board.get_piece(sq("d8")).unwrap().piece_type, PieceType::Knight);
    assert!(board.is_empty(sq("d7")));
}

#[test]
fn repetition_counts_the_current_board() {
    let mut game = seated_game();
    play(&mut game, &["g1f3", "g8f6", "f3g1", "f6g8", "g1f3", "g8f6", "f3g1", "f6g8"]);
    assert_eq!(game.result, GameResult::Draw(DrawReason::ThreefoldRepetition));
    let mut other = GameState::new();
    other.position_history = game.position_history.clone();
    other.board = Board::empty();
    other.board.place_piece(sq("e1"), Piece::new(PieceType::King, Color::White));
    other.board.place_piece(sq("e8"), Piece::new(PieceType::King, Color::Black));
    other.board.place_piece(sq("a1"), Piece::new(PieceType::Rook, Color::White));
    assert!(!other.is_threefold_repetition());
    assert!(game.is_threefold_repetition());
}

#[test]
fn game_list_filters_by_status() {
    let mut manager = GameManager::new();
    let a = manager.create_game();
    let b = manager.create_game();
    assert_ne!(a, b);
    assert!(manager.get_game(&a).unwrap().move_history.is_empty());
    manager.join_game(&a, "x".to_string(), None).unwrap();
    manager.join_game(&a, "y".to_string(), None).unwrap();
    let mut filter = GameListFilter::default();
    filter.status = Some(GameStatus::Active);
    let listed = manager.list_games(&filter);
    assert_eq!(listed.len(), 1);
    assert_eq!(listed[0].id, a);
    filter.status = Some(GameStatus::Waiting);
    assert_eq!(manager.list_games(&filter)[0].id, b);
    let mut by_name = GameListFilter::default();
    by_name.player_name = Some("y".to_string());
    assert_eq!(manager.list_games(&by_name).len(), 1);
    assert_eq!(manager.list_games(&GameListFilter::default()).len(), 2);
}
