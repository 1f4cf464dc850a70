use chess_server::{Player, PlayerManager, PlayerSearchCriteria, PlayerStats, PlayerStatus};

#[test]
fn test_player_registration() {
    let mut manager = PlayerManager::new(3600);

    let player_id = manager.register_player("TestPlayer".to_string()).unwrap();
    assert!(manager.get_player(&player_id).is_some());
    assert!(manager.get_player_by_name("TestPlayer").is_some());

    assert!(manager.register_player("TestPlayer".to_string()).is_err());
}

#[test]
fn test_game_management() {
    let mut manager = PlayerManager::new(3600);

    let player_id = manager.register_player("TestPlayer".to_string()).unwrap();

    manager.add_player_to_game(&player_id, "game1").unwrap();
    let player = manager.get_player(&player_id).unwrap();
    assert!(player.is_in_game("game1"));
    assert_eq!(player.status, PlayerStatus::InGame);

    manager.remove_player_from_game(&player_id, "game1").unwrap();
    let player = manager.get_player(&player_id).unwrap();
    assert!(!player.is_in_game("game1"));
    assert_eq!(player.status, PlayerStatus::Online);
}

#[test]
fn test_matchmaking() {
    let mut manager = PlayerManager::new(3600);

    let player1_id = manager.register_player("Player1".to_string()).unwrap();
    let player2_id = manager.register_player("Player2".to_string()).unwrap();
    let player3_id = manager.register_player("Player3".to_string()).unwrap();

    manager.update_player_rating(&player1_id, 1200).unwrap();
    manager.update_player_rating(&player2_id, 1250).unwrap();
    manager.update_player_rating(&player3_id, 1500).unwrap();

    let opponent = manager.find_matchmaking_opponent(&player1_id, 100);
    assert!(opponent.is_some());
    assert_eq!(opponent.unwrap().name, "Player2");
}

#[test]
fn matchmaking_breaks_ties_by_identifier() {
    let mut manager = PlayerManager::new(3600);
    manager.register_sanitized("Me".to_string(), "m".to_string(), 0).unwrap();
    manager.register_sanitized("Zed".to_string(), "z9".to_string(), 0).unwrap();
    manager.register_sanitized("Amy".to_string(), "a1".to_string(), 0).unwrap();
    manager.register_sanitized("Far".to_string(), "b1".to_string(), 0).unwrap();
    manager.update_player_rating("m", 1500).unwrap();
    manager.update_player_rating("z9", 1520).unwrap();
    manager.update_player_rating("a1", 1480).unwrap();
    manager.update_player_rating("b1", 1700).unwrap();
    assert_eq!(manager.find_matchmaking_opponent("m", 50).unwrap().id, "a1");
    manager.update_player_online_status("a1", PlayerStatus::Offline).unwrap();
    assert_eq!(manager.find_matchmaking_opponent("m", 50).unwrap().id, "z9");
    assert!(manager.find_matchmaking_opponent("m", 10).is_none());
    assert!(manager.find_matchmaking_opponent("nobody", 1000).is_none());
}

#[test]
fn rating_changes_floor_at_one_hundred() {
    let mut manager = PlayerManager::new(3600);
    manager.register_sanitized("A".to_string(), "a".to_string(), 0).unwrap();
    manager.register_sanitized("B".to_string(), "b".to_string(), 0).unwrap();
    manager.apply_rating_changes("a", "b", 16, -16).unwrap();
    assert_eq!(manager.get_player("a").unwrap().get_rating(), 1216);
    assert_eq!(manager.get_player("b").unwrap().get_rating(), 1184);
    manager.apply_rating_changes("a", "b", 0, -5000).unwrap();
    assert_eq!(manager.get_player("b").unwrap().get_rating(), 100);
    assert_eq!(manager.get_player("a").unwrap().stats.peak_rating, 1216);
    assert!(manager.apply_rating_changes("a", "zz", 1, 1).is_err());
}

#[test]
fn game_list_is_capped() {
    let mut player = Player::create("p".to_string(), "P".to_string(), 0);
    for i in 0..10 {
        player.add_game(format!("g{}", i)).unwrap();
    }
    assert!(player.add_game("g10".to_string()).is_err());
    player.add_game("g3".to_string()).unwrap_err();
    assert!(!player.is_available_for_game());
    player.remove_game("g3");
    assert_eq!(player.current_games.len(), 9);
    player.add_game("g3".to_string()).unwrap();
    player.add_game("g3".to_string()).unwrap_err();
}

#[test]
fn stats_after_games() {
    let mut stats = PlayerStats::default();
    stats.update_after_game(true, false, false, 40, 1200);
    stats.update_after_game(false, false, true, 20, 600);
    assert_eq!(stats.games_played, 2);
    assert_eq!(stats.games_won, 1);
    assert_eq!(stats.games_drawn, 1);
    assert_eq!(stats.total_moves, 60);
    assert_eq!(stats.longest_game_moves, 40);
    assert_eq!(stats.shortest_game_moves, 20);
    stats.update_rating(1300);
    stats.update_rating(1250);
    assert_eq!(stats.peak_rating, 1300);
    assert_eq!(stats.rating_games, 2);
}

#[test]
fn names_are_sanitized_and_required() {
    let mut manager = PlayerManager::new(3600);
    assert!(manager.register_player("  @@@ ".to_string()).is_err());
    let id = manager.register_player("  Bob!  ".to_string()).unwrap();
    assert_eq!(manager.get_player(&id).unwrap().name, "Bob");
    assert_eq!(manager.get_player_id_by_name("Bob"), Some(id.clone()));
    assert!(Player::new("???".to_string()).is_err());
    let session = manager.create_player_session(&id, "127.0.0.1".to_string(), None).unwrap();
    assert!(manager.session_manager().get_session(&session).is_some());
    assert!(manager.create_player_session("ghost", "127.0.0.1".to_string(), None).is_err());
    assert!(manager.remove_player(&id).is_some());
    assert_eq!(manager.get_player_count(), 0);
    assert_eq!(manager.get_online_player_count(), 0);
    assert!(manager.session_manager().get_session(&session).is_none());
}

#[test]
fn player_counts_by_status() {
    let mut manager = PlayerManager::new(3600);
    manager.register_sanitized("A".to_string(), "a".to_string(), 0).unwrap();
    manager.register_sanitized("B".to_string(), "b".to_string(), 0).unwrap();
    manager.register_sanitized("C".to_string(), "c".to_string(), 0).unwrap();
    manager.add_player_to_game("a", "g1").unwrap();
    manager.update_player_online_status("c", PlayerStatus::Offline).unwrap();
    assert_eq!(manager.get_online_player_count(), 2);
    assert_eq!(manager.get_in_game_player_count(), 1);
    let available = manager.get_available_players();
    assert_eq!(available.len(), 1);
    assert_eq!(available[0].id, "b");
}

#[test]
fn test_player_search() {
    let mut manager = PlayerManager::new(3600);

    let player1_id = manager.register_player("Alice".to_string()).unwrap();
    let _ = manager.register_player("Bob".to_string()).unwrap();

    manager.update_player_rating(&player1_id, 1500).unwrap();

    let criteria = PlayerSearchCriteria::by_rating_range(1400, 1600);
    let results = manager.search_players(&criteria);

    assert_eq!(results.len(), 1);
    assert_eq!(results[0].name, "Alice");
}

#[test]
fn search_names_ignore_case() {
    let mut manager = PlayerManager::new(3600);
    manager.register_player("AliceCooper".to_string()).unwrap();
    manager.register_player("Bob".to_string()).unwrap();
    let mut criteria = PlayerSearchCriteria::default();
    criteria.name_contains = Some("ECOO".to_string());
    let found = manager.search_players(&criteria);
    assert_eq!(found.len(), 1);
    assert_eq!(found[0].name, "AliceCooper");
    let available = manager.search_players(&PlayerSearchCriteria::online_available());
    assert_eq!(available.len(), 2);
}

fn elo_change(a: u32, b: u32, score: f64) -> i32 {
    let expected = 1.0 / (1.0 + 10f64.powf((b as f64 - a as f64) / 400.0));
    (32.0 * (score - expected)).round() as i32
}

#[test]
fn elo_updates_from_equal_and_unequal_ratings() {
    let mut manager = PlayerManager::new(3600);
    manager.register_sanitized("A".to_string(), "a".to_string(), 0).unwrap();
    manager.register_sanitized("B".to_string(), "b".to_string(), 0).unwrap();
    manager.update_player_rating("a", 1500).unwrap();
    manager.update_player_rating("b", 1500).unwrap();
    manager
        .apply_rating_changes("a", "b", elo_change(1500, 1500, 1.0), elo_change(1500, 1500, 0.0))
        .unwrap();
    assert_eq!(manager.get_player("a").unwrap().get_rating(), 1516);
    assert_eq!(manager.get_player("b").unwrap().get_rating(), 1484);

    manager.update_player_rating("a", 1600).unwrap();
    manager.update_player_rating("b", 1400).unwrap();
    manager
        .apply_rating_changes("a", "b", elo_change(1600, 1400, 1.0), elo_change(1400, 1600, 0.0))
        .unwrap();
    let a = manager.get_player("a").unwrap().get_rating() as i64;
    let b = manager.get_player("b").unwrap().get_rating() as i64;
    assert!((a - 1607).abs() <= 1, "{}", a);
    assert!((b - 1393).abs() <= 1, "{}", b);
}

#[test]
fn connection_counters() {
    let mut player = Player::create("p".to_string(), "P".to_string(), 0);
    player.add_sent_data(10);
    assert!(player.connection_info.is_none());
    player.set_connection_info_at("9.9.9.9".to_string(), None, 50);
    player.add_sent_data(10);
    player.add_sent_data(5);
    player.add_received_data(7);
    let c = player.connection_info.as_ref().unwrap();
    assert_eq!((c.bytes_sent, c.messages_sent, c.bytes_received, c.messages_received), (15, 2, 7, 1));
    let d = player.get_detailed_stats_at(50 + 3 * 86400);
    assert_eq!(d.account_age_days, 3);
    player.disconnect();
    assert!(player.connection_info.is_none());
    assert_eq!(player.status, PlayerStatus::Offline);
}

#[test]
fn test_session_integration() {
    let mut manager = PlayerManager::new(3600);

    let player_id = manager.register_player("TestPlayer".to_string()).unwrap();
    let session_id = manager
        .create_player_session(&player_id, "127.0.0.1".to_string(), None)
        .unwrap();

    assert!(manager.session_manager().get_session(&session_id).is_some());
    assert!(manager.session_manager().get_session_by_player(&player_id).is_some());

    let details = manager.get_player_details(&player_id).unwrap();
    assert!(details.session_info.is_some());
}

#[test]
fn mod_test_statistics() {
    let mut manager = PlayerManager::new(3600);

    for i in 0..10 {
        let player_id = manager.register_player(format!("Player{}", i)).unwrap();
        manager.update_player_rating(&player_id, 1000 + (i as u32 * 100)).unwrap();
    }

    assert_eq!(manager.get_player_count(), 10);

    let distribution = manager.get_rating_distribution();
    assert!(distribution.contains_key("Novice (1000-1199)"));
    assert!(distribution.contains_key("Intermediate (1200-1399)"));
}

#[test]
fn distribution_counts_and_idle_players() {
    let mut manager = PlayerManager::new(3600);
    manager.register_sanitized("A".to_string(), "a".to_string(), 0).unwrap();
    manager.register_sanitized("B".to_string(), "b".to_string(), 500).unwrap();
    manager.update_player_rating("a", 950).unwrap();
    manager.update_player_rating("b", 2400).unwrap();
    let d = manager.get_rating_distribution();
    assert_eq!(d.counts, vec![1, 0, 0, 0, 0, 0, 0, 1]);
    assert!(!d.contains_key("Novice (1000-1199)"));
    assert!(d.contains_key("Super Grandmaster (2200+)"));
    let idle = manager.get_idle_players_at(300, 700);
    assert_eq!(idle.len(), 1);
    assert_eq!(idle[0].id, "a");
}

#[test]
fn duplicate_identifier_gets_a_fresh_one() {
    let mut manager = PlayerManager::new(3600);
    let first = manager.register_sanitized("A".to_string(), "id".to_string(), 0).unwrap();
    let second = manager.register_sanitized("B".to_string(), "id".to_string(), 0).unwrap();
    assert_eq!(first, "id");
    assert_ne!(second, first);
    assert_eq!(manager.get_player(&second).unwrap().name, "B");
}

#[test]
fn manager_updates_touch_one_player() {
    let mut manager = PlayerManager::new(3600);
    manager.register_sanitized("A".to_string(), "a".to_string(), 0).unwrap();
    manager.register_sanitized("B".to_string(), "b".to_string(), 0).unwrap();
    manager.update_player_stats("a", true, false, false, 30, 600).unwrap();
    assert_eq!(manager.get_player("a").unwrap().stats.games_won, 1);
    assert_eq!(manager.get_player("b").unwrap().stats.games_played, 0);
    assert!(manager.update_player_stats("zz", true, false, false, 1, 1).is_err());
    manager.add_player_to_game("a", "g1").unwrap();
    manager.add_player_to_game("a", "g1").unwrap();
    assert_eq!(manager.get_player("a").unwrap().current_games.len(), 1);
    assert!(manager.get_player("b").unwrap().current_games.is_empty());
    manager.remove_player_from_game("a", "g1").unwrap();
    assert!(!manager.get_player("a").unwrap().is_in_game("g1"));
}
