use chess_server::{current_timestamp, Session, SessionManager, SessionPermissions, MILLI};

#[test]
fn test_session_creation() {
    let session = Session::new(
        "player123".to_string(),
        "127.0.0.1".to_string(),
        Some("TestClient/1.0".to_string()),
    );

    assert_eq!(session.player_id, "player123");
    assert_eq!(session.ip_address, "127.0.0.1");
    assert!(!session.is_authenticated);
    assert!(session.permissions.can_create_games);
}

#[test]
fn test_guest_session() {
    let session = Session::guest("127.0.0.1".to_string(), Some("TestClient/1.0".to_string()));

    assert!(session.is_guest());
    assert!(!session.permissions.can_create_games);
    assert!(session.permissions.can_spectate);
    assert!(session.player_id.starts_with("guest_"));
    assert_eq!(session.player_id.len(), 14);
}

#[test]
fn test_session_authentication() {
    let mut session = Session::guest("127.0.0.1".to_string(), None);

    assert!(session.is_guest());

    session.authenticate("authenticated_player".to_string());
    assert!(!session.is_guest());
    assert!(session.is_authenticated);
    assert_eq!(session.player_id, "authenticated_player");
}

#[test]
fn test_session_manager() {
    let mut manager = SessionManager::new(3600);

    let session_id = manager
        .create_session("player1".to_string(), "127.0.0.1".to_string(), Some("TestClient/1.0".to_string()))
        .unwrap();

    assert!(manager.get_session(&session_id).is_some());
    assert!(manager.get_session_by_player("player1").is_some());
    assert_eq!(manager.get_active_session_count(), 1);
}

#[test]
fn test_rate_limiting() {
    let mut session = Session::new("player1".to_string(), "127.0.0.1".to_string(), None);

    session.set_rate_limiter_at(5 * MILLI, MILLI, 1000);

    for _ in 0..5 {
        assert!(session.can_perform_action_at(MILLI, 1000));
    }

    assert!(!session.can_perform_action_at(MILLI, 1000));
}

#[test]
fn test_session_expiration() {
    let mut session = Session::new("player1".to_string(), "127.0.0.1".to_string(), None);

    assert!(!session.is_expired(3600));

    session.last_activity = current_timestamp() - 7200;
    assert!(session.is_expired(3600));
}

#[test]
fn test_permissions() {
    let mut session = Session::new("player1".to_string(), "127.0.0.1".to_string(), None);

    assert!(session.can_create_game());
    assert!(!session.is_admin());

    session.promote_to_admin();
    assert!(session.is_admin());
    assert!(session.is_moderator());

    session.ban();
    assert!(!session.can_create_game());
    assert!(!session.can_join_game());
}

#[test]
fn test_ip_session_tracking() {
    let mut manager = SessionManager::new(3600);

    for i in 0..3 {
        let session_id = manager
            .create_session(format!("player{}", i), "127.0.0.1".to_string(), None)
            .unwrap();
        assert!(manager.get_session(&session_id).is_some());
    }

    let sessions = manager.get_sessions_by_ip("127.0.0.1");
    assert_eq!(sessions.len(), 3);
}

#[test]
fn guest_rate_limit_thirty_then_refill() {
    let mut manager = SessionManager::new(3600);
    let guest = Session::create(
        "s1".to_string(),
        "guest_abcdef12".to_string(),
        "10.0.0.1".to_string(),
        None,
        500,
    );
    manager.create_guest_session_at(guest, 500).unwrap();
    let session = manager.get_session_mut("s1").unwrap();
    for _ in 0..30 {
        assert!(session.can_perform_action_at(MILLI, 500));
    }
    assert!(!session.can_perform_action_at(MILLI, 500));
    assert!(!session.can_perform_action_at(MILLI, 501));
    assert!(session.can_perform_action_at(MILLI, 502));
    assert!(!session.can_perform_action_at(MILLI, 502));
}

#[test]
fn cleanup_removes_only_expired() {
    let mut manager = SessionManager::new(100);
    for (i, seen) in [0u64, 950, 10, 990, 20].iter().enumerate() {
        manager
            .create_session_at(format!("p{}", i), "1.2.3.4".to_string(), None, format!("s{}", i), *seen)
            .unwrap();
    }
    assert_eq!(manager.get_active_session_count(), 5);
    let removed = manager.cleanup_expired_sessions_at(1000);
    assert_eq!(removed, 3);
    assert_eq!(manager.get_active_session_count(), 2);
    assert!(manager.get_session("s1").is_some());
    assert!(manager.get_session("s3").is_some());
    assert!(manager.get_session("s0").is_none());
}

#[test]
fn session_reuse_and_ip_caps() {
    let mut manager = SessionManager::new(3600);
    let first = manager
        .create_session_at("alice".to_string(), "5.5.5.5".to_string(), None, "a1".to_string(), 10)
        .unwrap();
    let again = manager
        .create_session_at("alice".to_string(), "5.5.5.5".to_string(), None, "a2".to_string(), 20)
        .unwrap();
    assert_eq!(first, again);
    assert_eq!(manager.get_session("a1").unwrap().last_activity, 20);
    assert_eq!(manager.get_active_session_count(), 1);
    for i in 0..4 {
        manager
            .create_session_at(format!("p{}", i), "5.5.5.5".to_string(), None, format!("x{}", i), 30)
            .unwrap();
    }
    assert!(manager
        .create_session_at("late".to_string(), "5.5.5.5".to_string(), None, "y".to_string(), 30)
        .is_err());
    for i in 0..5 {
        let g = Session::create(format!("g{}", i), format!("guest_{}", i), "5.5.5.5".to_string(), None, 30);
        manager.create_guest_session_at(g, 30).unwrap();
    }
    let extra = Session::create("g9".to_string(), "guest_9".to_string(), "5.5.5.5".to_string(), None, 30);
    assert!(manager.create_guest_session_at(extra, 30).is_err());
    manager.ban_ip("5.5.5.5");
    assert!(!manager.get_session("a1").unwrap().can_join_game());
    assert_eq!(manager.get_authenticated_session_count(), 0);
    manager.authenticate_session("a1", "alice".to_string()).unwrap();
    assert_eq!(manager.get_authenticated_session_count(), 1);
    assert!(manager.authenticate_session("nope", "bob".to_string()).is_err());
    assert!(manager.remove_session("a1").is_some());
    assert!(manager.get_session_by_player("alice").is_none());
    let stats = manager.get_session_statistics();
    assert_eq!(stats.total_sessions, 9);
}

#[test]
fn permission_presets() {
    let guest = SessionPermissions::guest();
    assert!(!guest.can_create_games && !guest.can_chat && guest.can_join_games);
    let banned = SessionPermissions::banned();
    assert!(!banned.can_spectate && !banned.can_join_games);
    let moderator = SessionPermissions::moderator();
    assert!(moderator.is_moderator && !moderator.is_admin);
    let default = SessionPermissions::default();
    assert!(default.can_chat && !default.is_admin);
}

#[test]
fn named_and_total_caps_per_address() {
    let mut manager = SessionManager::new(3600);
    for i in 0..5 {
        manager
            .create_session_at(format!("n{}", i), "8.8.8.8".to_string(), None, format!("s{}", i), 10)
            .unwrap();
    }
    assert!(matches!(
        manager.create_session_at("n9".to_string(), "8.8.8.8".to_string(), None, "s9".to_string(), 10),
        Err(chess_server::ChessServerError::TooManyGames { .. })
    ));
    for i in 0..5 {
        let g = Session::create(format!("g{}", i), format!("guest_{}", i), "8.8.8.8".to_string(), None, 10);
        manager.create_guest_session_at(g, 10).unwrap();
    }
    let g = Session::create("gx".to_string(), "guest_x".to_string(), "8.8.8.8".to_string(), None, 10);
    assert_eq!(
        manager.create_guest_session_at(g, 10),
        Err(chess_server::ChessServerError::ServerOverloaded)
    );
}

#[test]
fn taken_session_id_is_replaced() {
    let mut manager = SessionManager::new(3600);
    let a = manager
        .create_session_at("alice".to_string(), "1.1.1.1".to_string(), None, "same".to_string(), 0)
        .unwrap();
    let b = manager
        .create_session_at("bob".to_string(), "1.1.1.1".to_string(), None, "same".to_string(), 0)
        .unwrap();
    assert_eq!(a, "same");
    assert_ne!(a, b);
    assert_eq!(manager.get_session(&b).unwrap().player_id, "bob");
    manager.update_session_activity(&a).unwrap();
    assert!(manager.update_session_activity("none").is_err());
}
