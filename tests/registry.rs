use chess_server::{
    check_admission, Admission, Session, check_envelope, check_size, check_version, page_bounds, ChessServerError, ClientRecord,
    ClientManager, ClientState, MessageKind, MAX_MESSAGE_SIZE,
};

fn record(id: &str, state: ClientState) -> ClientRecord {
    ClientRecord {
        id: id.to_string(),
        session_id: None,
        player_id: None,
        state,
        connected_at: 100,
        last_activity: 100,
        bytes_sent: 10,
        bytes_received: 20,
        messages_sent: 1,
        messages_received: 2,
    }
}

#[test]
fn registry_three_lookups() {
    let mut reg = ClientManager::new();
    reg.add_client(record("c1", ClientState::Connected));
    reg.add_client(record("c2", ClientState::Connected));
    reg.associate_player("c1", "alice".to_string()).unwrap();
    reg.associate_session("c1", "s1".to_string()).unwrap();
    assert!(matches!(
        reg.associate_player("zz", "bob".to_string()),
        Err(ChessServerError::PlayerNotFound { .. })
    ));
    assert_eq!(reg.get_client_by_player("alice").unwrap().id, "c1");
    assert_eq!(reg.get_client_by_session("s1").unwrap().id, "c1");
    let removed = reg.remove_client("c1").unwrap();
    assert_eq!(removed.id, "c1");
    assert!(reg.get_client("c1").is_none());
    assert!(reg.get_client_by_player("alice").is_none());
    assert!(reg.get_client_by_session("s1").is_none());
    assert_eq!(reg.get_client_count(), 1);
}

#[test]
fn broadcast_reaches_every_client() {
    let mut reg = ClientManager::new();
    for (i, st) in [ClientState::Connected, ClientState::Authenticated, ClientState::InGame]
        .iter()
        .enumerate()
    {
        reg.add_client(record(&format!("c{}", i), *st));
    }
    assert_eq!(reg.broadcast_targets(), vec!["c0", "c1", "c2"]);
    assert_eq!(reg.authenticated_targets(), vec!["c1", "c2"]);
    reg.mark_send_failed("c2").unwrap();
    assert_eq!(reg.get_client("c2").unwrap().state, ClientState::Disconnecting);
    assert_eq!(reg.broadcast_targets().len(), 3);
    reg.set_state("c0", ClientState::Disconnected).unwrap();
    assert_eq!(reg.get_clients_by_state(ClientState::Disconnected), vec!["c0"]);
    assert_eq!(reg.cleanup_disconnected_clinets(), 1);
    assert_eq!(reg.get_client_count(), 2);
    let stats = reg.get_client_statistics(160);
    assert_eq!(stats.total_clients, 2);
    assert_eq!(stats.total_bytes_sent, 20);
    assert_eq!(stats.average_session_duration, 60);
}

#[test]
fn envelope_checks() {
    assert!(check_size(MAX_MESSAGE_SIZE).is_ok());
    assert_eq!(
        check_size(MAX_MESSAGE_SIZE + 1),
        Err(ChessServerError::MessageTooLarge { size: MAX_MESSAGE_SIZE + 1 })
    );
    assert!(check_version("1.0").is_ok());
    assert_eq!(
        check_version("2.0"),
        Err(ChessServerError::ProtocolVersionMismatch {
            expected: "1.0".to_string(),
            actual: "2.0".to_string()
        })
    );
    assert!(matches!(
        check_envelope(MAX_MESSAGE_SIZE + 5, "2.0"),
        Err(ChessServerError::MessageTooLarge { .. })
    ));
    assert!(check_envelope(10, "1.0").is_ok());
}

#[test]
fn message_kinds() {
    assert!(MessageKind::MakeMove.is_request());
    assert!(!MessageKind::MakeMove.is_response());
    assert!(MessageKind::Error.is_response());
    assert!(MessageKind::GameUpdate.is_notification());
    assert!(!MessageKind::Ping.is_request());
    assert_eq!(MessageKind::GetLegalMovesResponse.tag_name(), "GetLegalMovesResponse");
}

#[test]
fn pages() {
    assert_eq!(page_bounds(120, None, None), (0, 50));
    assert_eq!(page_bounds(120, Some(100), None), (100, 120));
    assert_eq!(page_bounds(120, Some(500), Some(10)), (120, 120));
    assert_eq!(page_bounds(120, Some(5), Some(10)), (5, 15));
}

#[test]
fn admission_rules() {
    assert!(check_admission(MessageKind::Ping, None).is_ok());
    assert_eq!(check_admission(MessageKind::CreateGame, None), Err(ChessServerError::AuthenticationFailed));
    let guest = Session::guest("1.1.1.1".to_string(), None);
    assert_eq!(
        check_admission(MessageKind::CreateGame, Some(&guest)),
        Err(ChessServerError::InsufficientPermissions)
    );
    assert!(check_admission(MessageKind::JoinGame, Some(&guest)).is_ok());
    assert!(check_admission(MessageKind::SendMessage, Some(&guest)).is_err());
    assert!(matches!(
        check_admission(MessageKind::RequestUndo, Some(&guest)),
        Err(ChessServerError::UnsupportedMessageType { .. })
    ));
    assert_eq!(MessageKind::MakeMove.admission(), Admission::Player);
}

#[test]
fn server_counters() {
    let mut stats = chess_server::ServerStatistics::started_at(1000);
    stats.record_connection(3);
    stats.record_connection(2);
    stats.record_message();
    stats.record_game_created();
    stats.record_move();
    stats.refresh_uptime(1090);
    assert_eq!(stats.total_connections, 2);
    assert_eq!(stats.peak_concurrent_connections, 3);
    assert_eq!(stats.total_messages_processed, 1);
    assert_eq!(stats.total_games_created, 1);
    assert_eq!(stats.total_moves_player, 1);
    assert_eq!(stats.uptime_seconds, 90);
}

#[test]
fn traffic_counters() {
    let mut reg = ClientManager::new();
    reg.add_client(record("c1", ClientState::Connected));
    reg.record_received("c1", 40, 150).unwrap();
    reg.record_sent("c1", 60, 160).unwrap();
    let c = reg.get_client("c1").unwrap();
    assert_eq!((c.bytes_received, c.messages_received), (60, 3));
    assert_eq!((c.bytes_sent, c.messages_sent), (70, 2));
    assert_eq!(c.last_activity, 160);
    assert!(reg.record_sent("zz", 1, 1).is_err());
    reg.add_client(record("c1", ClientState::Authenticated));
    assert_eq!(reg.get_client_count(), 1);
    assert_eq!(reg.get_client("c1").unwrap().state, ClientState::Authenticated);
}
