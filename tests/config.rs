use chess_server::{ChessServerError, ServerConfig};

#[test]
fn test_default_config() {
    let config = ServerConfig::default();
    assert_eq!(config.server.host, "127.0.0.1");
    assert_eq!(config.server.port, 8080);
    assert!(config.validate().is_ok());
}

#[test]
fn test_config_validation() {
    let mut config = ServerConfig::default();
    config.server.port = 0;
    assert!(config.validate().is_err());
}

#[test]
fn test_player_name_validation() {
    let config = ServerConfig::default();
    assert!(config.is_valid_player_name("Alice"));
    assert!(config.is_valid_player_name("Player_123"));
    assert!(!config.is_valid_player_name(""));
    assert!(!config.is_valid_player_name("Player@Invalid"));

    let long_name = "a".repeat(config.security.max_player_name_length + 1);
    assert!(!config.is_valid_player_name(&long_name));
}

#[test]
fn test_preset_configs() {
    let dev_config = ServerConfig::development();
    assert_eq!(dev_config.logging.level, "debug");
    assert!(!dev_config.security.require_authentication);

    let prod_config = ServerConfig::production();
    assert_eq!(prod_config.logging.level, "warn");
    assert!(prod_config.security.require_authentication);

    let test_config = ServerConfig::test();
    assert_eq!(test_config.server.port, 0);
    assert_eq!(test_config.game.max_games_per_player, 1);
}

#[test]
fn validation_reports_each_rule() {
    let mut config = ServerConfig::default();
    config.logging.level = "loud".to_string();
    match config.validate() {
        Err(ChessServerError::ConfigurationError { details }) => {
            assert!(details.contains("loud"));
        }
        other => panic!("unexpected {:?}", other),
    }
    let mut config = ServerConfig::default();
    config.server.max_connections = 0;
    assert!(config.validate().is_err());
    let mut config = ServerConfig::default();
    config.security.max_player_name_length = 0;
    assert!(config.validate().is_err());
    assert_eq!(ServerConfig::default().server_address(), "127.0.0.1:8080");
}

#[test]
fn error_codes_and_families() {
    let e = ChessServerError::GameNotFound { game_id: "g1".to_string() };
    assert_eq!(e.error_code(), "1001");
    assert!(e.is_client_error());
    assert!(!e.is_server_error());
    assert_eq!(e.message(), "Game not found: g1");
    let io = ChessServerError::IoError { details: "disk".to_string() };
    assert_eq!(io.error_code(), "5003");
    assert!(io.is_server_error());
    assert!(io.is_retryable());
    assert!(!ChessServerError::NotYourTurn.is_retryable());
    assert_eq!(ChessServerError::PlayerNotInGame { player_id: "p".to_string() }.error_code(), "2003");
    assert_eq!(
        ChessServerError::MessageTooLarge { size: 2048 }.message(),
        "Message too large: 2048 bytes"
    );
    assert_eq!(ChessServerError::ActionNotAllowed.error_code(), "8002");
}
