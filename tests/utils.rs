use chess_server::{
    format_bytes, format_duration, generate_id, generate_short_id, is_valid_port,
    message_size_bytes, sanitize_player_name, truncate_string,
};

#[test]
fn test_format_bytes() {
    assert_eq!(format_bytes(500), "500 B");
    assert_eq!(format_bytes(1024), "1.0 KB");
    assert_eq!(format_bytes(1536), "1.5 KB");
    assert_eq!(format_bytes(1048576), "1.0 MB");
}

#[test]
fn format_bytes_rounds_like_one_decimal() {
    assert_eq!(format_bytes(0), "0 B");
    assert_eq!(format_bytes(1023), "1023 B");
    assert_eq!(format_bytes(1280), "1.2 KB");
    assert_eq!(format_bytes(1075), "1.0 KB");
    assert_eq!(format_bytes(1076), "1.1 KB");
    assert_eq!(format_bytes(3 * 1073741824), "3.0 GB");
}

#[test]
fn test_format_duration() {
    assert_eq!(format_duration(30), "30s");
    assert_eq!(format_duration(60), "1m");
    assert_eq!(format_duration(90), "1m 30s");
    assert_eq!(format_duration(3600), "1h");
    assert_eq!(format_duration(3660), "1h 1m");
    assert_eq!(format_duration(86400), "1d");
    assert_eq!(format_duration(90000), "1d 1h");
}

#[test]
fn test_sanitize_player_name() {
    assert_eq!(sanitize_player_name("  Alice  "), "Alice");
    assert_eq!(sanitize_player_name("Player@123!"), "Player123");
    assert_eq!(sanitize_player_name("Valid_Name-123"), "Valid_Name-123");

    let long_name = "a".repeat(30);
    assert_eq!(sanitize_player_name(&long_name).len(), 20);
}

#[test]
fn test_truncate_string() {
    assert_eq!(truncate_string("hello", 10), "hello");
    assert_eq!(truncate_string("hello world", 5), "he...");
    assert_eq!(truncate_string("hi", 1), "h");
}

#[test]
fn test_generate_ids() {
    let id = generate_id();
    assert_eq!(id.len(), 32);

    let short_id = generate_short_id();
    assert_eq!(short_id.len(), 8);
}

#[test]
fn small_helpers() {
    assert!(is_valid_port(8080));
    assert!(!is_valid_port(0));
    assert_eq!(message_size_bytes("héllo"), 6);
}
