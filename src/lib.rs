pub mod board;
pub mod config;
pub mod error;
pub mod game_state;
pub mod piece;
pub mod player;
pub mod protocol;
pub mod registry;
pub mod rules;
pub mod session;
pub mod text;
pub mod utils;

pub use board::{Board, CastlingRights};
pub use config::{
    DatabaseConfig, GameConfig, LoggingConfig, NetworkConfig, SecurityConfig, ServerConfig,
};
pub use error::{ChessResult, ChessServerError};
pub use game_state::{
    DrawReason, GameInfo, GameListFilter, GameManager, GameResult, GameState, GameStatus,
};
pub use piece::{Color, Move, Piece, PieceType, Position};
pub use player::{
    ConnectionInfo, DetailedPlayerStats, Player, PlayerDetails, PlayerManager, PlayerSearchCriteria,
    PlayerStats, PlayerStatus, RatingDistribution, SessionInfo,
};
pub use protocol::{
    check_admission, check_envelope, check_size, check_version, page_bounds, Admission, MessageKind,
    MAX_MESSAGE_SIZE, PROTOCOL_VERSION,
};
pub use registry::{
    ClientManager, ClientRecord, ClientState, ClientStatistics, ServerStatistics,
};
pub use rules::MoveValidator;
pub use session::{
    RateLimiterState, Session, SessionManager, SessionPermissions, SessionStatistics, MILLI,
};
pub use utils::{
    current_timestamp, format_bytes, format_duration, generate_id,
    generate_short_id, is_valid_port, message_size_bytes, sanitize_player_name,
    sanitize_trimmed, truncate_string, Statistics,
};
