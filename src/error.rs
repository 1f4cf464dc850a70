use vstd::prelude::*;

use crate::text::{decimal, push_decimal};

verus! {

/// The errors of the server, each with a stable four-digit code whose first
/// digit names its family: 1 game, 2 player, 3 transport, 4 protocol,
/// 5 system, 6 validation, 7 rate limit, 8 authorization.
#[derive(Clone, Debug, PartialEq, Eq)]
pub enum ChessServerError {
    GameNotFound { game_id: String },
    InvalidMove { reason: String },
    GmaeFinished,
    NotYourTurn,
    GameFull,
    PlayerNotFound { player_id: String },
    PlayerAlreadyInGame { player_id: String },
    PlayerNotInGame { player_id: String },
    InvalidPlayerName { name: String },
    AuthenticationFailed,
    ConnectionLost,
    InvalidMessage { details: String },
    MessageTooLarge { size: usize },
    ConnectionTimeout,
    ServerOverloaded,
    ProtocolVersionMismatch { expected: String, actual: String },
    UnsupportedMessageType { message_type: String },
    MissingRequiredField { field: String },
    ConfigurationError { details: String },
    DatabaseError { details: String },
    IoError { details: String },
    SerializationError { details: String },
    InternalServerError { details: String },
    InvalidPosition { position: String },
    InvalidFen { fen: String },
    InvalidPgn { details: String },
    RateLimitExceeded { player_id: String },
    TooManyGames { player_id: String },
    InsufficientPermissions,
    ActionNotAllowed,
}

impl ChessServerError {
    /// The wire code of an error.
    pub open spec fn code(self) -> Seq<char> {
        match self {
            ChessServerError::GameNotFound { .. } => "1001"@,
            ChessServerError::InvalidMove { .. } => "1002"@,
            ChessServerError::GmaeFinished => "1003"@,
            ChessServerError::NotYourTurn => "1004"@,
            ChessServerError::GameFull => "1005"@,
            ChessServerError::PlayerNotFound { .. } => "2001"@,
            ChessServerError::PlayerAlreadyInGame { .. } => "2002"@,
            ChessServerError::PlayerNotInGame { .. } => "2003"@,
            ChessServerError::InvalidPlayerName { .. } => "2004"@,
            ChessServerError::AuthenticationFailed => "2005"@,
            ChessServerError::ConnectionLost => "3001"@,
            ChessServerError::InvalidMessage { .. } => "3002"@,
            ChessServerError::MessageTooLarge { .. } => "3003"@,
            ChessServerError::ConnectionTimeout => "3004"@,
            ChessServerError::ServerOverloaded => "3005"@,
            ChessServerError::ProtocolVersionMismatch { .. } => "4001"@,
            ChessServerError::UnsupportedMessageType { .. } => "4002"@,
            ChessServerError::MissingRequiredField { .. } => "4003"@,
            ChessServerError::ConfigurationError { .. } => "5001"@,
            ChessServerError::DatabaseError { .. } => "5002"@,
            ChessServerError::IoError { .. } => "5003"@,
            ChessServerError::SerializationError { .. } => "5004"@,
            ChessServerError::InternalServerError { .. } => "5005"@,
            ChessServerError::InvalidPosition { .. } => "6001"@,
            ChessServerError::InvalidFen { .. } => "6002"@,
            ChessServerError::InvalidPgn { .. } => "6003"@,
            ChessServerError::RateLimitExceeded { .. } => "7001"@,
            ChessServerError::TooManyGames { .. } => "7002"@,
            ChessServerError::InsufficientPermissions => "8001"@,
            ChessServerError::ActionNotAllowed => "8002"@,
        }
    }

    /// The family of an error: the first digit of its code.
    pub open spec fn family(self) -> nat {
        match self {
            ChessServerError::GameNotFound { .. } => 1,
            ChessServerError::InvalidMove { .. } => 1,
            ChessServerError::GmaeFinished => 1,
            ChessServerError::NotYourTurn => 1,
            ChessServerError::GameFull => 1,
            ChessServerError::PlayerNotFound { .. } => 2,
            ChessServerError::PlayerAlreadyInGame { .. } => 2,
            ChessServerError::PlayerNotInGame { .. } => 2,
            ChessServerError::InvalidPlayerName { .. } => 2,
            ChessServerError::AuthenticationFailed => 2,
            ChessServerError::ConnectionLost => 3,
            ChessServerError::InvalidMessage { .. } => 3,
            ChessServerError::MessageTooLarge { .. } => 3,
            ChessServerError::ConnectionTimeout => 3,
            ChessServerError::ServerOverloaded => 3,
            ChessServerError::ProtocolVersionMismatch { .. } => 4,
            ChessServerError::UnsupportedMessageType { .. } => 4,
            ChessServerError::MissingRequiredField { .. } => 4,
            ChessServerError::ConfigurationError { .. } => 5,
            ChessServerError::DatabaseError { .. } => 5,
            ChessServerError::IoError { .. } => 5,
            ChessServerError::SerializationError { .. } => 5,
            ChessServerError::InternalServerError { .. } => 5,
            ChessServerError::InvalidPosition { .. } => 6,
            ChessServerError::InvalidFen { .. } => 6,
            ChessServerError::InvalidPgn { .. } => 6,
            ChessServerError::RateLimitExceeded { .. } => 7,
            ChessServerError::TooManyGames { .. } => 7,
            ChessServerError::InsufficientPermissions => 8,
            ChessServerError::ActionNotAllowed => 8,
        }
    }

    /// The human-readable text of an error.
    pub open spec fn text(self) -> Seq<char> {
        match self {
            ChessServerError::GameNotFound { game_id } => "Game not found: "@ + game_id@,
            ChessServerError::InvalidMove { reason } => "Invalid move: "@ + reason@,
            ChessServerError::GmaeFinished => "Game is already finished"@,
            ChessServerError::NotYourTurn => "Not your turn"@,
            ChessServerError::GameFull => "Game is full"@,
            ChessServerError::PlayerNotFound { player_id } => "Player not found: "@ + player_id@,
            ChessServerError::PlayerAlreadyInGame { player_id } => "Player already in game: "@ + player_id@,
            ChessServerError::PlayerNotInGame { player_id } => "Player not in this game: "@ + player_id@,
            ChessServerError::InvalidPlayerName { name } => "Invalid player name: "@ + name@,
            ChessServerError::AuthenticationFailed => "Player authentication failed"@,
            ChessServerError::ConnectionLost => "Connection lost"@,
            ChessServerError::InvalidMessage { details } => "invalid message format: "@ + details@,
            ChessServerError::MessageTooLarge { size } => "Message too large: "@ + decimal(size as nat) + " bytes"@,
            ChessServerError::ConnectionTimeout => "Connection timeout"@,
            ChessServerError::ServerOverloaded => "Server overloaded"@,
            ChessServerError::ProtocolVersionMismatch { expected, actual } => "Protocol version mismatch: expected "@ + expected@ + ", got "@ + actual@,
            ChessServerError::UnsupportedMessageType { message_type } => "Unsupported message type: "@ + message_type@,
            ChessServerError::MissingRequiredField { field } => "Missing required field: "@ + field@,
            ChessServerError::ConfigurationError { details } => "Configuration error: "@ + details@,
            ChessServerError::DatabaseError { details } => "Database error: "@ + details@,
            ChessServerError::IoError { details } => "IO error: "@ + details@,
            ChessServerError::SerializationError { details } => "Serialization error: "@ + details@,
            ChessServerError::InternalServerError { details } => "Internal server error: "@ + details@,
            ChessServerError::InvalidPosition { position } => "Invalid position: "@ + position@,
            ChessServerError::InvalidFen { fen } => "Invalid FEN string: "@ + fen@,
            ChessServerError::InvalidPgn { details } => "Invalid PGN format: "@ + details@,
            ChessServerError::RateLimitExceeded { player_id } => "Rate limit exceeded for player: "@ + player_id@,
            ChessServerError::TooManyGames { player_id } => "Too many games for player: "@ + player_id@,
            ChessServerError::InsufficientPermissions => "Insufficient permission"@,
            ChessServerError::ActionNotAllowed => "Action not allowed in current game state"@,
        }
    }

    pub open spec fn retryable(self) -> bool {
        match self {
            ChessServerError::ConnectionTimeout | ChessServerError::ServerOverloaded
            | ChessServerError::ConnectionLost | ChessServerError::IoError { .. } => true,
            _ => false,
        }
    }

    pub fn error_code(&self) -> (r: &'static str)
        ensures
            r@ == self.code(),
    {
        match self {
            ChessServerError::GameNotFound { .. } => "1001",
            ChessServerError::InvalidMove { .. } => "1002",
            ChessServerError::GmaeFinished => "1003",
            ChessServerError::NotYourTurn => "1004",
            ChessServerError::GameFull => "1005",
            ChessServerError::PlayerNotFound { .. } => "2001",
            ChessServerError::PlayerAlreadyInGame { .. } => "2002",
            ChessServerError::PlayerNotInGame { .. } => "2003",
            ChessServerError::InvalidPlayerName { .. } => "2004",
            ChessServerError::AuthenticationFailed => "2005",
            ChessServerError::ConnectionLost => "3001",
            ChessServerError::InvalidMessage { .. } => "3002",
            ChessServerError::MessageTooLarge { .. } => "3003",
            ChessServerError::ConnectionTimeout => "3004",
            ChessServerError::ServerOverloaded => "3005",
            ChessServerError::ProtocolVersionMismatch { .. } => "4001",
            ChessServerError::UnsupportedMessageType { .. } => "4002",
            ChessServerError::MissingRequiredField { .. } => "4003",
            ChessServerError::ConfigurationError { .. } => "5001",
            ChessServerError::DatabaseError { .. } => "5002",
            ChessServerError::IoError { .. } => "5003",
            ChessServerError::SerializationError { .. } => "5004",
            ChessServerError::InternalServerError { .. } => "5005",
            ChessServerError::InvalidPosition { .. } => "6001",
            ChessServerError::InvalidFen { .. } => "6002",
            ChessServerError::InvalidPgn { .. } => "6003",
            ChessServerError::RateLimitExceeded { .. } => "7001",
            ChessServerError::TooManyGames { .. } => "7002",
            ChessServerError::InsufficientPermissions => "8001",
            ChessServerError::ActionNotAllowed => "8002",
        }
    }

    fn family_digit(&self) -> (r: u8)
        ensures
            r == self.family(),
    {
        match self {
            ChessServerError::GameNotFound { .. } => 1,
            ChessServerError::InvalidMove { .. } => 1,
            ChessServerError::GmaeFinished => 1,
            ChessServerError::NotYourTurn => 1,
            ChessServerError::GameFull => 1,
            ChessServerError::PlayerNotFound { .. } => 2,
            ChessServerError::PlayerAlreadyInGame { .. } => 2,
            ChessServerError::PlayerNotInGame { .. } => 2,
            ChessServerError::InvalidPlayerName { .. } => 2,
            ChessServerError::AuthenticationFailed => 2,
            ChessServerError::ConnectionLost => 3,
            ChessServerError::InvalidMessage { .. } => 3,
            ChessServerError::MessageTooLarge { .. } => 3,
            ChessServerError::ConnectionTimeout => 3,
            ChessServerError::ServerOverloaded => 3,
            ChessServerError::ProtocolVersionMismatch { .. } => 4,
            ChessServerError::UnsupportedMessageType { .. } => 4,
            ChessServerError::MissingRequiredField { .. } => 4,
            ChessServerError::ConfigurationError { .. } => 5,
            ChessServerError::DatabaseError { .. } => 5,
            ChessServerError::IoError { .. } => 5,
            ChessServerError::SerializationError { .. } => 5,
            ChessServerError::InternalServerError { .. } => 5,
            ChessServerError::InvalidPosition { .. } => 6,
            ChessServerError::InvalidFen { .. } => 6,
            ChessServerError::InvalidPgn { .. } => 6,
            ChessServerError::RateLimitExceeded { .. } => 7,
            ChessServerError::TooManyGames { .. } => 7,
            ChessServerError::InsufficientPermissions => 8,
            ChessServerError::ActionNotAllowed => 8,
        }
    }

    /// Errors the client caused: every family but the system one.
    pub fn is_client_error(&self) -> (r: bool)
        ensures
            r == (self.family() != 5),
    {
        self.family_digit() != 5
    }

    pub fn is_server_error(&self) -> (r: bool)
        ensures
            r == (self.family() == 5),
    {
        self.family_digit() == 5
    }

    /// Errors worth retrying: timeouts, overload, a lost connection, I/O.
    pub fn is_retryable(&self) -> (r: bool)
        ensures
            r == self.retryable(),
    {
        match self {
            ChessServerError::ConnectionTimeout | ChessServerError::ServerOverloaded
            | ChessServerError::ConnectionLost | ChessServerError::IoError { .. } => true,
            _ => false,
        }
    }

    /// The human-readable text of the error.
    pub fn message(&self) -> (r: String)
        ensures
            r@ == self.text(),
    {
        let mut s = String::new();
        match self {
            ChessServerError::GameNotFound { game_id } => {
                s.append("Game not found: ");
                s.append(game_id.as_str());
            },
            ChessServerError::InvalidMove { reason } => {
                s.append("Invalid move: ");
                s.append(reason.as_str());
            },
            ChessServerError::GmaeFinished => s.append("Game is already finished"),
            ChessServerError::NotYourTurn => s.append("Not your turn"),
            ChessServerError::GameFull => s.append("Game is full"),
            ChessServerError::PlayerNotFound { player_id } => {
                s.append("Player not found: ");
                s.append(player_id.as_str());
            },
            ChessServerError::PlayerAlreadyInGame { player_id } => {
                s.append("Player already in game: ");
                s.append(player_id.as_str());
            },
            ChessServerError::PlayerNotInGame { player_id } => {
                s.append("Player not in this game: ");
                s.append(player_id.as_str());
            },
            ChessServerError::InvalidPlayerName { name } => {
                s.append("Invalid player name: ");
                s.append(name.as_str());
            },
            ChessServerError::AuthenticationFailed => s.append("Player authentication failed"),
            ChessServerError::ConnectionLost => s.append("Connection lost"),
            ChessServerError::InvalidMessage { details } => {
                s.append("invalid message format: ");
                s.append(details.as_str());
            },
            ChessServerError::MessageTooLarge { size } => {
                s.append("Message too large: ");
                push_decimal(&mut s, *size as u64);
                s.append(" bytes");
            },
            ChessServerError::ConnectionTimeout => s.append("Connection timeout"),
            ChessServerError::ServerOverloaded => s.append("Server overloaded"),
            ChessServerError::ProtocolVersionMismatch { expected, actual } => {
                s.append("Protocol version mismatch: expected ");
                s.append(expected.as_str());
                s.append(", got ");
                s.append(actual.as_str());
            },
            ChessServerError::UnsupportedMessageType { message_type } => {
                s.append("Unsupported message type: ");
                s.append(message_type.as_str());
            },
            ChessServerError::MissingRequiredField { field } => {
                s.append("Missing required field: ");
                s.append(field.as_str());
            },
            ChessServerError::ConfigurationError { details } => {
                s.append("Configuration error: ");
                s.append(details.as_str());
            },
            ChessServerError::DatabaseError { details } => {
                s.append("Database error: ");
                s.append(details.as_str());
            },
            ChessServerError::IoError { details } => {
                s.append("IO error: ");
                s.append(details.as_str());
            },
            ChessServerError::SerializationError { details } => {
                s.append("Serialization error: ");
                s.append(details.as_str());
            },
            ChessServerError::InternalServerError { details } => {
                s.append("Internal server error: ");
                s.append(details.as_str());
            },
            ChessServerError::InvalidPosition { position } => {
                s.append("Invalid position: ");
                s.append(position.as_str());
            },
            ChessServerError::InvalidFen { fen } => {
                s.append("Invalid FEN string: ");
                s.append(fen.as_str());
            },
            ChessServerError::InvalidPgn { details } => {
                s.append("Invalid PGN format: ");
                s.append(details.as_str());
            },
            ChessServerError::RateLimitExceeded { player_id } => {
                s.append("Rate limit exceeded for player: ");
                s.append(player_id.as_str());
            },
            ChessServerError::TooManyGames { player_id } => {
                s.append("Too many games for player: ");
                s.append(player_id.as_str());
            },
            ChessServerError::InsufficientPermissions => s.append("Insufficient permission"),
            ChessServerError::ActionNotAllowed => s.append("Action not allowed in current game state"),
        }
        s
    }
}

pub type ChessResult<T> = Result<T, ChessServerError>;

} // verus!
