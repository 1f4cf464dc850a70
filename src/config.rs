use vstd::prelude::*;

use crate::error::{ChessResult, ChessServerError};
use crate::text::{decimal, push_char, push_decimal, same_text};

verus! {

#[derive(Clone, Debug)]
pub struct NetworkConfig {
    pub host: String,
    pub port: u16,
    pub max_connections: usize,
    pub connection_timeout_secs: u64,
    pub max_message_size: usize,
    pub heartbeat_interval_secs: u64,
}

#[derive(Clone, Debug)]
pub struct GameConfig {
    pub max_games_per_player: usize,
    pub game_timeout_secs: u64,
    pub move_timeout_secs: u64,
    pub cleanup_interval_secs: u64,
    pub max_concurrent_games: usize,
    pub allow_spectators: bool,
    pub auto_match: bool,
}

#[derive(Clone, Debug)]
pub struct SecurityConfig {
    pub require_authentication: bool,
    pub rate_limit_moves_per_minute: u32,
    pub rate_limit_connections_per_ip: u32,
    pub max_player_name_length: usize,
    pub allowed_chars_in_name: String,
    pub session_timeout_secs: u64,
}

#[derive(Clone, Debug)]
pub struct LoggingConfig {
    pub level: String,
    pub file_path: Option<String>,
    pub log_games: bool,
    pub log_connections: bool,
    pub log_errors: bool,
}

#[derive(Clone, Debug)]
pub struct DatabaseConfig {
    pub url: String,
    pub max_connections: u32,
    pub connection_timeout_secs: u64,
    pub enable_migrations: bool,
}

#[derive(Clone, Debug)]
pub struct ServerConfig {
    pub server: NetworkConfig,
    pub game: GameConfig,
    pub security: SecurityConfig,
    pub logging: LoggingConfig,
    pub database: Option<DatabaseConfig>,
}

pub open spec fn name_chars() -> Seq<char> {
    "abcdefghijklmnopqrstuvwxyzABCDEFGHIJKLMNOPQRSTUVWXYZ0123456789_-"@
}

pub open spec fn known_level(l: Seq<char>) -> bool {
    l == "trace"@ || l == "debug"@ || l == "info"@ || l == "warn"@ || l == "error"@
}

impl NetworkConfig {
    pub open spec fn is_default(self) -> bool {
        &&& self.host@ == "127.0.0.1"@
        &&& self.port == 8080
        &&& self.max_connections == 1000
        &&& self.connection_timeout_secs == 30
        &&& self.max_message_size == 1048576
        &&& self.heartbeat_interval_secs == 30
    }
}

impl GameConfig {
    pub open spec fn is_default(self) -> bool {
        &&& self.max_games_per_player == 5
        &&& self.game_timeout_secs == 3600
        &&& self.move_timeout_secs == 300
        &&& self.cleanup_interval_secs == 300
        &&& self.max_concurrent_games == 10000
        &&& self.allow_spectators
        &&& self.auto_match
    }
}

impl SecurityConfig {
    pub open spec fn is_default(self) -> bool {
        &&& !self.require_authentication
        &&& self.rate_limit_moves_per_minute == 60
        &&& self.rate_limit_connections_per_ip == 10
        &&& self.max_player_name_length == 20
        &&& self.allowed_chars_in_name@ == name_chars()
        &&& self.session_timeout_secs == 86400
    }
}

impl LoggingConfig {
    pub open spec fn is_default(self) -> bool {
        &&& self.level@ == "info"@
        &&& self.file_path is None
        &&& self.log_games
        &&& self.log_connections
        &&& self.log_errors
    }
}

impl Default for NetworkConfig {
    fn default() -> (r: NetworkConfig)
        ensures
            r.is_default(),
    {
        NetworkConfig {
            host: "127.0.0.1".to_string(),
            port: 8080,
            max_connections: 1000,
            connection_timeout_secs: 30,
            max_message_size: 1024 * 1024,
            heartbeat_interval_secs: 30,
        }
    }
}

impl Default for GameConfig {
    fn default() -> (r: GameConfig)
        ensures
            r.is_default(),
    {
        GameConfig {
            max_games_per_player: 5,
            game_timeout_secs: 3600,
            move_timeout_secs: 300,
            cleanup_interval_secs: 300,
            max_concurrent_games: 10000,
            allow_spectators: true,
            auto_match: true,
        }
    }
}

impl Default for SecurityConfig {
    fn default() -> (r: SecurityConfig)
        ensures
            r.is_default(),
    {
        SecurityConfig {
            require_authentication: false,
            rate_limit_moves_per_minute: 60,
            rate_limit_connections_per_ip: 10,
            max_player_name_length: 20,
            allowed_chars_in_name: "abcdefghijklmnopqrstuvwxyzABCDEFGHIJKLMNOPQRSTUVWXYZ0123456789_-".to_string(),
            session_timeout_secs: 86400,
        }
    }
}

impl Default for LoggingConfig {
    fn default() -> (r: LoggingConfig)
        ensures
            r.is_default(),
    {
        LoggingConfig {
            level: "info".to_string(),
            file_path: None,
            log_games: true,
            log_connections: true,
            log_errors: true,
        }
    }
}

impl Default for ServerConfig {
    fn default() -> (r: ServerConfig)
        ensures
            r.server.is_default(),
            r.game.is_default(),
            r.security.is_default(),
            r.logging.is_default(),
            r.database is None,
    {
        ServerConfig {
            server: NetworkConfig::default(),
            game: GameConfig::default(),
            security: SecurityConfig::default(),
            logging: LoggingConfig::default(),
            database: None,
        }
    }
}

fn config_error(details: &str) -> (r: ChessServerError)
    ensures
        r matches ChessServerError::ConfigurationError { details: d } && d@ == details@,
{
    ChessServerError::ConfigurationError { details: details.to_string() }
}

impl ServerConfig {
    /// A usable configuration: a port and a connection limit above zero, a
    /// positive name length, a known log level, and a database URL if a
    /// database is named.
    pub open spec fn valid(self) -> bool {
        &&& self.server.port != 0
        &&& self.server.max_connections != 0
        &&& self.security.max_player_name_length != 0
        &&& known_level(self.logging.level@)
        &&& (self.database matches Some(db) ==> db.url@.len() > 0)
    }

    /// The first rule a configuration breaks, as a configuration error.
    pub fn validate(&self) -> (r: ChessResult<()>)
        ensures
            r is Ok <==> self.valid(),
            r matches Err(e) ==> e is ConfigurationError,
    {
        if self.server.port == 0 {
            return Err(config_error("Server port cannot be 0"));
        }
        if self.server.max_connections == 0 {
            return Err(config_error("Max connections must be greater than 0"));
        }
        if self.security.max_player_name_length == 0 {
            return Err(config_error("Max player name length must be greater than 0"));
        }
        let level = self.logging.level.as_str();
        if !(same_text(level, "trace") || same_text(level, "debug") || same_text(level, "info")
            || same_text(level, "warn") || same_text(level, "error")) {
            let mut details = String::new();
            details.append("Invalid log level '");
            details.append(level);
            details.append("'. Must be one of: trace, debug, info, warn, error");
            return Err(ChessServerError::ConfigurationError { details });
        }
        match &self.database {
            Some(db) => {
                if db.url.as_str().unicode_len() == 0 {
                    return Err(config_error("Database URL cannot be empty"));
                }
            },
            None => {},
        }
        Ok(())
    }

    /// Defaults for working on the server: open to all hosts, debug logging.
    pub fn development() -> (r: ServerConfig)
        ensures
            r.server.host@ == "0.0.0.0"@,
            r.server.port == 8080,
            r.logging.level@ == "debug"@,
            !r.security.require_authentication,
            r.game.auto_match,
            r.database is None,
    {
        let mut config = ServerConfig::default();
        config.server.host = "0.0.0.0".to_string();
        config.server.port = 8080;
        config.logging.level = "debug".to_string();
        config.security.require_authentication = false;
        config.game.auto_match = true;
        config
    }

    /// Defaults for serving players: port 80, warnings only, authentication.
    pub fn production() -> (r: ServerConfig)
        ensures
            r.server.host@ == "0.0.0.0"@,
            r.server.port == 80,
            r.logging.level@ == "warn"@,
            r.logging.file_path matches Some(p) && p@ == "/var/log/chess-server.log"@,
            r.security.require_authentication,
            r.security.rate_limit_moves_per_minute == 30,
            r.game.game_timeout_secs == 7200,
            r.database is None,
    {
        let mut config = ServerConfig::default();
        config.server.host = "0.0.0.0".to_string();
        config.server.port = 80;
        config.logging.level = "warn".to_string();
        config.logging.file_path = Some("/var/log/chess-server.log".to_string());
        config.security.require_authentication = true;
        config.security.rate_limit_moves_per_minute = 30;
        config.game.game_timeout_secs = 7200;
        config
    }

    /// Defaults for tests: any free port, errors only, one game per player.
    pub fn test() -> (r: ServerConfig)
        ensures
            r.server.host@ == "127.0.0.1"@,
            r.server.port == 0,
            r.logging.level@ == "error"@,
            !r.security.require_authentication,
            r.game.max_games_per_player == 1,
            r.game.game_timeout_secs == 60,
            r.database is None,
    {
        let mut config = ServerConfig::default();
        config.server.host = "127.0.0.1".to_string();
        config.server.port = 0;
        config.logging.level = "error".to_string();
        config.security.require_authentication = false;
        config.game.max_games_per_player = 1;
        config.game.game_timeout_secs = 60;
        config
    }

    /// `host:port`.
    pub fn server_address(&self) -> (r: String)
        ensures
            r@ == self.server.host@ + seq![':'] + decimal(self.server.port as nat),
    {
        let mut s = String::new();
        s.append(self.server.host.as_str());
        push_char(&mut s, ':');
        push_decimal(&mut s, self.server.port as u64);
        assert(s@ =~= self.server.host@ + seq![':'] + decimal(self.server.port as nat));
        s
    }

    /// A name is acceptable when it is not empty, its UTF-8 length is within
    /// the limit, and every character is an allowed one.
    pub fn is_valid_player_name(&self, name: &str) -> (r: bool)
        ensures
            r == (name@.len() > 0 && name.len() <= self.security.max_player_name_length
                && forall|i: int|
                0 <= i < name@.len() ==> self.security.allowed_chars_in_name@.contains(
                    #[trigger] name@[i],
                )),
    {
        let n = name.unicode_len();
        if n == 0 || name.len() > self.security.max_player_name_length {
            return false;
        }
        let allowed = self.security.allowed_chars_in_name.as_str();
        let mut i: usize = 0;
        while i < n
            invariant
                n == name@.len(),
                allowed@ == self.security.allowed_chars_in_name@,
                i <= n,
                forall|j: int| 0 <= j < i ==> allowed@.contains(#[trigger] name@[j]),
            decreases n - i,
        {
            if !contains_char(allowed, name.get_char(i)) {
                assert(!self.security.allowed_chars_in_name@.contains(name@[i as int]));
                return false;
            }
            i = i + 1;
        }
        true
    }
}

/// Whether a string holds a character.
pub fn contains_char(s: &str, c: char) -> (r: bool)
    ensures
        r == s@.contains(c),
{
    let n = s.unicode_len();
    let mut i: usize = 0;
    while i < n
        invariant
            n == s@.len(),
            i <= n,
            forall|j: int| 0 <= j < i ==> s@[j] != c,
        decreases n - i,
    {
        if s.get_char(i) == c {
            return true;
        }
        i = i + 1;
    }
    false
}

} // verus!
