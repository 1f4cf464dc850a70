use vstd::prelude::*;

use crate::error::{ChessResult, ChessServerError};
use crate::session::Session;
use crate::text::same_text;

verus! {

/// The protocol version every message must carry.
pub const PROTOCOL_VERSION: &'static str = "1.0";

/// The largest encoded message accepted, in bytes: 1 MiB.
pub const MAX_MESSAGE_SIZE: usize = 1048576;

/// The page size of a game list when none is asked for.
pub const DEFAULT_PAGE_SIZE: u32 = 50;

/// The tag of a message, as the `type` field of the wire envelope names it.
#[derive(Clone, Copy, Debug, PartialEq, Eq, Structural)]
pub enum MessageKind {
    Connect,
    ConnectResponse,
    Authenticate,
    AuthenticateResponse,
    Disconnect,
    CreateGame,
    CreateGameResponse,
    JoinGame,
    JoinGameResponse,
    LeaveGame,
    SpectateGame,
    MakeMove,
    GameUpdate,
    MoveUpdate,
    OfferDraw,
    RespondToDraw,
    Resign,
    RequestUndo,
    RespondToUndo,
    GetPlayerInfo,
    GetPlayerInfoResponse,
    UpdatePreferences,
    GetOnlinePlayers,
    GetOnlinePlayersResponse,
    GetGameList,
    GetGameListResponse,
    GetGameInfo,
    GetGameInfoResponse,
    GetLegalMoves,
    GetLegalMovesResponse,
    SendMessage,
    ChatMessage,
    Ping,
    Pong,
    Heartbeat,
    Error,
    Success,
}

impl MessageKind {
    /// Requests a client sends and the server answers.
    pub open spec fn request_spec(self) -> bool {
        match self {
            MessageKind::Connect
            | MessageKind::Authenticate
            | MessageKind::CreateGame
            | MessageKind::JoinGame
            | MessageKind::MakeMove
            | MessageKind::GetPlayerInfo
            | MessageKind::GetGameList
            | MessageKind::GetGameInfo
            | MessageKind::GetLegalMoves
            | MessageKind::GetOnlinePlayers
            | MessageKind::SendMessage
            | MessageKind::OfferDraw
            | MessageKind::Resign => true,
            _ => false,
        }
    }

    /// Answers of the server to a request.
    pub open spec fn response_spec(self) -> bool {
        match self {
            MessageKind::ConnectResponse
            | MessageKind::AuthenticateResponse
            | MessageKind::CreateGameResponse
            | MessageKind::JoinGameResponse
            | MessageKind::GetPlayerInfoResponse
            | MessageKind::GetGameListResponse
            | MessageKind::GetGameInfoResponse
            | MessageKind::GetLegalMovesResponse
            | MessageKind::GetOnlinePlayersResponse
            | MessageKind::Success
            | MessageKind::Error => true,
            _ => false,
        }
    }

    /// Messages the server sends unasked.
    pub open spec fn notification_spec(self) -> bool {
        match self {
            MessageKind::GameUpdate
            | MessageKind::MoveUpdate
            | MessageKind::ChatMessage
            | MessageKind::Heartbeat => true,
            _ => false,
        }
    }

    pub fn is_request(&self) -> (r: bool)
        ensures
            r == self.request_spec(),
    {
        match self {
            MessageKind::Connect
            | MessageKind::Authenticate
            | MessageKind::CreateGame
            | MessageKind::JoinGame
            | MessageKind::MakeMove
            | MessageKind::GetPlayerInfo
            | MessageKind::GetGameList
            | MessageKind::GetGameInfo
            | MessageKind::GetLegalMoves
            | MessageKind::GetOnlinePlayers
            | MessageKind::SendMessage
            | MessageKind::OfferDraw
            | MessageKind::Resign => true,
            _ => false,
        }
    }

    pub fn is_response(&self) -> (r: bool)
        ensures
            r == self.response_spec(),
    {
        match self {
            MessageKind::ConnectResponse
            | MessageKind::AuthenticateResponse
            | MessageKind::CreateGameResponse
            | MessageKind::JoinGameResponse
            | MessageKind::GetPlayerInfoResponse
            | MessageKind::GetGameListResponse
            | MessageKind::GetGameInfoResponse
            | MessageKind::GetLegalMovesResponse
            | MessageKind::GetOnlinePlayersResponse
            | MessageKind::Success
            | MessageKind::Error => true,
            _ => false,
        }
    }

    pub fn is_notification(&self) -> (r: bool)
        ensures
            r == self.notification_spec(),
    {
        match self {
            MessageKind::GameUpdate
            | MessageKind::MoveUpdate
            | MessageKind::ChatMessage
            | MessageKind::Heartbeat => true,
            _ => false,
        }
    }

    /// The tag's name on the wire.
    pub open spec fn name_spec(self) -> Seq<char> {
        match self {
            MessageKind::Connect => "Connect"@,
            MessageKind::ConnectResponse => "ConnectResponse"@,
            MessageKind::Authenticate => "Authenticate"@,
            MessageKind::AuthenticateResponse => "AuthenticateResponse"@,
            MessageKind::Disconnect => "Disconnect"@,
            MessageKind::CreateGame => "CreateGame"@,
            MessageKind::CreateGameResponse => "CreateGameResponse"@,
            MessageKind::JoinGame => "JoinGame"@,
            MessageKind::JoinGameResponse => "JoinGameResponse"@,
            MessageKind::LeaveGame => "LeaveGame"@,
            MessageKind::SpectateGame => "SpectateGame"@,
            MessageKind::MakeMove => "MakeMove"@,
            MessageKind::GameUpdate => "GameUpdate"@,
            MessageKind::MoveUpdate => "MoveUpdate"@,
            MessageKind::OfferDraw => "OfferDraw"@,
            MessageKind::RespondToDraw => "RespondToDraw"@,
            MessageKind::Resign => "Resign"@,
            MessageKind::RequestUndo => "RequestUndo"@,
            MessageKind::RespondToUndo => "RespondToUndo"@,
            MessageKind::GetPlayerInfo => "GetPlayerInfo"@,
            MessageKind::GetPlayerInfoResponse => "GetPlayerInfoResponse"@,
            MessageKind::UpdatePreferences => "UpdatePreferences"@,
            MessageKind::GetOnlinePlayers => "GetOnlinePlayers"@,
            MessageKind::GetOnlinePlayersResponse => "GetOnlinePlayersResponse"@,
            MessageKind::GetGameList => "GetGameList"@,
            MessageKind::GetGameListResponse => "GetGameListResponse"@,
            MessageKind::GetGameInfo => "GetGameInfo"@,
            MessageKind::GetGameInfoResponse => "GetGameInfoResponse"@,
            MessageKind::GetLegalMoves => "GetLegalMoves"@,
            MessageKind::GetLegalMovesResponse => "GetLegalMovesResponse"@,
            MessageKind::SendMessage => "SendMessage"@,
            MessageKind::ChatMessage => "ChatMessage"@,
            MessageKind::Ping => "Ping"@,
            MessageKind::Pong => "Pong"@,
            MessageKind::Heartbeat => "Heartbeat"@,
            MessageKind::Error => "Error"@,
            MessageKind::Success => "Success"@,
        }
    }

    pub fn tag_name(&self) -> (r: &'static str)
        ensures
            r@ == self.name_spec(),
    {
        match self {
            MessageKind::Connect => "Connect",
            MessageKind::ConnectResponse => "ConnectResponse",
            MessageKind::Authenticate => "Authenticate",
            MessageKind::AuthenticateResponse => "AuthenticateResponse",
            MessageKind::Disconnect => "Disconnect",
            MessageKind::CreateGame => "CreateGame",
            MessageKind::CreateGameResponse => "CreateGameResponse",
            MessageKind::JoinGame => "JoinGame",
            MessageKind::JoinGameResponse => "JoinGameResponse",
            MessageKind::LeaveGame => "LeaveGame",
            MessageKind::SpectateGame => "SpectateGame",
            MessageKind::MakeMove => "MakeMove",
            MessageKind::GameUpdate => "GameUpdate",
            MessageKind::MoveUpdate => "MoveUpdate",
            MessageKind::OfferDraw => "OfferDraw",
            MessageKind::RespondToDraw => "RespondToDraw",
            MessageKind::Resign => "Resign",
            MessageKind::RequestUndo => "RequestUndo",
            MessageKind::RespondToUndo => "RespondToUndo",
            MessageKind::GetPlayerInfo => "GetPlayerInfo",
            MessageKind::GetPlayerInfoResponse => "GetPlayerInfoResponse",
            MessageKind::UpdatePreferences => "UpdatePreferences",
            MessageKind::GetOnlinePlayers => "GetOnlinePlayers",
            MessageKind::GetOnlinePlayersResponse => "GetOnlinePlayersResponse",
            MessageKind::GetGameList => "GetGameList",
            MessageKind::GetGameListResponse => "GetGameListResponse",
            MessageKind::GetGameInfo => "GetGameInfo",
            MessageKind::GetGameInfoResponse => "GetGameInfoResponse",
            MessageKind::GetLegalMoves => "GetLegalMoves",
            MessageKind::GetLegalMovesResponse => "GetLegalMovesResponse",
            MessageKind::SendMessage => "SendMessage",
            MessageKind::ChatMessage => "ChatMessage",
            MessageKind::Ping => "Ping",
            MessageKind::Pong => "Pong",
            MessageKind::Heartbeat => "Heartbeat",
            MessageKind::Error => "Error",
            MessageKind::Success => "Success",
        }
    }
}

/// An encoded message of `size` bytes fits the limit.
pub fn check_size(size: usize) -> (r: ChessResult<()>)
    ensures
        size <= MAX_MESSAGE_SIZE ==> r is Ok,
        size > MAX_MESSAGE_SIZE ==> r == Err::<(), ChessServerError>(
            ChessServerError::MessageTooLarge { size },
        ),
{
    if size > MAX_MESSAGE_SIZE {
        Err(ChessServerError::MessageTooLarge { size })
    } else {
        Ok(())
    }
}

/// A message carries the protocol version.
pub fn check_version(version: &str) -> (r: ChessResult<()>)
    ensures
        r is Ok <==> version@ == PROTOCOL_VERSION@,
        r matches Err(e) ==> (e matches ChessServerError::ProtocolVersionMismatch { expected, actual }
            && expected@ == PROTOCOL_VERSION@ && actual@ == version@),
{
    if same_text(version, PROTOCOL_VERSION) {
        Ok(())
    } else {
        Err(
            ChessServerError::ProtocolVersionMismatch {
                expected: PROTOCOL_VERSION.to_string(),
                actual: version.to_string(),
            },
        )
    }
}

/// The checks a decoded envelope must pass, in order: its encoded size, then
/// its version.
pub fn check_envelope(size: usize, version: &str) -> (r: ChessResult<()>)
    ensures
        size > MAX_MESSAGE_SIZE ==> r == Err::<(), ChessServerError>(
            ChessServerError::MessageTooLarge { size },
        ),
        size <= MAX_MESSAGE_SIZE ==> (r is Ok <==> version@ == PROTOCOL_VERSION@),
{
    match check_size(size) {
        Ok(()) => check_version(version),
        Err(e) => Err(e),
    }
}

/// The slice of a list of `total` items that a page shows: from `offset`
/// (default 0), at most `limit` items (default 50).
pub fn page_bounds(total: usize, offset: Option<u32>, limit: Option<u32>) -> (r: (usize, usize))
    ensures
        r.0 <= r.1,
        r.1 <= total,
        r.0 as int == if offset.unwrap_or(0) as int <= total as int {
            offset.unwrap_or(0) as int
        } else {
            total as int
        },
        r.1 as int == if r.0 as int + limit.unwrap_or(DEFAULT_PAGE_SIZE) as int <= total as int {
            r.0 as int + limit.unwrap_or(DEFAULT_PAGE_SIZE) as int
        } else {
            total as int
        },
{
    let off: u32 = match offset {
        Some(o) => o,
        None => 0,
    };
    let lim: u32 = match limit {
        Some(l) => l,
        None => DEFAULT_PAGE_SIZE,
    };
    let start: usize = if (off as u64) <= (total as u64) {
        off as usize
    } else {
        total
    };
    let end: usize = if (start as u64) + (lim as u64) <= (total as u64) {
        start + lim as usize
    } else {
        total
    };
    (start, end)
}

/// What a request needs of the connection's session before it is handled.
#[derive(Clone, Copy, Debug, PartialEq, Eq, Structural)]
pub enum Admission {
    /// Anyone may send it.
    Open,
    /// A session from an earlier `Connect`.
    Connected,
    /// A session allowed to create games.
    CreateGames,
    /// A session allowed to join games.
    JoinGames,
    /// A session bound to a player.
    Player,
    /// A session allowed to chat.
    Chat,
    /// Not handled by the server.
    Unsupported,
}

impl MessageKind {
    pub open spec fn admission_spec(self) -> Admission {
        match self {
            MessageKind::Connect | MessageKind::Ping | MessageKind::GetGameList
            | MessageKind::GetGameInfo => Admission::Open,
            MessageKind::Authenticate | MessageKind::GetPlayerInfo | MessageKind::GetOnlinePlayers
            | MessageKind::UpdatePreferences | MessageKind::LeaveGame
            | MessageKind::SpectateGame | MessageKind::Disconnect => Admission::Connected,
            MessageKind::CreateGame => Admission::CreateGames,
            MessageKind::JoinGame => Admission::JoinGames,
            MessageKind::MakeMove | MessageKind::OfferDraw | MessageKind::RespondToDraw
            | MessageKind::Resign | MessageKind::GetLegalMoves => Admission::Player,
            MessageKind::SendMessage => Admission::Chat,
            _ => Admission::Unsupported,
        }
    }

    /// What the server asks of a session before handling this kind.
    pub fn admission(&self) -> (r: Admission)
        ensures
            r == self.admission_spec(),
    {
        match self {
            MessageKind::Connect | MessageKind::Ping | MessageKind::GetGameList
            | MessageKind::GetGameInfo => Admission::Open,
            MessageKind::Authenticate | MessageKind::GetPlayerInfo | MessageKind::GetOnlinePlayers
            | MessageKind::UpdatePreferences | MessageKind::LeaveGame
            | MessageKind::SpectateGame | MessageKind::Disconnect => Admission::Connected,
            MessageKind::CreateGame => Admission::CreateGames,
            MessageKind::JoinGame => Admission::JoinGames,
            MessageKind::MakeMove | MessageKind::OfferDraw | MessageKind::RespondToDraw
            | MessageKind::Resign | MessageKind::GetLegalMoves => Admission::Player,
            MessageKind::SendMessage => Admission::Chat,
            _ => Admission::Unsupported,
        }
    }
}

/// Whether a session meets what a message kind needs.
pub open spec fn admitted(kind: MessageKind, session: Option<Session>) -> bool {
    match kind.admission_spec() {
        Admission::Open => true,
        Admission::Connected => session is Some,
        Admission::CreateGames => session matches Some(s) && s.permissions.can_create_games,
        Admission::JoinGames => session matches Some(s) && s.permissions.can_join_games,
        Admission::Player => session is Some,
        Admission::Chat => session matches Some(s) && s.permissions.can_chat,
        Admission::Unsupported => false,
    }
}

/// Decides whether a request may be handled for a connection whose session
/// is `session`: unsupported kinds are refused as such, a missing session
/// fails authentication, a missing right is a permission error.
pub fn check_admission(kind: MessageKind, session: Option<&Session>) -> (r: ChessResult<()>)
    ensures
        r is Ok <==> admitted(kind, match session {
            Some(s) => Some(*s),
            None => None,
        }),
        kind.admission_spec() == Admission::Unsupported ==> (r matches Err(
            ChessServerError::UnsupportedMessageType { .. },
        )),
        kind.admission_spec() != Admission::Unsupported && kind.admission_spec() != Admission::Open
            && session is None ==> r == Err::<(), ChessServerError>(
            ChessServerError::AuthenticationFailed,
        ),
{
    match kind.admission() {
        Admission::Open => Ok(()),
        Admission::Unsupported => Err(
            ChessServerError::UnsupportedMessageType { message_type: kind.tag_name().to_string() },
        ),
        need => match session {
            None => Err(ChessServerError::AuthenticationFailed),
            Some(s) => {
                let allowed = match need {
                    Admission::CreateGames => s.can_create_game(),
                    Admission::JoinGames => s.can_join_game(),
                    Admission::Chat => s.can_chat(),
                    _ => true,
                };
                if allowed {
                    Ok(())
                } else {
                    Err(ChessServerError::InsufficientPermissions)
                }
            },
        },
    }
}

} // verus!
