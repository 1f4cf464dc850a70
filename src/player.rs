use vstd::prelude::*;

use crate::error::{ChessResult, ChessServerError};
use crate::session::{
    expired_count, ids_unique, ip_count, live, named_count, session_created, SessionManager,
};
use crate::text::{extend_past, same_text};
use crate::utils::{clean_name, current_timestamp, generate_id, sanitize_player_name};

verus! {

#[derive(Clone, Copy, Debug, PartialEq, Eq, Structural)]
pub enum PlayerStatus {
    Online,
    Away,
    InGame,
    Offline,
}

/// A player's record of games and rating. Time spent is kept as a total, in
/// seconds, so that averages are taken where they are shown.
#[derive(Clone, Copy, Debug, PartialEq, Eq, Structural)]
pub struct PlayerStats {
    pub games_played: u32,
    pub games_won: u32,
    pub games_lost: u32,
    pub games_drawn: u32,
    pub total_moves: u32,
    pub total_game_secs: u64,
    pub longest_game_moves: u32,
    pub shortest_game_moves: u32,
    pub rating: u32,
    pub peak_rating: u32,
    pub rating_games: u32,
}

pub open spec fn bump(x: u32) -> u32 {
    if x < u32::MAX {
        (x + 1) as u32
    } else {
        x
    }
}

fn bump_u32(x: u32) -> (r: u32)
    ensures
        r == bump(x),
{
    if x < u32::MAX {
        x + 1
    } else {
        x
    }
}

/// The stats after one more finished game: one outcome counter goes up (won
/// before lost before drawn), moves and time are added, the longest and
/// shortest game lengths follow. Counters stop at their largest value.
pub open spec fn stats_after(s: PlayerStats, won: bool, lost: bool, drawn: bool, moves: u32, duration_secs: u64) -> PlayerStats {
    PlayerStats {
        games_played: bump(s.games_played),
        games_won: if won { bump(s.games_won) } else { s.games_won },
        games_lost: if !won && lost { bump(s.games_lost) } else { s.games_lost },
        games_drawn: if !won && !lost && drawn { bump(s.games_drawn) } else { s.games_drawn },
        total_moves: if s.total_moves as int + moves as int <= u32::MAX as int {
            (s.total_moves + moves) as u32
        } else {
            u32::MAX
        },
        total_game_secs: if s.total_game_secs as int + duration_secs as int <= u64::MAX as int {
            (s.total_game_secs + duration_secs) as u64
        } else {
            u64::MAX
        },
        longest_game_moves: if moves > s.longest_game_moves { moves } else { s.longest_game_moves },
        shortest_game_moves: if moves < s.shortest_game_moves { moves } else { s.shortest_game_moves },
        ..s
    }
}

/// The text of each entry of a list of strings.
pub open spec fn texts(v: Seq<String>) -> Seq<Seq<char>> {
    v.map_values(|s: String| s@)
}

impl Default for PlayerStats {
    /// No games yet, rated 1200.
    fn default() -> (r: PlayerStats)
        ensures
            r.games_played == 0 && r.games_won == 0 && r.games_lost == 0 && r.games_drawn == 0,
            r.total_moves == 0 && r.total_game_secs == 0 && r.longest_game_moves == 0,
            r.shortest_game_moves == u32::MAX,
            r.rating == 1200 && r.peak_rating == 1200 && r.rating_games == 0,
    {
        PlayerStats {
            games_played: 0,
            games_won: 0,
            games_lost: 0,
            games_drawn: 0,
            total_moves: 0,
            total_game_secs: 0,
            longest_game_moves: 0,
            shortest_game_moves: u32::MAX,
            rating: 1200,
            peak_rating: 1200,
            rating_games: 0,
        }
    }
}

impl PlayerStats {
    /// Records a finished game: one outcome counter goes up (won before lost
    /// before drawn), moves and time are added, the longest and shortest
    /// game lengths follow. Counters stop at their largest value.
    pub fn update_after_game(&mut self, won: bool, lost: bool, drawn: bool, moves: u32, duration_secs: u64)
        ensures
            *final(self) == stats_after(*old(self), won, lost, drawn, moves, duration_secs),
    {
        self.games_played = bump_u32(self.games_played);
        if won {
            self.games_won = bump_u32(self.games_won);
        } else if lost {
            self.games_lost = bump_u32(self.games_lost);
        } else if drawn {
            self.games_drawn = bump_u32(self.games_drawn);
        }
        self.total_moves = if self.total_moves <= u32::MAX - moves {
            self.total_moves + moves
        } else {
            u32::MAX
        };
        self.total_game_secs = if self.total_game_secs <= u64::MAX - duration_secs {
            self.total_game_secs + duration_secs
        } else {
            u64::MAX
        };
        if moves > self.longest_game_moves {
            self.longest_game_moves = moves;
        }
        if moves < self.shortest_game_moves {
            self.shortest_game_moves = moves;
        }
    }

    /// Sets a new rating; the peak follows it upward.
    pub fn update_rating(&mut self, new_rating: u32)
        ensures
            final(self).rating == new_rating,
            final(self).peak_rating == if new_rating > old(self).peak_rating { new_rating } else { old(self).peak_rating },
            final(self).rating_games == bump(old(self).rating_games),
            final(self).games_played == old(self).games_played,
    {
        self.rating = new_rating;
        if new_rating > self.peak_rating {
            self.peak_rating = new_rating;
        }
        self.rating_games = bump_u32(self.rating_games);
    }
}

/// The connection a player is on.
#[derive(Debug)]
pub struct ConnectionInfo {
    pub ip_address: String,
    pub user_agent: Option<String>,
    pub connected_at: u64,
    pub last_heartbeat: u64,
    pub bytes_sent: u64,
    pub bytes_received: u64,
    pub messages_sent: u32,
    pub messages_received: u32,
}

/// Figures about a player's history.
#[derive(Clone, Copy, Debug)]
pub struct DetailedPlayerStats {
    pub basic_stats: PlayerStats,
    pub total_play_time_estimate: u64,
    pub account_age_days: u64,
    pub last_active: u64,
    pub games_this_session: u32,
}

pub open spec fn add_sat(a: u64, b: u64) -> u64 {
    if a as int + b as int <= u64::MAX as int {
        (a + b) as u64
    } else {
        u64::MAX
    }
}

/// Some entry of a list of strings holds the text.
pub open spec fn lists(v: Seq<String>, t: Seq<char>) -> bool {
    exists|k: int| 0 <= k < v.len() && #[trigger] v[k]@ == t
}

/// A registered player.
#[derive(Debug)]
pub struct Player {
    pub id: String,
    pub name: String,
    pub status: PlayerStatus,
    pub stats: PlayerStats,
    pub created_at: u64,
    pub last_seen: u64,
    pub last_game_at: Option<u64>,
    pub current_games: Vec<String>,
    pub connection_info: Option<ConnectionInfo>,
}

/// The most games a player may be in at once.
pub const MAX_CURRENT_GAMES: usize = 10;

/// Below this many games a player is offered for matchmaking.
pub const MATCH_GAME_LIMIT: usize = 5;

impl Player {
    pub open spec fn available(self) -> bool {
        (self.status == PlayerStatus::Online || self.status == PlayerStatus::Away)
            && self.current_games@.len() < MATCH_GAME_LIMIT
    }

    pub open spec fn has_game(self, game_id: Seq<char>) -> bool {
        exists|i: int| 0 <= i < self.current_games@.len() && #[trigger] self.current_games@[i]@ == game_id
    }

    /// A new online player under a given identifier, name and time.
    pub fn create(id: String, name: String, now: u64) -> (r: Player)
        ensures
            r.id == id,
            r.name == name,
            r.status == PlayerStatus::Online,
            r.stats.rating == 1200,
            r.stats.games_played == 0,
            r.current_games@.len() == 0,
            r.created_at == now,
            r.last_seen == now,
            r.connection_info is None,
    {
        Player {
            id,
            name,
            status: PlayerStatus::Online,
            stats: PlayerStats::default(),
            created_at: now,
            last_seen: now,
            last_game_at: None,
            current_games: Vec::new(),
            connection_info: None,
        }
    }

    /// A new player under a fresh identifier, named by the sanitized form of
    /// `name`; a name with nothing left after sanitizing is refused.
    pub fn new(name: String) -> (r: ChessResult<Player>)
        ensures
            r is Ok <==> clean_name(name@).len() > 0,
            r matches Ok(p) ==> p.name@ == clean_name(name@) && p.status == PlayerStatus::Online
                && p.current_games@.len() == 0 && p.stats.rating == 1200,
            r is Err ==> (r matches Err(ChessServerError::InvalidPlayerName { .. })),
    {
        let clean = sanitize_player_name(name.as_str());
        if clean.as_str().unicode_len() == 0 {
            return Err(ChessServerError::InvalidPlayerName { name });
        }
        Ok(Player::create(generate_id(), clean, current_timestamp()))
    }

    /// Records a fresh connection at time `now`, with zeroed counters.
    pub fn set_connection_info_at(&mut self, ip_address: String, user_agent: Option<String>, now: u64)
        ensures
            final(self).connection_info matches Some(c) && c.ip_address == ip_address && c.user_agent
                == user_agent && c.connected_at == now && c.last_heartbeat == now && c.bytes_sent == 0
                && c.bytes_received == 0 && c.messages_sent == 0 && c.messages_received == 0,
            final(self).last_seen == now,
            final(self).id == old(self).id,
            final(self).status == old(self).status,
            final(self).current_games@ == old(self).current_games@,
    {
        self.connection_info = Some(
            ConnectionInfo {
                ip_address,
                user_agent,
                connected_at: now,
                last_heartbeat: now,
                bytes_sent: 0,
                bytes_received: 0,
                messages_sent: 0,
                messages_received: 0,
            },
        );
        self.last_seen = now;
    }

    pub fn set_connection_info(&mut self, ip_address: String, user_agent: Option<String>)
        ensures
            final(self).connection_info matches Some(c) && c.ip_address == ip_address && c.bytes_sent
                == 0 && c.bytes_received == 0,
            final(self).id == old(self).id,
    {
        self.set_connection_info_at(ip_address, user_agent, current_timestamp());
    }

    /// Counts an outgoing message of `bytes` bytes on the player's connection.
    pub fn add_sent_data(&mut self, bytes: u64)
        ensures
            match old(self).connection_info {
                Some(c) => final(self).connection_info matches Some(n) && n.bytes_sent == add_sat(
                    c.bytes_sent,
                    bytes,
                ) && n.messages_sent == bump(c.messages_sent) && n.bytes_received == c.bytes_received,
                None => final(self).connection_info is None,
            },
            final(self).id == old(self).id,
    {
        match self.connection_info.take() {
            Some(mut c) => {
                c.bytes_sent = if c.bytes_sent <= u64::MAX - bytes {
                    c.bytes_sent + bytes
                } else {
                    u64::MAX
                };
                c.messages_sent = bump_u32(c.messages_sent);
                self.connection_info = Some(c);
            },
            None => {},
        }
    }

    /// Counts an incoming message of `bytes` bytes on the player's connection.
    pub fn add_received_data(&mut self, bytes: u64)
        ensures
            match old(self).connection_info {
                Some(c) => final(self).connection_info matches Some(n) && n.bytes_received == add_sat(
                    c.bytes_received,
                    bytes,
                ) && n.messages_received == bump(c.messages_received) && n.bytes_sent == c.bytes_sent,
                None => final(self).connection_info is None,
            },
            final(self).id == old(self).id,
    {
        match self.connection_info.take() {
            Some(mut c) => {
                c.bytes_received = if c.bytes_received <= u64::MAX - bytes {
                    c.bytes_received + bytes
                } else {
                    u64::MAX
                };
                c.messages_received = bump_u32(c.messages_received);
                self.connection_info = Some(c);
            },
            None => {},
        }
    }

    /// Figures about the player as of time `now`: half an hour per game
    /// played, whole days since registration.
    pub fn get_detailed_stats_at(&self, now: u64) -> (r: DetailedPlayerStats)
        ensures
            r.basic_stats == self.stats,
            r.total_play_time_estimate == self.stats.games_played as u64 * 1800,
            r.account_age_days == if now >= self.created_at {
                ((now - self.created_at) / 86400) as u64
            } else {
                0
            },
            r.last_active == self.last_seen,
            r.games_this_session == if self.last_game_at is Some {
                1u32
            } else {
                0u32
            },
    {
        DetailedPlayerStats {
            basic_stats: self.stats,
            total_play_time_estimate: self.stats.games_played as u64 * 1800,
            account_age_days: if now >= self.created_at {
                (now - self.created_at) / 86400
            } else {
                0
            },
            last_active: self.last_seen,
            games_this_session: if self.last_game_at.is_some() {
                1
            } else {
                0
            },
        }
    }

    pub fn set_status(&mut self, status: PlayerStatus)
        ensures
            final(self).status == status,
            final(self).id == old(self).id,
            final(self).name == old(self).name,
            final(self).stats == old(self).stats,
            final(self).current_games@ == old(self).current_games@,
    {
        self.status = status;
        self.last_seen = current_timestamp();
    }

    pub fn disconnect(&mut self)
        ensures
            final(self).status == PlayerStatus::Offline,
            final(self).connection_info is None,
            final(self).id == old(self).id,
            final(self).current_games@ == old(self).current_games@,
    {
        self.set_status(PlayerStatus::Offline);
        self.connection_info = None;
    }

    pub fn update_heartbeat(&mut self)
        ensures
            final(self).status == old(self).status,
            final(self).id == old(self).id,
            final(self).current_games@ == old(self).current_games@,
    {
        self.last_seen = current_timestamp();
    }

    fn find_game(&self, game_id: &str) -> (r: Option<usize>)
        ensures
            r matches Some(i) ==> i < self.current_games@.len() && self.current_games@[i as int]@ == game_id@,
            r is None ==> !self.has_game(game_id@),
    {
        let mut i: usize = 0;
        while i < self.current_games.len()
            invariant
                i <= self.current_games@.len(),
                forall|j: int| 0 <= j < i ==> #[trigger] self.current_games@[j]@ != game_id@,
            decreases self.current_games@.len() - i,
        {
            if same_text(self.current_games[i].as_str(), game_id) {
                return Some(i);
            }
            i = i + 1;
        }
        None
    }

    /// Adds a game to the player's list, at most 10; a game already listed is
    /// not added twice.
    pub fn add_game(&mut self, game_id: String) -> (r: ChessResult<()>)
        ensures
            old(self).current_games@.len() >= MAX_CURRENT_GAMES ==> (r matches Err(
                ChessServerError::TooManyGames { .. },
            )) && final(self).current_games@ == old(self).current_games@,
            old(self).current_games@.len() < MAX_CURRENT_GAMES ==> r is Ok && if old(self).has_game(game_id@) {
                final(self).current_games@ == old(self).current_games@
            } else {
                final(self).current_games@ == old(self).current_games@.push(game_id)
                    && final(self).status == PlayerStatus::InGame
            },
            r is Err ==> *final(self) == *old(self),
            r is Ok ==> final(self).name == old(self).name && final(self).created_at == old(
                self,
            ).created_at,
            final(self).id == old(self).id,
            final(self).stats == old(self).stats,
    {
        if self.current_games.len() >= MAX_CURRENT_GAMES {
            return Err(ChessServerError::TooManyGames { player_id: self.id.clone() });
        }
        if self.find_game(game_id.as_str()).is_none() {
            self.current_games.push(game_id);
            self.status = PlayerStatus::InGame;
        }
        Ok(())
    }

    /// Drops a game from the list; a player with no game left goes from
    /// in-game back to online.
    pub fn remove_game(&mut self, game_id: &str)
        ensures
            !final(self).has_game(game_id@),
            forall|i: int| 0 <= i < old(self).current_games@.len() && old(self).current_games@[i]@ != game_id@
                ==> final(self).has_game(#[trigger] old(self).current_games@[i]@),
            final(self).current_games@.len() <= old(self).current_games@.len(),
            final(self).id == old(self).id,
            final(self).name == old(self).name,
            final(self).stats == old(self).stats,
            final(self).status == if final(self).current_games@.len() == 0 && old(self).status == PlayerStatus::InGame {
                PlayerStatus::Online
            } else {
                old(self).status
            },
    {
        let mut kept: Vec<String> = Vec::new();
        let mut i: usize = 0;
        while i < self.current_games.len()
            invariant
                i <= self.current_games@.len(),
                kept@.len() <= i,
                forall|k: int| 0 <= k < kept@.len() ==> (#[trigger] kept@[k])@ != game_id@,
                forall|j: int| 0 <= j < i && self.current_games@[j]@ != game_id@ ==> lists(
                    kept@,
                    #[trigger] self.current_games@[j]@,
                ),
            decreases self.current_games@.len() - i,
        {
            if !same_text(self.current_games[i].as_str(), game_id) {
                let ghost before = kept@;
                let g = self.current_games[i].clone();
                kept.push(g);
                assert(kept@[kept@.len() - 1]@ == self.current_games@[i as int]@);
                assert forall|t: Seq<char>| lists(before, t) implies lists(kept@, t) by {
                    let k = choose|k: int| 0 <= k < before.len() && #[trigger] before[k]@ == t;
                    assert(kept@[k] == before[k]);
                }
            }
            i = i + 1;
        }
        let ghost old_games = self.current_games@;
        self.current_games = kept;
        self.last_game_at = Some(current_timestamp());
        if self.current_games.len() == 0 && self.status == PlayerStatus::InGame {
            self.status = PlayerStatus::Online;
        }
        assert forall|j: int| 0 <= j < old_games.len() && old_games[j]@ != game_id@ implies self.has_game(
            #[trigger] old_games[j]@,
        ) by {
            assert(lists(self.current_games@, old_games[j]@));
            let k = choose|k: int| 0 <= k < self.current_games@.len() && #[trigger] self.current_games@[k]@ == old_games[j]@;
            assert(self.current_games@[k]@ == old_games[j]@);
        }
    }

    pub fn is_in_game(&self, game_id: &str) -> (r: bool)
        ensures
            r == self.has_game(game_id@),
    {
        self.find_game(game_id).is_some()
    }

    /// Online or away, and in fewer than 5 games.
    pub fn is_available_for_game(&self) -> (r: bool)
        ensures
            r == self.available(),
    {
        (self.status == PlayerStatus::Online || self.status == PlayerStatus::Away)
            && self.current_games.len() < MATCH_GAME_LIMIT
    }

    pub fn is_online(&self) -> (r: bool)
        ensures
            r == (self.status != PlayerStatus::Offline),
    {
        self.status != PlayerStatus::Offline
    }

    /// Seen longer ago than the threshold, at time `now`.
    pub fn is_idle_at(&self, idle_threshold_secs: u64, now: u64) -> (r: bool)
        ensures
            r == (now > self.last_seen && now - self.last_seen > idle_threshold_secs),
    {
        now > self.last_seen && now - self.last_seen > idle_threshold_secs
    }

    pub fn get_rating(&self) -> (r: u32)
        ensures
            r == self.stats.rating,
    {
        self.stats.rating
    }
}

/// What `str::to_lowercase` makes of a text.
pub uninterp spec fn lower_of(s: Seq<char>) -> Seq<char>;

/// Relies on `str::to_lowercase`: the Unicode lower-case form of a text.
#[verifier::external_body]
fn lowercase(s: &str) -> (r: String)
    ensures
        r@ == lower_of(s@),
{
    s.to_lowercase()
}

/// `needle` occurs in `hay` starting at `i`.
pub open spec fn occurs_at(hay: Seq<char>, needle: Seq<char>, i: int) -> bool {
    0 <= i && i + needle.len() <= hay.len() && hay.subrange(i, i + needle.len()) == needle
}

pub open spec fn has_infix(hay: Seq<char>, needle: Seq<char>) -> bool {
    exists|i: int| occurs_at(hay, needle, i)
}

/// Whether `needle` occurs in `hay`.
pub fn contains_text(hay: &str, needle: &str) -> (r: bool)
    ensures
        r == has_infix(hay@, needle@),
{
    let n = hay.unicode_len();
    let m = needle.unicode_len();
    if m > n {
        assert forall|i: int| !occurs_at(hay@, needle@, i) by {}
        return false;
    }
    let mut i: usize = 0;
    while i <= n - m
        invariant
            n == hay@.len(),
            m == needle@.len(),
            m <= n,
            i <= n - m + 1,
            forall|k: int| 0 <= k < i ==> !occurs_at(hay@, needle@, k),
        decreases n - m + 1 - i,
    {
        let mut j: usize = 0;
        let mut same = true;
        while j < m
            invariant
                n == hay@.len(),
                m == needle@.len(),
                i + m <= n,
                j <= m,
                same == (forall|t: int| 0 <= t < j ==> hay@[i + t] == needle@[t]),
            decreases m - j,
        {
            if hay.get_char(i + j) != needle.get_char(j) {
                same = false;
            }
            j = j + 1;
        }
        if same {
            assert(hay@.subrange(i as int, i + m) =~= needle@);
            assert(occurs_at(hay@, needle@, i as int));
            return true;
        }
        assert(!occurs_at(hay@, needle@, i as int)) by {
            if occurs_at(hay@, needle@, i as int) {
                assert forall|t: int| 0 <= t < m implies hay@[i + t] == needle@[t] by {
                    assert(hay@.subrange(i as int, i + m)[t] == hay@[i + t]);
                }
            }
        }
        i = i + 1;
    }
    assert forall|k: int| !occurs_at(hay@, needle@, k) by {
        if 0 <= k && k < i {
        }
    }
    false
}

/// What a player search asks for; an absent field asks nothing.
#[derive(Debug)]
pub struct PlayerSearchCriteria {
    pub name_contains: Option<String>,
    pub min_rating: Option<u32>,
    pub max_rating: Option<u32>,
    pub status: Option<PlayerStatus>,
    pub available_for_game: Option<bool>,
    pub min_games_played: Option<u32>,
    pub online_only: bool,
}

impl Default for PlayerSearchCriteria {
    fn default() -> (r: PlayerSearchCriteria)
        ensures
            r.name_contains is None && r.min_rating is None && r.max_rating is None
                && r.status is None && r.available_for_game is None && r.min_games_played is None
                && !r.online_only,
    {
        PlayerSearchCriteria {
            name_contains: None,
            min_rating: None,
            max_rating: None,
            status: None,
            available_for_game: None,
            min_games_played: None,
            online_only: false,
        }
    }
}

impl PlayerSearchCriteria {
    /// The player meets every field that is set. Names compare in lower case.
    pub open spec fn admits(self, p: Player) -> bool {
        &&& (self.name_contains matches Some(n) ==> has_infix(lower_of(p.name@), lower_of(n@)))
        &&& (self.min_rating matches Some(lo) ==> p.stats.rating >= lo)
        &&& (self.max_rating matches Some(hi) ==> p.stats.rating <= hi)
        &&& (self.status matches Some(st) ==> p.status == st)
        &&& (self.available_for_game matches Some(a) ==> p.available() == a)
        &&& (self.min_games_played matches Some(g) ==> p.stats.games_played >= g)
        &&& (self.online_only ==> p.status != PlayerStatus::Offline)
    }

    /// Players rated from `min` to `max`.
    pub fn by_rating_range(min: u32, max: u32) -> (r: PlayerSearchCriteria)
        ensures
            r.min_rating == Some(min) && r.max_rating == Some(max) && r.name_contains is None
                && r.status is None && r.available_for_game is None && r.min_games_played is None
                && !r.online_only,
    {
        let mut c = PlayerSearchCriteria::default();
        c.min_rating = Some(min);
        c.max_rating = Some(max);
        c
    }

    /// Online players free for a game.
    pub fn online_available() -> (r: PlayerSearchCriteria)
        ensures
            r.available_for_game == Some(true) && r.online_only && r.name_contains is None
                && r.min_rating is None && r.max_rating is None && r.status is None
                && r.min_games_played is None,
    {
        let mut c = PlayerSearchCriteria::default();
        c.available_for_game = Some(true);
        c.online_only = true;
        c
    }

    pub fn matches(&self, player: &Player) -> (r: bool)
        ensures
            r == self.admits(*player),
    {
        match &self.name_contains {
            Some(n) => {
                let hay = lowercase(player.name.as_str());
                let needle = lowercase(n.as_str());
                if !contains_text(hay.as_str(), needle.as_str()) {
                    return false;
                }
            },
            None => {},
        }
        match self.min_rating {
            Some(lo) => {
                if player.stats.rating < lo {
                    return false;
                }
            },
            None => {},
        }
        match self.max_rating {
            Some(hi) => {
                if player.stats.rating > hi {
                    return false;
                }
            },
            None => {},
        }
        match self.status {
            Some(st) => {
                if player.status != st {
                    return false;
                }
            },
            None => {},
        }
        match self.available_for_game {
            Some(a) => {
                if player.is_available_for_game() != a {
                    return false;
                }
            },
            None => {},
        }
        match self.min_games_played {
            Some(g) => {
                if player.stats.games_played < g {
                    return false;
                }
            },
            None => {},
        }
        !self.online_only || player.is_online()
    }
}

/// Lexicographic order of texts by character code.
pub open spec fn text_lt(a: Seq<char>, b: Seq<char>) -> bool
    decreases a.len(),
{
    if b.len() == 0 {
        false
    } else if a.len() == 0 {
        true
    } else if a[0] != b[0] {
        (a[0] as u32) < (b[0] as u32)
    } else {
        text_lt(a.drop_first(), b.drop_first())
    }
}

/// Whether `a` comes before `b` in lexicographic order.
pub fn text_less(a: &str, b: &str) -> (r: bool)
    ensures
        r == text_lt(a@, b@),
{
    let n = a.unicode_len();
    let m = b.unicode_len();
    let mut i: usize = 0;
    assert(a@.skip(0) =~= a@ && b@.skip(0) =~= b@);
    while i < n && i < m
        invariant
            n == a@.len(),
            m == b@.len(),
            i <= n,
            i <= m,
            text_lt(a@, b@) == text_lt(a@.skip(i as int), b@.skip(i as int)),
        decreases n - i,
    {
        let x = a.get_char(i);
        let y = b.get_char(i);
        assert(a@.skip(i as int)[0] == x && b@.skip(i as int)[0] == y);
        if x != y {
            return (x as u32) < (y as u32);
        }
        assert(a@.skip(i as int).drop_first() =~= a@.skip(i + 1));
        assert(b@.skip(i as int).drop_first() =~= b@.skip(i + 1));
        i = i + 1;
    }
    i < m
}

pub open spec fn distance(a: u32, b: u32) -> int {
    if a >= b {
        a - b
    } else {
        b - a
    }
}

/// A possible opponent for a player rated `target`: someone else, online or
/// away, in fewer than 5 games, rated within `tol` of the target.
pub open spec fn match_candidate(q: Player, pid: Seq<char>, target: u32, tol: u32) -> bool {
    &&& q.id@ != pid
    &&& q.available()
    &&& distance(q.stats.rating, target) <= tol
}

/// `a` is a better match than `b`: nearer in rating, or as near with the
/// smaller identifier.
pub open spec fn better_match(a: Player, b: Player, target: u32) -> bool {
    distance(a.stats.rating, target) < distance(b.stats.rating, target) || (distance(
        a.stats.rating,
        target,
    ) == distance(b.stats.rating, target) && !text_lt(b.id@, a.id@))
}

/// The first player, from `i` on, with the given identifier.
pub open spec fn player_at(ps: Seq<Player>, id: Seq<char>, i: int) -> Option<int>
    decreases ps.len() - i,
{
    if i < 0 || i >= ps.len() {
        None
    } else if ps[i].id@ == id {
        Some(i)
    } else {
        player_at(ps, id, i + 1)
    }
}

/// The first player, from `i` on, with the given name.
pub open spec fn named_at(ps: Seq<Player>, name: Seq<char>, i: int) -> Option<int>
    decreases ps.len() - i,
{
    if i < 0 || i >= ps.len() {
        None
    } else if ps[i].name@ == name {
        Some(i)
    } else {
        named_at(ps, name, i + 1)
    }
}

/// How many of the first `n` players satisfy `f`.
pub open spec fn count_players(ps: Seq<Player>, f: spec_fn(Player) -> bool, n: int) -> nat
    decreases n,
{
    if n <= 0 {
        0
    } else {
        count_players(ps, f, n - 1) + if f(ps[n - 1]) {
            1nat
        } else {
            0nat
        }
    }
}

/// No player has the identifier.
pub open spec fn player_id_free(ps: Seq<Player>, id: Seq<char>) -> bool {
    forall|j: int| 0 <= j < ps.len() ==> (#[trigger] ps[j]).id@ != id
}

/// No two players share an identifier or a name.
pub open spec fn players_wf(ps: Seq<Player>) -> bool {
    forall|a: int, b: int|
        0 <= a < b < ps.len() ==> #[trigger] ps[a].id@ != #[trigger] ps[b].id@ && ps[a].name@
            != ps[b].name@
}

/// `n` holds the same players as `o`, in the same places, with the same
/// identifiers and names.
pub open spec fn keys_kept(o: Seq<Player>, n: Seq<Player>) -> bool {
    n.len() == o.len() && forall|j: int|
        0 <= j < o.len() ==> (#[trigger] n[j]).id == o[j].id && n[j].name == o[j].name
}

/// Changing players in place, without touching identifiers or names, keeps
/// them unique.
pub proof fn lemma_keys_kept_wf(o: Seq<Player>, n: Seq<Player>)
    requires
        players_wf(o),
        keys_kept(o, n),
    ensures
        players_wf(n),
{
    assert forall|a: int, b: int| 0 <= a < b < n.len() implies #[trigger] n[a].id@ != #[trigger] n[b].id@
        && n[a].name@ != n[b].name@ by {
        assert(n[a].id == o[a].id && n[b].id == o[b].id);
        assert(o[a].id@ != o[b].id@);
    }
}

proof fn lemma_named_at_none(ps: Seq<Player>, name: Seq<char>, i: int)
    requires
        0 <= i,
        named_at(ps, name, i) is None,
    ensures
        forall|j: int| i <= j < ps.len() ==> (#[trigger] ps[j]).name@ != name,
    decreases ps.len() - i,
{
    if i < ps.len() {
        lemma_named_at_none(ps, name, i + 1);
    }
}

proof fn lemma_player_at_none(ps: Seq<Player>, id: Seq<char>, i: int)
    requires
        0 <= i,
        player_at(ps, id, i) is None,
    ensures
        forall|j: int| i <= j < ps.len() ==> (#[trigger] ps[j]).id@ != id,
    decreases ps.len() - i,
{
    if i < ps.len() {
        lemma_player_at_none(ps, id, i + 1);
    }
}

/// A rating after a change, never below 100.
pub open spec fn floored(rating: u32, change: i32) -> u32 {
    if rating as int + change as int <= 100 {
        100
    } else if rating as int + change as int >= u32::MAX as int {
        u32::MAX
    } else {
        (rating as int + change as int) as u32
    }
}

/// The registered players, by identifier and by unique sanitized name, and
/// their sessions.
#[derive(Debug)]
pub struct PlayerManager {
    pub players: Vec<Player>,
    pub session_manager: SessionManager,
}

impl PlayerManager {
    pub fn new(session_timeout_secs: u64) -> (r: PlayerManager)
        ensures
            r.players@.len() == 0,
            r.session_manager.sessions@.len() == 0,
            r.session_manager.timeout_secs == session_timeout_secs,
    {
        PlayerManager { players: Vec::new(), session_manager: SessionManager::new(session_timeout_secs) }
    }

    fn find(&self, player_id: &str) -> (r: Option<usize>)
        ensures
            r matches Some(i) ==> player_at(self.players@, player_id@, 0) == Some(i as int)
                && i < self.players@.len(),
            r is None ==> player_at(self.players@, player_id@, 0) is None,
    {
        let mut i: usize = 0;
        while i < self.players.len()
            invariant
                i <= self.players@.len(),
                player_at(self.players@, player_id@, 0) == player_at(self.players@, player_id@, i as int),
            decreases self.players@.len() - i,
        {
            if same_text(self.players[i].id.as_str(), player_id) {
                return Some(i);
            }
            i = i + 1;
        }
        None
    }

    fn find_name(&self, name: &str) -> (r: Option<usize>)
        ensures
            r matches Some(i) ==> named_at(self.players@, name@, 0) == Some(i as int)
                && i < self.players@.len(),
            r is None ==> named_at(self.players@, name@, 0) is None,
    {
        let mut i: usize = 0;
        while i < self.players.len()
            invariant
                i <= self.players@.len(),
                named_at(self.players@, name@, 0) == named_at(self.players@, name@, i as int),
            decreases self.players@.len() - i,
        {
            if same_text(self.players[i].name.as_str(), name) {
                return Some(i);
            }
            i = i + 1;
        }
        None
    }

    /// An identifier that no player has: `id` itself when it is free, else
    /// `id` lengthened past every identifier in use.
    fn fresh_id(&self, id: String) -> (r: String)
        ensures
            player_id_free(self.players@, r@),
            player_id_free(self.players@, id@) ==> r@ == id@,
    {
        match self.find(id.as_str()) {
            None => {
                proof {
                    lemma_player_at_none(self.players@, id@, 0);
                }
                return id;
            },
            Some(k) => {
                proof {
                    lemma_player_at_found(self.players@, id@, 0);
                }
            },
        }
        let mut m: usize = 0;
        let mut i: usize = 0;
        while i < self.players.len()
            invariant
                i <= self.players@.len(),
                forall|j: int| 0 <= j < i ==> (#[trigger] self.players@[j]).id@.len() <= m,
            decreases self.players@.len() - i,
        {
            let n = self.players[i].id.as_str().unicode_len();
            if n > m {
                m = n;
            }
            i = i + 1;
        }
        let r = extend_past(id, m);
        assert forall|j: int| 0 <= j < self.players@.len() implies (#[trigger] self.players@[j]).id@ != r@ by {
            assert(self.players@[j].id@.len() <= m);
        }
        r
    }

    /// Registers a player under a name that has been sanitized already and is
    /// not taken, with the given identifier and time.
    pub fn register_sanitized(&mut self, name: String, player_id: String, now: u64) -> (r: ChessResult<String>)
        ensures
            name@.len() == 0 ==> (r matches Err(ChessServerError::InvalidPlayerName { .. }))
                && final(self).players@ == old(self).players@,
            name@.len() > 0 && named_at(old(self).players@, name@, 0) is Some ==> (r matches Err(
                ChessServerError::PlayerAlreadyInGame { .. },
            )) && final(self).players@ == old(self).players@,
            name@.len() > 0 && named_at(old(self).players@, name@, 0) is None ==> {
                &&& r matches Ok(id) && id@ == final(self).players@.last().id@
                &&& final(self).players@.len() == old(self).players@.len() + 1
                &&& final(self).players@.drop_last() == old(self).players@
                &&& final(self).players@.last().name@ == name@
                &&& player_id_free(old(self).players@, final(self).players@.last().id@)
                &&& player_id_free(old(self).players@, player_id@) ==> final(self).players@.last().id@
                    == player_id@
            },
            players_wf(old(self).players@) ==> players_wf(final(self).players@),
    {
        if name.as_str().unicode_len() == 0 {
            return Err(ChessServerError::InvalidPlayerName { name });
        }
        if self.find_name(name.as_str()).is_some() {
            return Err(ChessServerError::PlayerAlreadyInGame { player_id: name });
        }
        proof {
            lemma_named_at_none(self.players@, name@, 0);
        }
        let fresh = self.fresh_id(player_id);
        let id = fresh.clone();
        let player = Player::create(fresh, name, now);
        self.players.push(player);
        proof {
            assert(self.players@.drop_last() =~= old(self).players@);
            if players_wf(old(self).players@) {
                assert forall|a: int, b: int|
                    0 <= a < b < self.players@.len() implies #[trigger] self.players@[a].id@
                    != #[trigger] self.players@[b].id@ && self.players@[a].name@ != self.players@[b].name@ by {
                    if b == old(self).players@.len() {
                        assert(self.players@[a] == old(self).players@[a]);
                    } else {
                        assert(old(self).players@[a].id@ != old(self).players@[b].id@);
                    }
                }
            }
        }
        Ok(id)
    }

    /// Registers a player: the name is sanitized and must be new.
    pub fn register_player(&mut self, name: String) -> (r: ChessResult<String>)
        ensures
            r is Ok <==> (clean_name(name@).len() > 0 && named_at(
                old(self).players@,
                clean_name(name@),
                0,
            ) is None),
            r is Ok ==> final(self).players@.len() == old(self).players@.len() + 1
                && final(self).players@.drop_last() == old(self).players@
                && final(self).players@.last().name@ == clean_name(name@),
            r is Err ==> final(self).players@ == old(self).players@,
            players_wf(old(self).players@) ==> players_wf(final(self).players@),
    {
        let clean = sanitize_player_name(name.as_str());
        self.register_sanitized(clean, generate_id(), current_timestamp())
    }

    pub fn get_player(&self, player_id: &str) -> (r: Option<&Player>)
        ensures
            match player_at(self.players@, player_id@, 0) {
                Some(i) => r matches Some(p) && *p == self.players@[i],
                None => r is None,
            },
    {
        match self.find(player_id) {
            Some(i) => Some(&self.players[i]),
            None => None,
        }
    }

    pub fn get_player_mut(&mut self, player_id: &str) -> (r: Option<&mut Player>)
        ensures
            match player_at(old(self).players@, player_id@, 0) {
                Some(i) => r is Some && *r->0 == old(self).players@[i] && final(self).players@
                    == old(self).players@.update(i, *final(r->0)),
                None => r is None && final(self).players@ == old(self).players@,
            },
    {
        match self.find(player_id) {
            Some(i) => Some(&mut self.players[i]),
            None => None,
        }
    }

    /// The player registered under the sanitized form of a name.
    pub fn get_player_by_name(&self, name: &str) -> (r: Option<&Player>)
        ensures
            match named_at(self.players@, clean_name(name@), 0) {
                Some(i) => r matches Some(p) && *p == self.players@[i],
                None => r is None,
            },
    {
        let clean = sanitize_player_name(name);
        match self.find_name(clean.as_str()) {
            Some(i) => Some(&self.players[i]),
            None => None,
        }
    }

    pub fn get_player_id_by_name(&self, name: &str) -> (r: Option<String>)
        ensures
            match named_at(self.players@, clean_name(name@), 0) {
                Some(i) => r matches Some(id) && id@ == self.players@[i].id@,
                None => r is None,
            },
    {
        match self.get_player_by_name(name) {
            Some(p) => Some(p.id.clone()),
            None => None,
        }
    }

    /// Unregisters a player and ends the player's session.
    pub fn remove_player(&mut self, player_id: &str) -> (r: Option<Player>)
        ensures
            match player_at(old(self).players@, player_id@, 0) {
                Some(i) => r == Some(old(self).players@[i]) && final(self).players@ == old(
                    self,
                ).players@.remove(i),
                None => r is None && final(self).players@ == old(self).players@,
            },
            players_wf(old(self).players@) ==> players_wf(final(self).players@),
    {
        match self.find(player_id) {
            Some(i) => {
                let p = self.players.remove(i);
                proof {
                    if players_wf(old(self).players@) {
                        assert forall|a: int, b: int|
                            0 <= a < b < self.players@.len() implies #[trigger] self.players@[a].id@
                            != #[trigger] self.players@[b].id@ && self.players@[a].name@
                            != self.players@[b].name@ by {
                            let a2 = if a < i { a } else { a + 1 };
                            let b2 = if b < i { b } else { b + 1 };
                            assert(self.players@[a] == old(self).players@[a2]);
                            assert(self.players@[b] == old(self).players@[b2]);
                        }
                    }
                }
                let ghost after = self.players@;
                let sid = match self.session_manager.get_session_by_player(player_id) {
                    Some(s) => Some(s.id.clone()),
                    None => None,
                };
                match sid {
                    Some(sid) => {
                        self.session_manager.remove_session(sid.as_str());
                    },
                    None => {},
                }
                assert(self.players@ == after);
                Some(p)
            },
            None => None,
        }
    }

    fn not_found(player_id: &str) -> (r: ChessServerError)
        ensures
            r matches ChessServerError::PlayerNotFound { player_id: id } && id@ == player_id@,
    {
        ChessServerError::PlayerNotFound { player_id: player_id.to_owned() }
    }

    /// Adds a game to a registered player's list; see `Player::add_game`.
    pub fn add_player_to_game(&mut self, player_id: &str, game_id: &str) -> (r: ChessResult<()>)
        ensures
            match player_at(old(self).players@, player_id@, 0) {
                None => (r matches Err(ChessServerError::PlayerNotFound { .. }))
                    && final(self).players@ == old(self).players@,
                Some(i) => {
                    let o = old(self).players@[i];
                    let n = final(self).players@[i];
                    &&& final(self).players@.len() == old(self).players@.len()
                    &&& forall|j: int|
                        0 <= j < old(self).players@.len() && j != i ==> final(self).players@[j]
                            == old(self).players@[j]
                    &&& r is Ok <==> o.current_games@.len() < MAX_CURRENT_GAMES
                    &&& r is Ok ==> n.id == o.id && n.stats == o.stats && texts(n.current_games@)
                        == if o.has_game(game_id@) {
                        texts(o.current_games@)
                    } else {
                        texts(o.current_games@).push(game_id@)
                    }
                    &&& r is Err ==> final(self).players@ == old(self).players@
                },
            },
            final(self).session_manager == old(self).session_manager,
            keys_kept(old(self).players@, final(self).players@),
    {
        match self.find(player_id) {
            Some(i) => {
                let mut p = self.players.remove(i);
                let gid = game_id.to_owned();
                let ghost before = p.current_games@;
                let r = p.add_game(gid);
                proof {
                    if r is Ok && !old(self).players@[i as int].has_game(game_id@) {
                        assert(texts(p.current_games@) =~= texts(before).push(game_id@));
                    }
                }
                self.players.insert(i, p);
                assert(self.players@ =~= old(self).players@.update(i as int, p));
                r
            },
            None => Err(Self::not_found(player_id)),
        }
    }

    /// Drops a game from a registered player's list; see `Player::remove_game`.
    pub fn remove_player_from_game(&mut self, player_id: &str, game_id: &str) -> (r: ChessResult<()>)
        ensures
            match player_at(old(self).players@, player_id@, 0) {
                None => (r matches Err(ChessServerError::PlayerNotFound { .. }))
                    && final(self).players@ == old(self).players@,
                Some(i) => {
                    let o = old(self).players@[i];
                    let n = final(self).players@[i];
                    &&& r is Ok
                    &&& final(self).players@.len() == old(self).players@.len()
                    &&& forall|j: int|
                        0 <= j < old(self).players@.len() && j != i ==> final(self).players@[j]
                            == old(self).players@[j]
                    &&& !n.has_game(game_id@)
                    &&& forall|k: int|
                        0 <= k < o.current_games@.len() && o.current_games@[k]@ != game_id@
                            ==> n.has_game(#[trigger] o.current_games@[k]@)
                    &&& n.current_games@.len() <= o.current_games@.len()
                    &&& n.id == o.id && n.stats == o.stats
                },
            },
            final(self).session_manager == old(self).session_manager,
            keys_kept(old(self).players@, final(self).players@),
    {
        match self.find(player_id) {
            Some(i) => {
                let mut p = self.players.remove(i);
                p.remove_game(game_id);
                self.players.insert(i, p);
                assert(self.players@ =~= old(self).players@.update(i as int, p));
                Ok(())
            },
            None => Err(Self::not_found(player_id)),
        }
    }

    /// Records a finished game in a registered player's stats.
    pub fn update_player_stats(
        &mut self,
        player_id: &str,
        won: bool,
        lost: bool,
        drawn: bool,
        moves: u32,
        duration_secs: u64,
    ) -> (r: ChessResult<()>)
        ensures
            match player_at(old(self).players@, player_id@, 0) {
                None => (r matches Err(ChessServerError::PlayerNotFound { .. }))
                    && final(self).players@ == old(self).players@,
                Some(i) => {
                    &&& r is Ok
                    &&& final(self).players@ == old(self).players@.update(
                        i,
                        Player {
                            stats: stats_after(
                                old(self).players@[i].stats,
                                won,
                                lost,
                                drawn,
                                moves,
                                duration_secs,
                            ),
                            ..old(self).players@[i]
                        },
                    )
                },
            },
            final(self).session_manager == old(self).session_manager,
            keys_kept(old(self).players@, final(self).players@),
    {
        match self.find(player_id) {
            Some(i) => {
                let mut p = self.players.remove(i);
                p.stats.update_after_game(won, lost, drawn, moves, duration_secs);
                self.players.insert(i, p);
                assert(self.players@ =~= old(self).players@.update(i as int, p));
                Ok(())
            },
            None => Err(Self::not_found(player_id)),
        }
    }

    pub fn update_player_rating(&mut self, player_id: &str, new_rating: u32) -> (r: ChessResult<()>)
        ensures
            match player_at(old(self).players@, player_id@, 0) {
                Some(i) => r is Ok && final(self).players@.len() == old(self).players@.len()
                    && final(self).players@[i].stats.rating == new_rating && forall|j: int|
                    0 <= j < old(self).players@.len() && j != i ==> final(self).players@[j] == old(
                        self,
                    ).players@[j],
                None => r is Err && final(self).players@ == old(self).players@,
            },
            player_at(old(self).players@, player_id@, 0) matches Some(i) ==> final(self).players@[i].id
                == old(self).players@[i].id,
            keys_kept(old(self).players@, final(self).players@),
    {
        match self.find(player_id) {
            Some(i) => {
                let mut p = self.players.remove(i);
                p.stats.update_rating(new_rating);
                self.players.insert(i, p);
                assert(self.players@ =~= old(self).players@.update(i as int, p));
                Ok(())
            },
            None => Err(Self::not_found(player_id)),
        }
    }

    /// Applies rating changes to two players after their game; ratings never
    /// fall below 100. Both players must exist.
    pub fn apply_rating_changes(&mut self, player1_id: &str, player2_id: &str, change1: i32, change2: i32) -> (r:
        ChessResult<()>)
        ensures
            r is Ok <==> (player_at(old(self).players@, player1_id@, 0) is Some && player_at(
                old(self).players@,
                player2_id@,
                0,
            ) is Some),
            r is Ok && player1_id@ != player2_id@ ==> {
                let i = player_at(old(self).players@, player1_id@, 0)->0;
                let j = player_at(old(self).players@, player2_id@, 0)->0;
                final(self).players@[i].stats.rating == floored(old(self).players@[i].stats.rating, change1)
                    && final(self).players@[j].stats.rating == floored(old(self).players@[j].stats.rating, change2)
            },
            keys_kept(old(self).players@, final(self).players@),
    {
        let i = match self.find(player1_id) {
            Some(i) => i,
            None => {
                return Err(Self::not_found(player1_id));
            },
        };
        let j = match self.find(player2_id) {
            Some(j) => j,
            None => {
                return Err(Self::not_found(player2_id));
            },
        };
        let r1 = new_rating(self.players[i].stats.rating, change1);
        let r2 = new_rating(self.players[j].stats.rating, change2);
        let ghost mid = self.players@;
        let _ = self.update_player_rating(player1_id, r1);
        proof {
            lemma_player_at_found(mid, player1_id@, 0);
            lemma_player_at_found(mid, player2_id@, 0);
        }
        assert(player_at(self.players@, player2_id@, 0) == player_at(mid, player2_id@, 0)) by {
            lemma_player_at_same_ids(mid, self.players@, player2_id@, 0);
        }
        let _ = self.update_player_rating(player2_id, r2);
        Ok(())
    }

    /// The best opponent for a player: among the other available players
    /// rated within `rating_tolerance` of the player, the nearest in rating,
    /// then the smallest identifier.
    pub fn find_matchmaking_opponent(&self, player_id: &str, rating_tolerance: u32) -> (r: Option<&Player>)
        ensures
            match player_at(self.players@, player_id@, 0) {
                None => r is None,
                Some(me) => {
                    let target = self.players@[me].stats.rating;
                    match r {
                        Some(best) => {
                            &&& exists|i: int| 0 <= i < self.players@.len() && *best == self.players@[i]
                            &&& match_candidate(*best, player_id@, target, rating_tolerance)
                            &&& forall|j: int| 0 <= j < self.players@.len() && match_candidate(
                                #[trigger] self.players@[j],
                                player_id@,
                                target,
                                rating_tolerance,
                            ) ==> better_match(*best, self.players@[j], target)
                        },
                        None => forall|j: int| 0 <= j < self.players@.len() ==> !match_candidate(
                            #[trigger] self.players@[j],
                            player_id@,
                            target,
                            rating_tolerance,
                        ),
                    }
                },
            },
    {
        let me = match self.find(player_id) {
            Some(i) => i,
            None => {
                return None;
            },
        };
        let target = self.players[me].stats.rating;
        let ghost ps = self.players@;
        let mut best: Option<usize> = None;
        let mut i: usize = 0;
        while i < self.players.len()
            invariant
                ps == self.players@,
                i <= ps.len(),
                best matches Some(b) ==> b < i && match_candidate(ps[b as int], player_id@, target, rating_tolerance)
                    && forall|j: int| 0 <= j < i && match_candidate(
                    #[trigger] ps[j],
                    player_id@,
                    target,
                    rating_tolerance,
                ) ==> better_match(ps[b as int], ps[j], target),
                best is None ==> forall|j: int| 0 <= j < i ==> !match_candidate(
                    #[trigger] ps[j],
                    player_id@,
                    target,
                    rating_tolerance,
                ),
            decreases ps.len() - i,
        {
            let q = &self.players[i];
            let d = if q.stats.rating >= target {
                q.stats.rating - target
            } else {
                target - q.stats.rating
            };
            if !same_text(q.id.as_str(), player_id) && q.is_available_for_game() && d <= rating_tolerance {
                assert(match_candidate(ps[i as int], player_id@, target, rating_tolerance));
                match best {
                    None => {
                        proof {
                            lemma_text_lt_irreflexive(ps[i as int].id@);
                        }
                        best = Some(i);
                    },
                    Some(b) => {
                        let bq = &self.players[b];
                        let bd = if bq.stats.rating >= target {
                            bq.stats.rating - target
                        } else {
                            target - bq.stats.rating
                        };
                        if d < bd || (d == bd && text_less(q.id.as_str(), bq.id.as_str())) {
                            proof {
                                lemma_text_lt_order(ps[i as int].id@, ps[b as int].id@);
                                assert forall|j: int| 0 <= j < i + 1 && match_candidate(
                                    #[trigger] ps[j],
                                    player_id@,
                                    target,
                                    rating_tolerance,
                                ) implies better_match(ps[i as int], ps[j], target) by {
                                    if j < i {
                                        assert(better_match(ps[b as int], ps[j], target));
                                        if d == bd && distance(ps[b as int].stats.rating, target)
                                            == distance(ps[j].stats.rating, target) {
                                            lemma_text_lt_transitive_not(
                                                ps[i as int].id@,
                                                ps[b as int].id@,
                                                ps[j].id@,
                                            );
                                        }
                                    } else {
                                        lemma_text_lt_irreflexive(ps[i as int].id@);
                                    }
                                }
                            }
                            best = Some(i);
                        }
                    },
                }
            }
            i = i + 1;
        }
        match best {
            Some(b) => Some(&self.players[b]),
            None => None,
        }
    }

    /// The players a search admits, in registration order.
    pub fn search_players(&self, criteria: &PlayerSearchCriteria) -> (r: Vec<&Player>)
        ensures
            forall|k: int| 0 <= k < r@.len() ==> criteria.admits(*#[trigger] r@[k]),
            r@.len() == count_players(self.players@, |p: Player| criteria.admits(p), self.players@.len() as int),
    {
        let mut found: Vec<&Player> = Vec::new();
        let mut i: usize = 0;
        while i < self.players.len()
            invariant
                i <= self.players@.len(),
                forall|k: int| 0 <= k < found@.len() ==> criteria.admits(*#[trigger] found@[k]),
                found@.len() == count_players(self.players@, |p: Player| criteria.admits(p), i as int),
            decreases self.players@.len() - i,
        {
            if criteria.matches(&self.players[i]) {
                found.push(&self.players[i]);
            }
            i = i + 1;
        }
        found
    }

    /// How many players are not offline.
    pub fn get_online_player_count(&self) -> (r: usize)
        ensures
            r == count_players(self.players@, |p: Player| p.status != PlayerStatus::Offline, self.players@.len() as int),
    {
        let mut n: usize = 0;
        let mut i: usize = 0;
        while i < self.players.len()
            invariant
                i <= self.players@.len(),
                n == count_players(self.players@, |p: Player| p.status != PlayerStatus::Offline, i as int),
                n <= i,
            decreases self.players@.len() - i,
        {
            if self.players[i].is_online() {
                n = n + 1;
            }
            i = i + 1;
        }
        n
    }

    /// How many players are in a game.
    pub fn get_in_game_player_count(&self) -> (r: usize)
        ensures
            r == count_players(self.players@, |p: Player| p.status == PlayerStatus::InGame, self.players@.len() as int),
    {
        let mut n: usize = 0;
        let mut i: usize = 0;
        while i < self.players.len()
            invariant
                i <= self.players@.len(),
                n == count_players(self.players@, |p: Player| p.status == PlayerStatus::InGame, i as int),
                n <= i,
            decreases self.players@.len() - i,
        {
            if self.players[i].status == PlayerStatus::InGame {
                n = n + 1;
            }
            i = i + 1;
        }
        n
    }

    /// The players that are not offline, in registration order.
    pub fn get_online_players(&self) -> (r: Vec<&Player>)
        ensures
            forall|k: int| 0 <= k < r@.len() ==> (#[trigger] r@[k]).status != PlayerStatus::Offline,
            r@.len() == count_players(self.players@, |p: Player| p.status != PlayerStatus::Offline, self.players@.len() as int),
    {
        let mut found: Vec<&Player> = Vec::new();
        let mut i: usize = 0;
        while i < self.players.len()
            invariant
                i <= self.players@.len(),
                forall|k: int| 0 <= k < found@.len() ==> (#[trigger] found@[k]).status != PlayerStatus::Offline,
                found@.len() == count_players(self.players@, |p: Player| p.status != PlayerStatus::Offline, i as int),
            decreases self.players@.len() - i,
        {
            if self.players[i].is_online() {
                found.push(&self.players[i]);
            }
            i = i + 1;
        }
        found
    }

    /// The players that matchmaking may offer: online or away, in fewer than
    /// 5 games.
    pub fn get_available_players(&self) -> (r: Vec<&Player>)
        ensures
            forall|k: int| 0 <= k < r@.len() ==> (#[trigger] r@[k]).available(),
            r@.len() == count_players(self.players@, |p: Player| p.available(), self.players@.len() as int),
    {
        let mut found: Vec<&Player> = Vec::new();
        let mut i: usize = 0;
        while i < self.players.len()
            invariant
                i <= self.players@.len(),
                forall|k: int| 0 <= k < found@.len() ==> (#[trigger] found@[k]).available(),
                found@.len() == count_players(self.players@, |p: Player| p.available(), i as int),
            decreases self.players@.len() - i,
        {
            if self.players[i].is_available_for_game() {
                found.push(&self.players[i]);
            }
            i = i + 1;
        }
        found
    }

    pub fn session_manager_mut(&mut self) -> (r: &mut SessionManager)
        ensures
            *r == old(self).session_manager,
            final(self).session_manager == *final(r),
            final(self).players == old(self).players,
    {
        &mut self.session_manager
    }

    pub fn get_player_count(&self) -> (r: usize)
        ensures
            r == self.players@.len(),
    {
        self.players.len()
    }

    pub fn session_manager(&self) -> (r: &SessionManager)
        ensures
            *r == self.session_manager,
    {
        &self.session_manager
    }

    /// Opens a session for a registered player.
    pub fn create_player_session(&mut self, player_id: &str, ip: String, user_agent: Option<String>) -> (r:
        ChessResult<String>)
        ensures
            player_at(old(self).players@, player_id@, 0) is None ==> (r matches Err(
                ChessServerError::PlayerNotFound { .. },
            )) && final(self).session_manager.sessions@ == old(self).session_manager.sessions@,
            player_at(old(self).players@, player_id@, 0) is Some ==> {
                let o = old(self).session_manager.sessions@;
                &&& named_count(o, ip@, o.len() as int) < 5 && ip_count(o, ip@, o.len() as int) < 10
                    ==> r is Ok
                &&& exists|sid: Seq<char>, now: u64|
                    session_created(
                        o,
                        final(self).session_manager.sessions@,
                        old(self).session_manager.timeout_secs,
                        player_id@,
                        ip@,
                        user_agent,
                        sid,
                        now,
                        r,
                    )
            },
            ids_unique(old(self).session_manager.sessions@) ==> ids_unique(
                final(self).session_manager.sessions@,
            ),
            final(self).session_manager.timeout_secs == old(self).session_manager.timeout_secs,
            final(self).players@ == old(self).players@,
    {
        if self.find(player_id).is_none() {
            return Err(Self::not_found(player_id));
        }
        let pid = player_id.to_owned();
        let ghost o = self.session_manager.sessions@;
        let ghost t = self.session_manager.timeout_secs;
        let ghost ipv = ip@;
        let ghost ua = user_agent;
        let r = self.session_manager.create_session(pid, ip, user_agent);
        proof {
            let (sid, now) = choose|sid: Seq<char>, now: u64|
                session_created(o, self.session_manager.sessions@, t, player_id@, ipv, ua, sid, now, r);
            assert(session_created(o, self.session_manager.sessions@, t, player_id@, ipv, ua, sid, now, r));
        }
        r
    }

    pub fn update_player_online_status(&mut self, player_id: &str, status: PlayerStatus) -> (r: ChessResult<()>)
        ensures
            match player_at(old(self).players@, player_id@, 0) {
                Some(i) => r is Ok && final(self).players@.len() == old(self).players@.len()
                    && final(self).players@[i].status == status,
                None => r is Err && final(self).players@ == old(self).players@,
            },
            keys_kept(old(self).players@, final(self).players@),
    {
        match self.find(player_id) {
            Some(i) => {
                let mut p = self.players.remove(i);
                p.set_status(status);
                self.players.insert(i, p);
                assert(self.players@ =~= old(self).players@.update(i as int, p));
                Ok(())
            },
            None => Err(Self::not_found(player_id)),
        }
    }

    pub fn cleanup_expired_sessions(&mut self) -> (r: usize)
        ensures
            exists|now: u64|
                final(self).session_manager.sessions@ == live(
                    old(self).session_manager.sessions@,
                    old(self).session_manager.timeout_secs,
                    now,
                ) && r == expired_count(
                    old(self).session_manager.sessions@,
                    old(self).session_manager.timeout_secs,
                    now,
                ),
            final(self).players@ == old(self).players@,
    {
        self.session_manager.cleanup_expired_sessions()
    }
}

fn new_rating(rating: u32, change: i32) -> (r: u32)
    ensures
        r == floored(rating, change),
{
    let v: i64 = rating as i64 + change as i64;
    if v <= 100 {
        100
    } else if v >= u32::MAX as i64 {
        u32::MAX
    } else {
        v as u32
    }
}

proof fn lemma_player_at_same_ids(a: Seq<Player>, b: Seq<Player>, id: Seq<char>, i: int)
    requires
        a.len() == b.len(),
        forall|k: int| 0 <= k < a.len() ==> (#[trigger] a[k]).id@ == b[k].id@,
    ensures
        player_at(a, id, i) == player_at(b, id, i),
    decreases a.len() - i,
{
    if 0 <= i < a.len() {
        lemma_player_at_same_ids(a, b, id, i + 1);
    }
}

proof fn lemma_player_at_found(ps: Seq<Player>, id: Seq<char>, i: int)
    ensures
        player_at(ps, id, i) matches Some(k) ==> i <= k < ps.len() && ps[k].id@ == id,
    decreases ps.len() - i,
{
    if 0 <= i < ps.len() {
        lemma_player_at_found(ps, id, i + 1);
    }
}

proof fn lemma_text_lt_irreflexive(a: Seq<char>)
    ensures
        !text_lt(a, a),
    decreases a.len(),
{
    if a.len() > 0 {
        lemma_text_lt_irreflexive(a.drop_first());
    }
}

proof fn lemma_text_lt_order(a: Seq<char>, b: Seq<char>)
    ensures
        text_lt(a, b) ==> !text_lt(b, a),
    decreases a.len(),
{
    if a.len() > 0 && b.len() > 0 && a[0] == b[0] {
        lemma_text_lt_order(a.drop_first(), b.drop_first());
    }
}

/// If `a < b` and not `c < b`, then not `c < a`.
proof fn lemma_text_lt_transitive_not(a: Seq<char>, b: Seq<char>, c: Seq<char>)
    requires
        text_lt(a, b),
        !text_lt(c, b),
    ensures
        !text_lt(c, a),
    decreases a.len(),
{
    if a.len() > 0 && b.len() > 0 && c.len() > 0 && a[0] == b[0] && b[0] == c[0] {
        lemma_text_lt_transitive_not(a.drop_first(), b.drop_first(), c.drop_first());
    }
}

/// The rating bracket of a rating: 0 below 1000, then one per 200 points,
/// 7 from 2200 on.
pub open spec fn bracket_of(rating: u32) -> int {
    if rating < 1000 {
        0
    } else if rating < 1200 {
        1
    } else if rating < 1400 {
        2
    } else if rating < 1600 {
        3
    } else if rating < 1800 {
        4
    } else if rating < 2000 {
        5
    } else if rating < 2200 {
        6
    } else {
        7
    }
}

fn bracket_index(rating: u32) -> (r: usize)
    ensures
        r as int == bracket_of(rating),
{
    if rating < 1000 {
        0
    } else if rating < 1200 {
        1
    } else if rating < 1400 {
        2
    } else if rating < 1600 {
        3
    } else if rating < 1800 {
        4
    } else if rating < 2000 {
        5
    } else if rating < 2200 {
        6
    } else {
        7
    }
}

/// The name of a rating bracket.
pub open spec fn bracket_label(b: int) -> Seq<char> {
    if b == 0 {
        "Beginner (0-999)"@
    } else if b == 1 {
        "Novice (1000-1199)"@
    } else if b == 2 {
        "Intermediate (1200-1399)"@
    } else if b == 3 {
        "Advanced (1400-1599)"@
    } else if b == 4 {
        "Expert (1600-1799)"@
    } else if b == 5 {
        "Master (1800-1999)"@
    } else if b == 6 {
        "Grandmaster (2000-2199)"@
    } else {
        "Super Grandmaster (2200+)"@
    }
}

fn label_of(b: usize) -> (r: &'static str)
    ensures
        r@ == bracket_label(b as int),
{
    if b == 0 {
        "Beginner (0-999)"
    } else if b == 1 {
        "Novice (1000-1199)"
    } else if b == 2 {
        "Intermediate (1200-1399)"
    } else if b == 3 {
        "Advanced (1400-1599)"
    } else if b == 4 {
        "Expert (1600-1799)"
    } else if b == 5 {
        "Master (1800-1999)"
    } else if b == 6 {
        "Grandmaster (2000-2199)"
    } else {
        "Super Grandmaster (2200+)"
    }
}

/// How many players fall in each rating bracket.
#[derive(Debug)]
pub struct RatingDistribution {
    pub counts: Vec<usize>,
}

impl RatingDistribution {
    /// Whether some player falls in the bracket of that name.
    pub fn contains_key(&self, label: &str) -> (r: bool)
        requires
            self.counts@.len() == 8,
        ensures
            r == exists|b: int| 0 <= b < 8 && label@ == bracket_label(b) && self.counts@[b] > 0,
    {
        let mut b: usize = 0;
        while b < 8
            invariant
                b <= 8,
                self.counts@.len() == 8,
                forall|c: int| 0 <= c < b ==> !(label@ == bracket_label(c) && self.counts@[c] > 0),
            decreases 8 - b,
        {
            if same_text(label, label_of(b)) && self.counts[b] > 0 {
                return true;
            }
            b = b + 1;
        }
        false
    }
}

/// Every listed player was last seen more than `t` seconds before `now`.
pub open spec fn all_idle(ps: Seq<&Player>, t: u64, now: u64) -> bool {
    forall|k: int| 0 <= k < ps.len() ==> now > (#[trigger] ps[k]).last_seen && now - ps[k].last_seen > t
}

/// What the server shows of a player's session.
#[derive(Debug)]
pub struct SessionInfo {
    pub session_id: String,
    pub ip_address: String,
    pub connected_at: u64,
    pub last_activity: u64,
    pub is_authenticated: bool,
    pub permissions: crate::session::SessionPermissions,
}

/// A player with the session it holds and the games it is in.
#[derive(Debug)]
pub struct PlayerDetails {
    pub player_id: String,
    pub name: String,
    pub stats: PlayerStats,
    pub session_info: Option<SessionInfo>,
    pub current_games: Vec<String>,
}

impl PlayerManager {
    /// The players seen longer ago than the threshold, at time `now`.
    pub fn get_idle_players_at(&self, idle_threshold_secs: u64, now: u64) -> (r: Vec<&Player>)
        ensures
            forall|k: int|
                0 <= k < r@.len() ==> now > (#[trigger] r@[k]).last_seen && now - r@[k].last_seen
                    > idle_threshold_secs,
            r@.len() == count_players(
                self.players@,
                |p: Player| now > p.last_seen && now - p.last_seen > idle_threshold_secs,
                self.players@.len() as int,
            ),
    {
        let mut found: Vec<&Player> = Vec::new();
        let mut i: usize = 0;
        while i < self.players.len()
            invariant
                i <= self.players@.len(),
                forall|k: int|
                    0 <= k < found@.len() ==> now > (#[trigger] found@[k]).last_seen && now
                        - found@[k].last_seen > idle_threshold_secs,
                found@.len() == count_players(
                    self.players@,
                    |p: Player| now > p.last_seen && now - p.last_seen > idle_threshold_secs,
                    i as int,
                ),
            decreases self.players@.len() - i,
        {
            if self.players[i].is_idle_at(idle_threshold_secs, now) {
                found.push(&self.players[i]);
            }
            i = i + 1;
        }
        found
    }

    /// The players idle for longer than the threshold, by the clock.
    pub fn get_idle_players(&self, idle_threshold_secs: u64) -> (r: Vec<&Player>)
        ensures
            exists|now: u64| #[trigger] all_idle(r@, idle_threshold_secs, now),
    {
        let now = current_timestamp();
        let r = self.get_idle_players_at(idle_threshold_secs, now);
        assert(all_idle(r@, idle_threshold_secs, now));
        r
    }

    /// How many players fall in each rating bracket.
    pub fn get_rating_distribution(&self) -> (r: RatingDistribution)
        ensures
            r.counts@.len() == 8,
            forall|b: int|
                0 <= b < 8 ==> #[trigger] r.counts@[b] == count_players(
                    self.players@,
                    |p: Player| bracket_of(p.stats.rating) == b,
                    self.players@.len() as int,
                ),
    {
        let mut counts: Vec<usize> = Vec::new();
        let mut b: usize = 0;
        while b < 8
            invariant
                b <= 8,
                counts@.len() == b,
                forall|c: int|
                    0 <= c < b ==> #[trigger] counts@[c] == count_players(
                        self.players@,
                        |p: Player| bracket_of(p.stats.rating) == c,
                        self.players@.len() as int,
                    ),
            decreases 8 - b,
        {
            let mut n: usize = 0;
            let mut i: usize = 0;
            while i < self.players.len()
                invariant
                    i <= self.players@.len(),
                    b < 8,
                    n == count_players(
                        self.players@,
                        |p: Player| bracket_of(p.stats.rating) == b as int,
                        i as int,
                    ),
                    n <= i,
                decreases self.players@.len() - i,
            {
                if bracket_index(self.players[i].stats.rating) == b {
                    n = n + 1;
                }
                i = i + 1;
            }
            counts.push(n);
            b = b + 1;
        }
        RatingDistribution { counts }
    }

    /// A registered player with its session, if it holds one.
    pub fn get_player_details(&self, player_id: &str) -> (r: Option<PlayerDetails>)
        ensures
            r is Some <==> player_at(self.players@, player_id@, 0) is Some,
            r matches Some(d) ==> {
                let p = self.players@[player_at(self.players@, player_id@, 0)->0];
                &&& d.player_id@ == p.id@
                &&& d.name@ == p.name@
                &&& d.stats == p.stats
                &&& texts(d.current_games@) == texts(p.current_games@)
                &&& (d.session_info is Some <==> crate::session::player_index(
                    self.session_manager.sessions@,
                    player_id@,
                    0,
                ) is Some)
            },
    {
        let p = match self.get_player(player_id) {
            Some(p) => p,
            None => {
                return None;
            },
        };
        let session_info = match self.session_manager.get_session_by_player(player_id) {
            Some(s) => Some(
                SessionInfo {
                    session_id: s.id.clone(),
                    ip_address: s.ip_address.clone(),
                    connected_at: s.created_at,
                    last_activity: s.last_activity,
                    is_authenticated: s.is_authenticated,
                    permissions: s.permissions,
                },
            ),
            None => None,
        };
        let mut games: Vec<String> = Vec::new();
        let mut i: usize = 0;
        while i < p.current_games.len()
            invariant
                i <= p.current_games@.len(),
                games@.len() == i,
                forall|j: int| 0 <= j < i ==> (#[trigger] games@[j])@ == p.current_games@[j]@,
            decreases p.current_games@.len() - i,
        {
            games.push(p.current_games[i].clone());
            i = i + 1;
        }
        assert(texts(games@) =~= texts(p.current_games@));
        Some(
            PlayerDetails {
                player_id: p.id.clone(),
                name: p.name.clone(),
                stats: p.stats,
                session_info,
                current_games: games,
            },
        )
    }
}

} // verus!
