use vstd::prelude::*;

use crate::error::{ChessResult, ChessServerError};
use crate::text::{extend_past, same_text};
use crate::utils::{current_timestamp, generate_id};

verus! {

/// What a session may do.
#[derive(Clone, Copy, Debug, PartialEq, Eq, Structural)]
pub struct SessionPermissions {
    pub can_create_games: bool,
    pub can_join_games: bool,
    pub can_spectate: bool,
    pub can_chat: bool,
    pub is_admin: bool,
    pub is_moderator: bool,
}

impl SessionPermissions {
    pub open spec fn of(
        create: bool,
        join: bool,
        spectate: bool,
        chat: bool,
        admin: bool,
        moderator: bool,
    ) -> SessionPermissions {
        SessionPermissions {
            can_create_games: create,
            can_join_games: join,
            can_spectate: spectate,
            can_chat: chat,
            is_admin: admin,
            is_moderator: moderator,
        }
    }

    /// Guests join, watch and nothing more.
    pub fn guest() -> (r: SessionPermissions)
        ensures
            r == SessionPermissions::of(false, true, true, false, false, false),
    {
        SessionPermissions {
            can_create_games: false,
            can_join_games: true,
            can_spectate: true,
            can_chat: false,
            is_admin: false,
            is_moderator: false,
        }
    }

    pub fn admin() -> (r: SessionPermissions)
        ensures
            r == SessionPermissions::of(true, true, true, true, true, true),
    {
        SessionPermissions {
            can_create_games: true,
            can_join_games: true,
            can_spectate: true,
            can_chat: true,
            is_admin: true,
            is_moderator: true,
        }
    }

    pub fn moderator() -> (r: SessionPermissions)
        ensures
            r == SessionPermissions::of(true, true, true, true, false, true),
    {
        SessionPermissions {
            can_create_games: true,
            can_join_games: true,
            can_spectate: true,
            can_chat: true,
            is_admin: false,
            is_moderator: true,
        }
    }

    /// A banned session may do nothing.
    pub fn banned() -> (r: SessionPermissions)
        ensures
            r == SessionPermissions::of(false, false, false, false, false, false),
    {
        SessionPermissions {
            can_create_games: false,
            can_join_games: false,
            can_spectate: false,
            can_chat: false,
            is_admin: false,
            is_moderator: false,
        }
    }
}

impl Default for SessionPermissions {
    fn default() -> (r: SessionPermissions)
        ensures
            r == SessionPermissions::of(true, true, true, true, false, false),
    {
        SessionPermissions {
            can_create_games: true,
            can_join_games: true,
            can_spectate: true,
            can_chat: true,
            is_admin: false,
            is_moderator: false,
        }
    }
}

/// Thousandths of a token per whole token.
pub const MILLI: u64 = 1000;

/// A token bucket, counted in thousandths of a token.
#[derive(Clone, Copy, Debug, PartialEq, Eq, Structural)]
pub struct RateLimiterState {
    pub tokens: u64,
    pub capacity: u64,
    /// Thousandths of a token added per second.
    pub refill_rate: u64,
    pub last_refill: u64,
}

/// The bucket after refilling up to `now`: tokens for the seconds since the
/// last refill, at most the capacity.
pub open spec fn refilled(st: RateLimiterState, now: u64) -> RateLimiterState {
    if now > st.last_refill {
        let gained = (now - st.last_refill) as int * st.refill_rate as int;
        RateLimiterState {
            tokens: if st.tokens as int + gained >= st.capacity as int {
                st.capacity
            } else {
                (st.tokens as int + gained) as u64
            },
            last_refill: now,
            ..st
        }
    } else {
        st
    }
}

/// An idle session has expired once more than `timeout` seconds passed since
/// its last activity.
pub open spec fn expired_at(last_activity: u64, timeout: u64, now: u64) -> bool {
    now > last_activity && now - last_activity > timeout
}

pub open spec fn guest_id(id: Seq<char>) -> bool {
    id.len() >= 6 && id.take(6) == "guest_"@
}

/// Whether a player identifier is a guest's (`guest_` and more).
fn guest_text(id: &str) -> (r: bool)
    ensures
        r == guest_id(id@),
{
    if id.unicode_len() < 6 {
        return false;
    }
    proof {
        reveal_strlit("guest_");
    }
    let prefix = "guest_";
    let mut i: usize = 0;
    while i < 6
        invariant
            i <= 6,
            id@.len() >= 6,
            prefix@ == "guest_"@,
            prefix@.len() == 6,
            forall|j: int| 0 <= j < i ==> id@[j] == prefix@[j],
        decreases 6 - i,
    {
        if id.get_char(i) != prefix.get_char(i) {
            assert(id@.take(6)[i as int] != "guest_"@[i as int]);
            assert(id@.take(6) != "guest_"@);
            return false;
        }
        i = i + 1;
    }
    assert(id@.take(6) =~= "guest_"@);
    true
}

/// A connection's standing with the server.
#[derive(Debug)]
pub struct Session {
    pub id: String,
    pub player_id: String,
    pub created_at: u64,
    pub last_activity: u64,
    pub ip_address: String,
    pub user_agent: Option<String>,
    pub is_authenticated: bool,
    pub permissions: SessionPermissions,
    pub rate_limiter: Option<RateLimiterState>,
}

impl Session {
    /// A session for a named player, under the given identifier and time.
    pub fn create(
        id: String,
        player_id: String,
        ip_address: String,
        user_agent: Option<String>,
        now: u64,
    ) -> (r: Session)
        ensures
            r.id == id,
            r.player_id == player_id,
            r.ip_address == ip_address,
            r.user_agent == user_agent,
            r.created_at == now,
            r.last_activity == now,
            !r.is_authenticated,
            r.permissions == SessionPermissions::of(true, true, true, true, false, false),
            r.rate_limiter is None,
    {
        Session {
            id,
            player_id,
            created_at: now,
            last_activity: now,
            ip_address,
            user_agent,
            is_authenticated: false,
            permissions: SessionPermissions::default(),
            rate_limiter: None,
        }
    }

    pub fn new(player_id: String, ip_address: String, user_agent: Option<String>) -> (r: Session)
        ensures
            r.player_id == player_id,
            r.ip_address == ip_address,
            !r.is_authenticated,
            r.permissions == SessionPermissions::of(true, true, true, true, false, false),
            r.rate_limiter is None,
    {
        Session::create(generate_id(), player_id, ip_address, user_agent, current_timestamp())
    }

    /// A guest session: a fresh `guest_` player identifier and guest rights.
    pub fn guest(ip_address: String, user_agent: Option<String>) -> (r: Session)
        ensures
            guest_id(r.player_id@),
            r.ip_address == ip_address,
            !r.is_authenticated,
            r.permissions == SessionPermissions::of(false, true, true, false, false, false),
            r.rate_limiter is None,
    {
        let mut player_id = String::new();
        player_id.append("guest_");
        let short = crate::utils::generate_short_id();
        player_id.append(short.as_str());
        proof {
            reveal_strlit("guest_");
            assert(player_id@.take(6) =~= "guest_"@);
        }
        let mut s = Session::create(
            generate_id(),
            player_id,
            ip_address,
            user_agent,
            current_timestamp(),
        );
        s.permissions = SessionPermissions::guest();
        s
    }

    /// Binds the session to a player and grants the usual rights.
    pub fn authenticate_at(&mut self, player_id: String, now: u64)
        ensures
            final(self).player_id == player_id,
            final(self).is_authenticated,
            final(self).permissions == SessionPermissions::of(true, true, true, true, false, false),
            final(self).last_activity == now,
            final(self).id == old(self).id,
            final(self).ip_address == old(self).ip_address,
            final(self).created_at == old(self).created_at,
            final(self).rate_limiter == old(self).rate_limiter,
    {
        self.player_id = player_id;
        self.is_authenticated = true;
        self.permissions = SessionPermissions::default();
        self.last_activity = now;
    }

    pub fn authenticate(&mut self, player_id: String)
        ensures
            final(self).player_id == player_id,
            final(self).is_authenticated,
            final(self).permissions == SessionPermissions::of(true, true, true, true, false, false),
            final(self).id == old(self).id,
            final(self).ip_address == old(self).ip_address,
    {
        self.authenticate_at(player_id, current_timestamp());
    }

    pub fn update_activity(&mut self)
        ensures
            final(self).id == old(self).id,
            final(self).player_id == old(self).player_id,
            final(self).ip_address == old(self).ip_address,
            final(self).is_authenticated == old(self).is_authenticated,
            final(self).permissions == old(self).permissions,
            final(self).rate_limiter == old(self).rate_limiter,
    {
        self.last_activity = current_timestamp();
    }

    pub fn is_expired_at(&self, timeout_secs: u64, now: u64) -> (r: bool)
        ensures
            r == expired_at(self.last_activity, timeout_secs, now),
    {
        now > self.last_activity && now - self.last_activity > timeout_secs
    }

    pub fn is_expired(&self, timeout_secs: u64) -> (r: bool) {
        self.is_expired_at(timeout_secs, current_timestamp())
    }

    /// Seconds since the session was created, by the clock; 0 if the clock
    /// stands earlier.
    pub fn duration_secs(&self) -> (r: u64) {
        let now = current_timestamp();
        if now > self.created_at {
            now - self.created_at
        } else {
            0
        }
    }

    /// Gives the session a full bucket of `capacity` thousandths of a token,
    /// refilled by `refill_rate` thousandths a second.
    pub fn set_rate_limiter_at(&mut self, capacity: u64, refill_rate: u64, now: u64)
        ensures
            *final(self) == (Session {
                rate_limiter: Some(
                    RateLimiterState { tokens: capacity, capacity, refill_rate, last_refill: now },
                ),
                ..*old(self)
            }),
    {
        self.rate_limiter = Some(
            RateLimiterState { tokens: capacity, capacity, refill_rate, last_refill: now },
        );
    }

    pub fn set_rate_limiter(&mut self, capacity: u64, refill_rate: u64)
        ensures
            final(self).rate_limiter matches Some(st) && st.tokens == capacity && st.capacity
                == capacity && st.refill_rate == refill_rate,
    {
        self.set_rate_limiter_at(capacity, refill_rate, current_timestamp());
    }

    /// Takes `cost` thousandths of a token if the bucket, refilled up to
    /// `now`, holds them; a session without a bucket may always act.
    pub fn can_perform_action_at(&mut self, cost: u64, now: u64) -> (r: bool)
        ensures
            match old(self).rate_limiter {
                None => r && final(self).rate_limiter is None,
                Some(st) => {
                    let f = refilled(st, now);
                    &&& r == (f.tokens >= cost)
                    &&& final(self).rate_limiter == Some(
                        if r {
                            RateLimiterState {
                                tokens: (f.tokens - cost) as u64,
                                ..f
                            }
                        } else {
                            f
                        },
                    )
                },
            },
            final(self).id == old(self).id,
            final(self).player_id == old(self).player_id,
            final(self).ip_address == old(self).ip_address,
            final(self).last_activity == old(self).last_activity,
            final(self).is_authenticated == old(self).is_authenticated,
            final(self).permissions == old(self).permissions,
    {
        match self.rate_limiter {
            None => true,
            Some(st) => {
                let mut f = st;
                if now > st.last_refill {
                    let elapsed: u64 = now - st.last_refill;
                    assert((elapsed as int) * (st.refill_rate as int) <= u64::MAX as int * u64::MAX as int) by (nonlinear_arith)
                        requires
                            elapsed <= u64::MAX,
                            st.refill_rate <= u64::MAX,
                    ;
                    let gained: u128 = (elapsed as u128) * (st.refill_rate as u128);
                    let total: u128 = st.tokens as u128 + gained;
                    f.tokens = if total >= st.capacity as u128 {
                        st.capacity
                    } else {
                        total as u64
                    };
                    f.last_refill = now;
                }
                assert(f == refilled(st, now));
                if f.tokens >= cost {
                    f.tokens = f.tokens - cost;
                    self.rate_limiter = Some(f);
                    true
                } else {
                    self.rate_limiter = Some(f);
                    false
                }
            },
        }
    }

    pub fn can_perform_action(&mut self, cost: u64) -> (r: bool)
        ensures
            old(self).rate_limiter is None ==> r,
    {
        self.can_perform_action_at(cost, current_timestamp())
    }

    pub fn set_permissions(&mut self, permissions: SessionPermissions)
        ensures
            final(self).permissions == permissions,
            final(self).id == old(self).id,
            final(self).player_id == old(self).player_id,
            final(self).ip_address == old(self).ip_address,
            final(self).is_authenticated == old(self).is_authenticated,
    {
        self.permissions = permissions;
        self.update_activity();
    }

    pub fn promote_to_moderator(&mut self)
        ensures
            final(self).permissions == SessionPermissions::of(true, true, true, true, false, true),
            final(self).id == old(self).id,
            final(self).player_id == old(self).player_id,
    {
        self.set_permissions(SessionPermissions::moderator());
    }

    pub fn promote_to_admin(&mut self)
        ensures
            final(self).permissions == SessionPermissions::of(true, true, true, true, true, true),
            final(self).id == old(self).id,
            final(self).player_id == old(self).player_id,
    {
        self.set_permissions(SessionPermissions::admin());
    }

    pub fn ban(&mut self)
        ensures
            final(self).permissions == SessionPermissions::of(
                false,
                false,
                false,
                false,
                false,
                false,
            ),
            final(self).id == old(self).id,
            final(self).player_id == old(self).player_id,
            final(self).ip_address == old(self).ip_address,
            final(self).is_authenticated == old(self).is_authenticated,
    {
        self.set_permissions(SessionPermissions::banned());
    }

    /// A guest: never authenticated, or bound to a `guest_` identifier.
    pub fn is_guest(&self) -> (r: bool)
        ensures
            r == (!self.is_authenticated || guest_id(self.player_id@)),
    {
        !self.is_authenticated || guest_text(self.player_id.as_str())
    }

    pub fn can_create_game(&self) -> (r: bool)
        ensures
            r == self.permissions.can_create_games,
    {
        self.permissions.can_create_games
    }

    pub fn can_join_game(&self) -> (r: bool)
        ensures
            r == self.permissions.can_join_games,
    {
        self.permissions.can_join_games
    }

    pub fn can_spectate(&self) -> (r: bool)
        ensures
            r == self.permissions.can_spectate,
    {
        self.permissions.can_spectate
    }

    pub fn can_chat(&self) -> (r: bool)
        ensures
            r == self.permissions.can_chat,
    {
        self.permissions.can_chat
    }

    pub fn is_admin(&self) -> (r: bool)
        ensures
            r == self.permissions.is_admin,
    {
        self.permissions.is_admin
    }

    /// Moderators, and admins, who may do all a moderator may.
    pub fn is_moderator(&self) -> (r: bool)
        ensures
            r == (self.permissions.is_moderator || self.permissions.is_admin),
    {
        self.permissions.is_moderator || self.permissions.is_admin
    }

    pub fn has_elevated_permissions(&self) -> (r: bool)
        ensures
            r == (self.permissions.is_moderator || self.permissions.is_admin),
    {
        self.is_moderator() || self.is_admin()
    }
}

/// The first session, from `i` on, of the given identifier.
pub open spec fn session_index(ss: Seq<Session>, id: Seq<char>, i: int) -> Option<int>
    decreases ss.len() - i,
{
    if i < 0 || i >= ss.len() {
        None
    } else if ss[i].id@ == id {
        Some(i)
    } else {
        session_index(ss, id, i + 1)
    }
}

/// The first session, from `i` on, of the given player.
pub open spec fn player_index(ss: Seq<Session>, pid: Seq<char>, i: int) -> Option<int>
    decreases ss.len() - i,
{
    if i < 0 || i >= ss.len() {
        None
    } else if ss[i].player_id@ == pid {
        Some(i)
    } else {
        player_index(ss, pid, i + 1)
    }
}

/// How many of the first `n` sessions come from the address.
pub open spec fn ip_count(ss: Seq<Session>, ip: Seq<char>, n: int) -> nat
    decreases n,
{
    if n <= 0 {
        0
    } else {
        ip_count(ss, ip, n - 1) + if ss[n - 1].ip_address@ == ip {
            1nat
        } else {
            0nat
        }
    }
}

/// The sessions still active at `now`, in order.
pub open spec fn live(ss: Seq<Session>, timeout: u64, now: u64) -> Seq<Session>
    decreases ss.len(),
{
    if ss.len() == 0 {
        Seq::empty()
    } else {
        (if expired_at(ss[0].last_activity, timeout, now) {
            Seq::empty()
        } else {
            seq![ss[0]]
        }) + live(ss.drop_first(), timeout, now)
    }
}

/// How many sessions have expired at `now`.
pub open spec fn expired_count(ss: Seq<Session>, timeout: u64, now: u64) -> nat
    decreases ss.len(),
{
    if ss.len() == 0 {
        0
    } else {
        (if expired_at(ss[0].last_activity, timeout, now) {
            1nat
        } else {
            0nat
        }) + expired_count(ss.drop_first(), timeout, now)
    }
}

/// No session has the identifier.
pub open spec fn id_free(ss: Seq<Session>, id: Seq<char>) -> bool {
    forall|j: int| 0 <= j < ss.len() ==> (#[trigger] ss[j]).id@ != id
}

/// No two sessions share an identifier.
pub open spec fn ids_unique(ss: Seq<Session>) -> bool {
    forall|a: int, b: int| 0 <= a < b < ss.len() ==> #[trigger] ss[a].id@ != #[trigger] ss[b].id@
}

/// How many of the first `n` sessions from the address belong to named
/// (not guest) players.
pub open spec fn named_count(ss: Seq<Session>, ip: Seq<char>, n: int) -> nat
    decreases n,
{
    if n <= 0 {
        0
    } else {
        named_count(ss, ip, n - 1) + if ss[n - 1].ip_address@ == ip && !guest_id(
            ss[n - 1].player_id@,
        ) {
            1nat
        } else {
            0nat
        }
    }
}

/// What opening a session for a named player at `now` does to the sessions
/// `o`, giving `n` and the result `r`: an active session of the player is
/// reused and refreshed; else the address caps refuse it (5 sessions of named
/// players, then 10 in all); else a new session with a free identifier
/// (`sid` itself when free) and a bucket of 60 tokens replaces the player's
/// expired one.
pub open spec fn session_created(
    o: Seq<Session>,
    n: Seq<Session>,
    timeout: u64,
    pid: Seq<char>,
    ip: Seq<char>,
    ua: Option<String>,
    sid: Seq<char>,
    now: u64,
    r: ChessResult<String>,
) -> bool {
    match player_index(o, pid, 0) {
        Some(k) if !expired_at(o[k].last_activity, timeout, now) => {
            &&& r matches Ok(id) && id@ == o[k].id@
            &&& n == o.update(k, Session { last_activity: now, ..o[k] })
        },
        _ => if named_count(o, ip, o.len() as int) >= 5 {
            &&& r matches Err(ChessServerError::TooManyGames { player_id: a }) && a@ == ip
            &&& n == o
        } else if ip_count(o, ip, o.len() as int) >= 10 {
            &&& r == Err::<String, ChessServerError>(ChessServerError::ServerOverloaded)
            &&& n == o
        } else {
            &&& n.len() > 0
            &&& r matches Ok(id) && id@ == n.last().id@
            &&& id_free(o, n.last().id@)
            &&& id_free(o, sid) ==> n.last().id@ == sid
            &&& n.drop_last() == match player_index(o, pid, 0) {
                Some(k) => o.remove(k),
                None => o,
            }
            &&& n.last().player_id@ == pid
            &&& n.last().ip_address@ == ip
            &&& n.last().user_agent == ua
            &&& n.last().created_at == now
            &&& n.last().last_activity == now
            &&& !n.last().is_authenticated
            &&& n.last().permissions == SessionPermissions::of(true, true, true, true, false, false)
            &&& n.last().rate_limiter == Some(
                RateLimiterState {
                    tokens: 60000,
                    capacity: 60000,
                    refill_rate: 1000,
                    last_refill: now,
                },
            )
        },
    }
}

proof fn lemma_session_index_found(ss: Seq<Session>, id: Seq<char>, i: int)
    ensures
        session_index(ss, id, i) matches Some(k) ==> 0 <= k < ss.len() && ss[k].id@ == id,
    decreases ss.len() - i,
{
    if 0 <= i < ss.len() {
        lemma_session_index_found(ss, id, i + 1);
    }
}

proof fn lemma_session_index_none(ss: Seq<Session>, id: Seq<char>, i: int)
    requires
        0 <= i,
        session_index(ss, id, i) is None,
    ensures
        forall|j: int| i <= j < ss.len() ==> (#[trigger] ss[j]).id@ != id,
    decreases ss.len() - i,
{
    if i < ss.len() {
        lemma_session_index_none(ss, id, i + 1);
    }
}

/// How many of the first `n` sessions satisfy `f`.
pub open spec fn count_where(ss: Seq<Session>, f: spec_fn(Session) -> bool, n: int) -> nat
    decreases n,
{
    if n <= 0 {
        0
    } else {
        count_where(ss, f, n - 1) + if f(ss[n - 1]) {
            1nat
        } else {
            0nat
        }
    }
}

proof fn lemma_live_members(ss: Seq<Session>, timeout: u64, now: u64)
    ensures
        forall|k: int| 0 <= k < live(ss, timeout, now).len() ==> ss.contains(#[trigger] live(ss, timeout, now)[k]),
    decreases ss.len(),
{
    if ss.len() > 0 {
        let rest = ss.drop_first();
        lemma_live_members(rest, timeout, now);
        let h = live(ss, timeout, now).len() - live(rest, timeout, now).len();
        assert forall|k: int| 0 <= k < live(ss, timeout, now).len() implies ss.contains(
            #[trigger] live(ss, timeout, now)[k],
        ) by {
            if k < h {
                assert(live(ss, timeout, now)[k] == ss[0]);
            } else {
                assert(live(ss, timeout, now)[k] == live(rest, timeout, now)[k - h]);
                let j = choose|j: int| 0 <= j < rest.len() && rest[j] == live(rest, timeout, now)[k - h];
                assert(ss[j + 1] == rest[j]);
            }
        }
    }
}

/// Dropping entries keeps identifiers unique.
proof fn lemma_live_unique(ss: Seq<Session>, timeout: u64, now: u64)
    requires
        ids_unique(ss),
    ensures
        ids_unique(live(ss, timeout, now)),
    decreases ss.len(),
{
    if ss.len() > 0 {
        let rest = ss.drop_first();
        assert(ids_unique(rest)) by {
            assert forall|a: int, b: int| 0 <= a < b < rest.len() implies #[trigger] rest[a].id@
                != #[trigger] rest[b].id@ by {
                assert(ss[a + 1].id@ != ss[b + 1].id@);
            }
        }
        lemma_live_unique(rest, timeout, now);
        lemma_live_members(rest, timeout, now);
        let l = live(ss, timeout, now);
        let lr = live(rest, timeout, now);
        let h = l.len() - lr.len();
        assert forall|a: int, b: int| 0 <= a < b < l.len() implies #[trigger] l[a].id@ != #[trigger] l[b].id@ by {
            if a < h {
                assert(l[a] == ss[0]);
                assert(l[b] == lr[b - h]);
                assert(rest.contains(lr[b - h]));
                let j = choose|j: int| 0 <= j < rest.len() && rest[j] == lr[b - h];
                assert(ss[0].id@ != ss[j + 1].id@);
            } else {
                assert(l[a] == lr[a - h] && l[b] == lr[b - h]);
            }
        }
    }
}

/// Every session is either expired or active at a given time.
pub proof fn lemma_live_and_expired_partition(ss: Seq<Session>, timeout: u64, now: u64)
    ensures
        live(ss, timeout, now).len() + expired_count(ss, timeout, now) == ss.len(),
    decreases ss.len(),
{
    if ss.len() > 0 {
        lemma_live_and_expired_partition(ss.drop_first(), timeout, now);
    }
}

/// Statistics over the sessions.
#[derive(Clone, Copy, Debug)]
pub struct SessionStatistics {
    pub total_sessions: usize,
    pub authenticated_sessions: usize,
    pub guest_sessions: usize,
    pub admin_sessions: usize,
    pub moderator_sessions: usize,
    pub total_session_duration: u64,
    pub average_session_duration: u64,
}

/// The sessions of the server; a player has at most one active session.
#[derive(Debug)]
pub struct SessionManager {
    pub sessions: Vec<Session>,
    pub timeout_secs: u64,
}

impl SessionManager {
    pub fn new(timeout_secs: u64) -> (r: SessionManager)
        ensures
            r.sessions@.len() == 0,
            r.timeout_secs == timeout_secs,
    {
        SessionManager { sessions: Vec::new(), timeout_secs }
    }

    fn find(&self, session_id: &str) -> (r: Option<usize>)
        ensures
            r matches Some(i) ==> session_index(self.sessions@, session_id@, 0) == Some(i as int)
                && i < self.sessions@.len(),
            r is None ==> session_index(self.sessions@, session_id@, 0) is None,
    {
        let mut i: usize = 0;
        while i < self.sessions.len()
            invariant
                i <= self.sessions@.len(),
                session_index(self.sessions@, session_id@, 0) == session_index(
                    self.sessions@,
                    session_id@,
                    i as int,
                ),
            decreases self.sessions@.len() - i,
        {
            if same_text(self.sessions[i].id.as_str(), session_id) {
                return Some(i);
            }
            i = i + 1;
        }
        None
    }

    fn find_player(&self, player_id: &str) -> (r: Option<usize>)
        ensures
            r matches Some(i) ==> player_index(self.sessions@, player_id@, 0) == Some(i as int)
                && i < self.sessions@.len(),
            r is None ==> player_index(self.sessions@, player_id@, 0) is None,
    {
        let mut i: usize = 0;
        while i < self.sessions.len()
            invariant
                i <= self.sessions@.len(),
                player_index(self.sessions@, player_id@, 0) == player_index(
                    self.sessions@,
                    player_id@,
                    i as int,
                ),
            decreases self.sessions@.len() - i,
        {
            if same_text(self.sessions[i].player_id.as_str(), player_id) {
                return Some(i);
            }
            i = i + 1;
        }
        None
    }

    /// How many sessions come from an address.
    pub fn count_for_ip(&self, ip: &str) -> (r: usize)
        ensures
            r == ip_count(self.sessions@, ip@, self.sessions@.len() as int),
    {
        let mut count: usize = 0;
        let mut i: usize = 0;
        while i < self.sessions.len()
            invariant
                i <= self.sessions@.len(),
                count == ip_count(self.sessions@, ip@, i as int),
                count <= i,
            decreases self.sessions@.len() - i,
        {
            if same_text(self.sessions[i].ip_address.as_str(), ip) {
                count = count + 1;
            }
            i = i + 1;
        }
        count
    }

    /// An identifier that no session has: `id` itself when it is free, else
    /// `id` lengthened past every identifier in use.
    fn fresh_id(&self, id: String) -> (r: String)
        ensures
            id_free(self.sessions@, r@),
            id_free(self.sessions@, id@) ==> r@ == id@,
    {
        match self.find(id.as_str()) {
            None => {
                proof {
                    lemma_session_index_none(self.sessions@, id@, 0);
                }
                return id;
            },
            Some(k) => {
                proof {
                    lemma_session_index_found(self.sessions@, id@, 0);
                    assert(self.sessions@[k as int].id@ == id@);
                }
            },
        }
        let mut m: usize = 0;
        let mut i: usize = 0;
        while i < self.sessions.len()
            invariant
                i <= self.sessions@.len(),
                forall|j: int| 0 <= j < i ==> (#[trigger] self.sessions@[j]).id@.len() <= m,
            decreases self.sessions@.len() - i,
        {
            let n = self.sessions[i].id.as_str().unicode_len();
            if n > m {
                m = n;
            }
            i = i + 1;
        }
        let r = extend_past(id, m);
        assert forall|j: int| 0 <= j < self.sessions@.len() implies (#[trigger] self.sessions@[j]).id@
            != r@ by {
            assert(self.sessions@[j].id@.len() <= m);
        }
        r
    }

    /// How many sessions of named (not guest) players come from an address.
    pub fn count_named_for_ip(&self, ip: &str) -> (r: usize)
        ensures
            r == named_count(self.sessions@, ip@, self.sessions@.len() as int),
    {
        let mut count: usize = 0;
        let mut i: usize = 0;
        while i < self.sessions.len()
            invariant
                i <= self.sessions@.len(),
                count == named_count(self.sessions@, ip@, i as int),
                count <= i,
            decreases self.sessions@.len() - i,
        {
            if same_text(self.sessions[i].ip_address.as_str(), ip) && !guest_text(
                self.sessions[i].player_id.as_str(),
            ) {
                count = count + 1;
            }
            i = i + 1;
        }
        count
    }

    /// Opens a session for a named player at time `now` under the identifier
    /// `session_id` (lengthened if it is taken). A player's active session is
    /// reused, with its activity refreshed. Otherwise an address may hold at
    /// most 5 sessions of named players and 10 in all; the new session gets a
    /// bucket of 60 tokens refilled by one a second and replaces the player's
    /// expired one.
    pub fn create_session_at(
        &mut self,
        player_id: String,
        ip: String,
        user_agent: Option<String>,
        session_id: String,
        now: u64,
    ) -> (r: ChessResult<String>)
        ensures
            final(self).timeout_secs == old(self).timeout_secs,
            session_created(
                old(self).sessions@,
                final(self).sessions@,
                old(self).timeout_secs,
                player_id@,
                ip@,
                user_agent,
                session_id@,
                now,
                r,
            ),
            ids_unique(old(self).sessions@) ==> ids_unique(final(self).sessions@),
    {
        match self.find_player(player_id.as_str()) {
            Some(k) => {
                if !self.sessions[k].is_expired_at(self.timeout_secs, now) {
                    let mut s = self.sessions.remove(k);
                    s.last_activity = now;
                    let id = s.id.clone();
                    self.sessions.insert(k, s);
                    assert(self.sessions@ =~= old(self).sessions@.update(k as int, s));
                    proof {
                        if ids_unique(old(self).sessions@) {
                            assert forall|a: int, b: int|
                                0 <= a < b < self.sessions@.len() implies #[trigger] self.sessions@[a].id@
                                != #[trigger] self.sessions@[b].id@ by {
                                assert(old(self).sessions@[a].id@ != old(self).sessions@[b].id@);
                            }
                        }
                    }
                    return Ok(id);
                }
            },
            None => {},
        }
        if self.count_named_for_ip(ip.as_str()) >= 5 {
            return Err(ChessServerError::TooManyGames { player_id: ip });
        }
        if self.count_for_ip(ip.as_str()) >= 10 {
            return Err(ChessServerError::ServerOverloaded);
        }
        let fresh = self.fresh_id(session_id);
        let mut session = Session::create(fresh, player_id, ip, user_agent, now);
        session.set_rate_limiter_at(60 * MILLI, MILLI, now);
        let id = session.id.clone();
        let ghost before = self.sessions@;
        let removed = self.find_player(session.player_id.as_str());
        match removed {
            Some(k) => {
                self.sessions.remove(k);
            },
            None => {},
        }
        let ghost kept = self.sessions@;
        proof {
            assert forall|j: int| 0 <= j < kept.len() implies (#[trigger] kept[j]).id@ != session.id@ by {
                if removed is Some {
                    let k = removed->0 as int;
                    if j < k {
                        assert(kept[j] == before[j]);
                    } else {
                        assert(kept[j] == before[j + 1]);
                    }
                } else {
                    assert(kept[j] == before[j]);
                }
            }
            if ids_unique(before) {
                assert forall|a: int, b: int| 0 <= a < b < kept.len() implies #[trigger] kept[a].id@
                    != #[trigger] kept[b].id@ by {
                    if removed is Some {
                        let k = removed->0 as int;
                        let a2 = if a < k { a } else { a + 1 };
                        let b2 = if b < k { b } else { b + 1 };
                        assert(kept[a] == before[a2] && kept[b] == before[b2]);
                        assert(before[a2].id@ != before[b2].id@);
                    } else {
                        assert(before[a].id@ != before[b].id@);
                    }
                }
            }
        }
        self.sessions.push(session);
        proof {
            if ids_unique(before) {
                assert forall|a: int, b: int|
                    0 <= a < b < self.sessions@.len() implies #[trigger] self.sessions@[a].id@
                    != #[trigger] self.sessions@[b].id@ by {
                    if b == kept.len() {
                        assert(self.sessions@[a] == kept[a]);
                    } else {
                        assert(kept[a].id@ != kept[b].id@);
                    }
                }
            }
            assert(self.sessions@.drop_last() =~= kept);
        }
        Ok(id)
    }

    /// Opens a session for a player, under a fresh identifier, now.
    pub fn create_session(&mut self, player_id: String, ip: String, user_agent: Option<String>) -> (r:
        ChessResult<String>)
        ensures
            final(self).timeout_secs == old(self).timeout_secs,
            named_count(old(self).sessions@, ip@, old(self).sessions@.len() as int) < 5 && ip_count(
                old(self).sessions@,
                ip@,
                old(self).sessions@.len() as int,
            ) < 10 ==> r is Ok,
            exists|sid: Seq<char>, now: u64|
                session_created(
                    old(self).sessions@,
                    final(self).sessions@,
                    old(self).timeout_secs,
                    player_id@,
                    ip@,
                    user_agent,
                    sid,
                    now,
                    r,
                ),
            ids_unique(old(self).sessions@) ==> ids_unique(final(self).sessions@),
    {
        let id = generate_id();
        let now = current_timestamp();
        let ghost sid = id@;
        let r = self.create_session_at(player_id, ip, user_agent, id, now);
        assert(session_created(
            old(self).sessions@,
            self.sessions@,
            old(self).timeout_secs,
            player_id@,
            ip@,
            user_agent,
            sid,
            now,
            r,
        ));
        r
    }

    /// Opens a guest session at time `now` (its identifier lengthened if it is
    /// taken); an address may hold at most 10 sessions. The guest gets a
    /// bucket of 30 tokens refilled by one every two seconds.
    pub fn create_guest_session_at(&mut self, session: Session, now: u64) -> (r: ChessResult<
        String,
    >)
        ensures
            final(self).timeout_secs == old(self).timeout_secs,
            if ip_count(old(self).sessions@, session.ip_address@, old(self).sessions@.len() as int)
                >= 10 {
                r == Err::<String, ChessServerError>(ChessServerError::ServerOverloaded)
                    && final(self).sessions@ == old(self).sessions@
            } else {
                &&& r matches Ok(id) && id@ == final(self).sessions@.last().id@
                &&& id_free(old(self).sessions@, final(self).sessions@.last().id@)
                &&& id_free(old(self).sessions@, session.id@) ==> final(self).sessions@.last().id@
                    == session.id@
                &&& final(self).sessions@.len() == old(self).sessions@.len() + 1
                &&& final(self).sessions@.drop_last() == old(self).sessions@
                &&& final(self).sessions@.last().player_id == session.player_id
                &&& final(self).sessions@.last().ip_address == session.ip_address
                &&& final(self).sessions@.last().is_authenticated == session.is_authenticated
                &&& final(self).sessions@.last().permissions == session.permissions
                &&& final(self).sessions@.last().rate_limiter == Some(
                    RateLimiterState {
                        tokens: 30000,
                        capacity: 30000,
                        refill_rate: 500,
                        last_refill: now,
                    },
                )
            },
            ids_unique(old(self).sessions@) ==> ids_unique(final(self).sessions@),
    {
        let count = self.count_for_ip(session.ip_address.as_str());
        if count >= 10 {
            return Err(ChessServerError::ServerOverloaded);
        }
        let mut session = session;
        let given = session.id;
        session.id = self.fresh_id(given);
        session.set_rate_limiter_at(30 * MILLI, MILLI / 2, now);
        let id = session.id.clone();
        self.sessions.push(session);
        proof {
            assert(self.sessions@.drop_last() =~= old(self).sessions@);
            if ids_unique(old(self).sessions@) {
                assert forall|a: int, b: int|
                    0 <= a < b < self.sessions@.len() implies #[trigger] self.sessions@[a].id@
                    != #[trigger] self.sessions@[b].id@ by {
                    if b == old(self).sessions@.len() {
                        assert(self.sessions@[a] == old(self).sessions@[a]);
                    } else {
                        assert(old(self).sessions@[a].id@ != old(self).sessions@[b].id@);
                    }
                }
            }
        }
        Ok(id)
    }

    /// Opens a guest session now: a fresh `guest_` player with guest rights.
    pub fn create_guest_session(&mut self, ip: String, user_agent: Option<String>) -> (r:
        ChessResult<String>)
        ensures
            final(self).timeout_secs == old(self).timeout_secs,
            if ip_count(old(self).sessions@, ip@, old(self).sessions@.len() as int) >= 10 {
                r == Err::<String, ChessServerError>(ChessServerError::ServerOverloaded)
                    && final(self).sessions@ == old(self).sessions@
            } else {
                &&& r matches Ok(id) && id@ == final(self).sessions@.last().id@
                &&& id_free(old(self).sessions@, final(self).sessions@.last().id@)
                &&& final(self).sessions@.len() == old(self).sessions@.len() + 1
                &&& final(self).sessions@.drop_last() == old(self).sessions@
                &&& guest_id(final(self).sessions@.last().player_id@)
                &&& final(self).sessions@.last().ip_address@ == ip@
                &&& !final(self).sessions@.last().is_authenticated
                &&& final(self).sessions@.last().permissions == SessionPermissions::of(
                    false,
                    true,
                    true,
                    false,
                    false,
                    false,
                )
                &&& exists|now: u64|
                    final(self).sessions@.last().rate_limiter == Some(
                        RateLimiterState {
                            tokens: 30000,
                            capacity: 30000,
                            refill_rate: 500,
                            last_refill: now,
                        },
                    )
            },
            ids_unique(old(self).sessions@) ==> ids_unique(final(self).sessions@),
    {
        let session = Session::guest(ip, user_agent);
        let now = current_timestamp();
        let r = self.create_guest_session_at(session, now);
        proof {
            if ip_count(old(self).sessions@, ip@, old(self).sessions@.len() as int) < 10 {
                assert(self.sessions@.last().rate_limiter == Some(
                    RateLimiterState {
                        tokens: 30000,
                        capacity: 30000,
                        refill_rate: 500,
                        last_refill: now,
                    },
                ));
            }
        }
        r
    }

    pub fn get_session(&self, session_id: &str) -> (r: Option<&Session>)
        ensures
            match session_index(self.sessions@, session_id@, 0) {
                Some(i) => r matches Some(s) && *s == self.sessions@[i],
                None => r is None,
            },
    {
        match self.find(session_id) {
            Some(i) => Some(&self.sessions[i]),
            None => None,
        }
    }

    pub fn get_session_mut(&mut self, session_id: &str) -> (r: Option<&mut Session>)
        ensures
            match session_index(old(self).sessions@, session_id@, 0) {
                Some(i) => r is Some && *r->0 == old(self).sessions@[i] && final(self).sessions@
                    == old(self).sessions@.update(i, *final(r->0)) && final(self).timeout_secs
                    == old(self).timeout_secs,
                None => r is None && *final(self) == *old(self),
            },
    {
        match self.find(session_id) {
            Some(i) => Some(&mut self.sessions[i]),
            None => None,
        }
    }

    pub fn get_session_by_player(&self, player_id: &str) -> (r: Option<&Session>)
        ensures
            match player_index(self.sessions@, player_id@, 0) {
                Some(i) => r matches Some(s) && *s == self.sessions@[i],
                None => r is None,
            },
    {
        match self.find_player(player_id) {
            Some(i) => Some(&self.sessions[i]),
            None => None,
        }
    }

    pub fn get_session_by_player_mut(&mut self, player_id: &str) -> (r: Option<&mut Session>)
        ensures
            match player_index(old(self).sessions@, player_id@, 0) {
                Some(i) => r is Some && *r->0 == old(self).sessions@[i] && final(self).sessions@
                    == old(self).sessions@.update(i, *final(r->0)) && final(self).timeout_secs
                    == old(self).timeout_secs,
                None => r is None && *final(self) == *old(self),
            },
    {
        match self.find_player(player_id) {
            Some(i) => Some(&mut self.sessions[i]),
            None => None,
        }
    }

    /// Binds a session to a player; an unknown session is an error.
    pub fn authenticate_session(&mut self, session_id: &str, player_id: String) -> (r:
        ChessResult<()>)
        ensures
            match session_index(old(self).sessions@, session_id@, 0) {
                Some(i) => {
                    &&& r is Ok
                    &&& final(self).sessions@.len() == old(self).sessions@.len()
                    &&& final(self).sessions@[i].player_id == player_id
                    &&& final(self).sessions@[i].is_authenticated
                    &&& final(self).sessions@[i].permissions == SessionPermissions::of(
                        true,
                        true,
                        true,
                        true,
                        false,
                        false,
                    )
                    &&& final(self).sessions@[i].id == old(self).sessions@[i].id
                    &&& forall|j: int|
                        0 <= j < old(self).sessions@.len() && j != i ==> final(self).sessions@[j]
                            == old(self).sessions@[j]
                },
                None => r matches Err(ChessServerError::PlayerNotFound { .. })
                    && final(self).sessions@ == old(self).sessions@,
            },
            final(self).timeout_secs == old(self).timeout_secs,
            ids_unique(old(self).sessions@) ==> ids_unique(final(self).sessions@),
    {
        match self.find(session_id) {
            Some(i) => {
                let mut s = self.sessions.remove(i);
                s.authenticate(player_id);
                self.sessions.insert(i, s);
                assert(self.sessions@ =~= old(self).sessions@.update(i as int, s));
                Ok(())
            },
            None => Err(ChessServerError::PlayerNotFound { player_id: session_id.to_owned() }),
        }
    }

    /// Refreshes the activity time of a session to now; nothing else changes.
    pub fn update_session_activity(&mut self, session_id: &str) -> (r: ChessResult<()>)
        ensures
            match session_index(old(self).sessions@, session_id@, 0) {
                Some(i) => r is Ok && final(self).sessions@ == old(self).sessions@.update(
                    i,
                    Session {
                        last_activity: final(self).sessions@[i].last_activity,
                        ..old(self).sessions@[i]
                    },
                ),
                None => (r matches Err(ChessServerError::PlayerNotFound { .. }))
                    && final(self).sessions@ == old(self).sessions@,
            },
            final(self).timeout_secs == old(self).timeout_secs,
            ids_unique(old(self).sessions@) ==> ids_unique(final(self).sessions@),
    {
        match self.find(session_id) {
            Some(i) => {
                let mut s = self.sessions.remove(i);
                s.last_activity = current_timestamp();
                self.sessions.insert(i, s);
                assert(self.sessions@ =~= old(self).sessions@.update(i as int, s));
                Ok(())
            },
            None => Err(ChessServerError::PlayerNotFound { player_id: session_id.to_owned() }),
        }
    }

    /// Takes a session out and returns it.
    pub fn remove_session(&mut self, session_id: &str) -> (r: Option<Session>)
        ensures
            match session_index(old(self).sessions@, session_id@, 0) {
                Some(i) => r == Some(old(self).sessions@[i]) && final(self).sessions@ == old(
                    self,
                ).sessions@.remove(i),
                None => r is None && final(self).sessions@ == old(self).sessions@,
            },
            final(self).timeout_secs == old(self).timeout_secs,
            ids_unique(old(self).sessions@) ==> ids_unique(final(self).sessions@),
    {
        match self.find(session_id) {
            Some(i) => {
                let s = self.sessions.remove(i);
                proof {
                    if ids_unique(old(self).sessions@) {
                        assert forall|a: int, b: int|
                            0 <= a < b < self.sessions@.len() implies #[trigger] self.sessions@[a].id@
                            != #[trigger] self.sessions@[b].id@ by {
                            let a2 = if a < i { a } else { a + 1 };
                            let b2 = if b < i { b } else { b + 1 };
                            assert(self.sessions@[a] == old(self).sessions@[a2]);
                            assert(self.sessions@[b] == old(self).sessions@[b2]);
                            assert(old(self).sessions@[a2].id@ != old(self).sessions@[b2].id@);
                        }
                    }
                }
                Some(s)
            },
            None => None,
        }
    }

    /// Removes every session expired at `now`, keeping the others in order,
    /// and returns how many went.
    pub fn cleanup_expired_sessions_at(&mut self, now: u64) -> (r: usize)
        ensures
            final(self).sessions@ == live(old(self).sessions@, old(self).timeout_secs, now),
            r == expired_count(old(self).sessions@, old(self).timeout_secs, now),
            final(self).sessions@.len() == old(self).sessions@.len() - r,
            final(self).timeout_secs == old(self).timeout_secs,
            ids_unique(old(self).sessions@) ==> ids_unique(final(self).sessions@),
    {
        let ghost orig = self.sessions@;
        let timeout = self.timeout_secs;
        let n = self.sessions.len();
        let mut rest: Vec<Session> = Vec::new();
        std::mem::swap(&mut rest, &mut self.sessions);
        let mut count: usize = 0;
        proof {
            lemma_live_and_expired_partition(orig, timeout, now);
        }
        while rest.len() > 0
            invariant
                timeout == self.timeout_secs,
                timeout == old(self).timeout_secs,
                orig == old(self).sessions@,
                self.sessions@ + live(rest@, timeout, now) == live(orig, timeout, now),
                count + expired_count(rest@, timeout, now) == expired_count(orig, timeout, now),
                expired_count(orig, timeout, now) <= orig.len(),
                orig.len() == n,
            decreases rest@.len(),
        {
            let ghost before = rest@;
            let s = rest.remove(0);
            assert(rest@ == before.drop_first());
            assert(before[0] == s);
            if s.is_expired_at(timeout, now) {
                count = count + 1;
            } else {
                let ghost kept = self.sessions@;
                self.sessions.push(s);
                assert(self.sessions@ + live(rest@, timeout, now) =~= kept + live(
                    before,
                    timeout,
                    now,
                ));
            }
        }
        proof {
            assert(self.sessions@ =~= live(orig, timeout, now));
            lemma_live_and_expired_partition(orig, timeout, now);
            if ids_unique(orig) {
                lemma_live_unique(orig, timeout, now);
            }
        }
        count
    }

    pub fn cleanup_expired_sessions(&mut self) -> (r: usize)
        ensures
            exists|now: u64|
                final(self).sessions@ == live(old(self).sessions@, old(self).timeout_secs, now) && r
                    == expired_count(old(self).sessions@, old(self).timeout_secs, now),
            final(self).sessions@.len() == old(self).sessions@.len() - r,
            final(self).timeout_secs == old(self).timeout_secs,
            ids_unique(old(self).sessions@) ==> ids_unique(final(self).sessions@),
    {
        self.cleanup_expired_sessions_at(current_timestamp())
    }

    pub fn get_active_session_count(&self) -> (r: usize)
        ensures
            r == self.sessions@.len(),
    {
        self.sessions.len()
    }

    pub fn get_authenticated_session_count(&self) -> (r: usize)
        ensures
            r == count_where(self.sessions@, |s: Session| s.is_authenticated, self.sessions@.len() as int),
    {
        let mut count: usize = 0;
        let mut i: usize = 0;
        while i < self.sessions.len()
            invariant
                i <= self.sessions@.len(),
                count == count_where(self.sessions@, |s: Session| s.is_authenticated, i as int),
                count <= i,
            decreases self.sessions@.len() - i,
        {
            if self.sessions[i].is_authenticated {
                count = count + 1;
            }
            i = i + 1;
        }
        count
    }

    pub fn get_guest_session_count(&self) -> (r: usize)
        ensures
            r == count_where(
                self.sessions@,
                |s: Session| !s.is_authenticated || guest_id(s.player_id@),
                self.sessions@.len() as int,
            ),
    {
        let mut count: usize = 0;
        let mut i: usize = 0;
        while i < self.sessions.len()
            invariant
                i <= self.sessions@.len(),
                count == count_where(
                    self.sessions@,
                    |s: Session| !s.is_authenticated || guest_id(s.player_id@),
                    i as int,
                ),
                count <= i,
            decreases self.sessions@.len() - i,
        {
            if self.sessions[i].is_guest() {
                count = count + 1;
            }
            i = i + 1;
        }
        count
    }

    /// The sessions from an address, in order.
    pub fn get_sessions_by_ip(&self, ip: &str) -> (r: Vec<&Session>)
        ensures
            r@.len() == ip_count(self.sessions@, ip@, self.sessions@.len() as int),
            forall|k: int| 0 <= k < r@.len() ==> (#[trigger] r@[k]).ip_address@ == ip@,
    {
        let mut found: Vec<&Session> = Vec::new();
        let mut i: usize = 0;
        while i < self.sessions.len()
            invariant
                i <= self.sessions@.len(),
                found@.len() == ip_count(self.sessions@, ip@, i as int),
                forall|k: int| 0 <= k < found@.len() ==> (#[trigger] found@[k]).ip_address@ == ip@,
            decreases self.sessions@.len() - i,
        {
            if same_text(self.sessions[i].ip_address.as_str(), ip) {
                found.push(&self.sessions[i]);
            }
            i = i + 1;
        }
        found
    }

    /// Counts of sessions by kind and their durations by the clock.
    pub fn get_session_statistics(&self) -> (r: SessionStatistics)
        ensures
            r.total_sessions == self.sessions@.len(),
            r.authenticated_sessions == count_where(
                self.sessions@,
                |s: Session| s.is_authenticated,
                self.sessions@.len() as int,
            ),
            r.admin_sessions == count_where(
                self.sessions@,
                |s: Session| s.permissions.is_admin,
                self.sessions@.len() as int,
            ),
            r.moderator_sessions == count_where(
                self.sessions@,
                |s: Session| s.permissions.is_moderator || s.permissions.is_admin,
                self.sessions@.len() as int,
            ),
            r.total_sessions > 0 ==> r.average_session_duration == r.total_session_duration
                / r.total_sessions as u64,
            r.total_sessions == 0 ==> r.average_session_duration == 0,
    {
        let mut admins: usize = 0;
        let mut moderators: usize = 0;
        let mut total_duration: u64 = 0;
        let mut i: usize = 0;
        while i < self.sessions.len()
            invariant
                i <= self.sessions@.len(),
                admins == count_where(self.sessions@, |s: Session| s.permissions.is_admin, i as int),
                moderators == count_where(
                    self.sessions@,
                    |s: Session| s.permissions.is_moderator || s.permissions.is_admin,
                    i as int,
                ),
                admins <= i,
                moderators <= i,
            decreases self.sessions@.len() - i,
        {
            let d = self.sessions[i].duration_secs();
            total_duration = if total_duration <= u64::MAX - d {
                total_duration + d
            } else {
                u64::MAX
            };
            if self.sessions[i].is_admin() {
                admins = admins + 1;
            }
            if self.sessions[i].is_moderator() {
                moderators = moderators + 1;
            }
            i = i + 1;
        }
        let total = self.sessions.len();
        SessionStatistics {
            total_sessions: total,
            authenticated_sessions: self.get_authenticated_session_count(),
            guest_sessions: self.get_guest_session_count(),
            admin_sessions: admins,
            moderator_sessions: moderators,
            total_session_duration: total_duration,
            average_session_duration: if total > 0 {
                total_duration / total as u64
            } else {
                0
            },
        }
    }

    /// Sets every session from the address to banned.
    pub fn ban_ip(&mut self, ip: &str)
        ensures
            final(self).sessions@.len() == old(self).sessions@.len(),
            forall|i: int|
                0 <= i < old(self).sessions@.len() ==> if old(self).sessions@[i].ip_address@ == ip@ {
                    (#[trigger] final(self).sessions@[i]).permissions == SessionPermissions::of(
                        false,
                        false,
                        false,
                        false,
                        false,
                        false,
                    ) && final(self).sessions@[i].id == old(self).sessions@[i].id
                } else {
                    final(self).sessions@[i] == old(self).sessions@[i]
                },
            ids_unique(old(self).sessions@) ==> ids_unique(final(self).sessions@),
    {
        let mut i: usize = 0;
        while i < self.sessions.len()
            invariant
                i <= self.sessions@.len(),
                self.sessions@.len() == old(self).sessions@.len(),
                forall|j: int|
                    0 <= j < old(self).sessions@.len() ==> if j < i && old(
                        self,
                    ).sessions@[j].ip_address@ == ip@ {
                        (#[trigger] self.sessions@[j]).permissions == SessionPermissions::of(
                            false,
                            false,
                            false,
                            false,
                            false,
                            false,
                        ) && self.sessions@[j].id == old(self).sessions@[j].id
                    } else {
                        self.sessions@[j] == old(self).sessions@[j]
                    },
            decreases self.sessions@.len() - i,
        {
            if same_text(self.sessions[i].ip_address.as_str(), ip) {
                let ghost before = self.sessions@;
                let mut s = self.sessions.remove(i);
                s.ban();
                self.sessions.insert(i, s);
                assert(self.sessions@ =~= before.update(i as int, s));
            }
            i = i + 1;
        }
    }
}

} // verus!
