use vstd::prelude::*;

use crate::error::{ChessResult, ChessServerError};
use crate::text::same_text;

verus! {

#[derive(Clone, Copy, Debug, PartialEq, Eq, Structural)]
pub enum ClientState {
    Connecting,
    Connected,
    Authenticated,
    InGame,
    Disconnecting,
    Disconnected,
}

/// What the server knows of one connection.
#[derive(Debug)]
pub struct ClientRecord {
    pub id: String,
    pub session_id: Option<String>,
    pub player_id: Option<String>,
    pub state: ClientState,
    pub connected_at: u64,
    pub last_activity: u64,
    pub bytes_sent: u64,
    pub bytes_received: u64,
    pub messages_sent: u32,
    pub messages_received: u32,
}

/// Totals over the connected clients.
#[derive(Clone, Copy, Debug)]
pub struct ClientStatistics {
    pub total_clients: usize,
    pub connected_clients: usize,
    pub authenticated_clients: usize,
    pub in_game_clients: usize,
    pub disconnected_clients: usize,
    pub total_bytes_sent: u64,
    pub total_bytes_received: u64,
    pub total_messages_sent: u64,
    pub total_messages_received: u64,
    pub total_session_duration: u64,
    pub average_session_duration: u64,
}

pub open spec fn signed_in(s: ClientState) -> bool {
    s == ClientState::Authenticated || s == ClientState::InGame
}

pub open spec fn opt_is(o: Option<String>, t: Seq<char>) -> bool {
    o matches Some(s) && s@ == t
}

/// The first client, from `i` on, that `f` picks.
pub open spec fn first_where(cs: Seq<ClientRecord>, f: spec_fn(ClientRecord) -> bool, i: int) -> Option<int>
    decreases cs.len() - i,
{
    if i < 0 || i >= cs.len() {
        None
    } else if f(cs[i]) {
        Some(i)
    } else {
        first_where(cs, f, i + 1)
    }
}

pub open spec fn add_sat(a: u64, b: u64) -> u64 {
    if a as int + b as int <= u64::MAX as int {
        (a + b) as u64
    } else {
        u64::MAX
    }
}

pub open spec fn bump32(x: u32) -> u32 {
    if x < u32::MAX {
        (x + 1) as u32
    } else {
        x
    }
}

/// No two clients share a connection id.
pub open spec fn client_ids_unique(cs: Seq<ClientRecord>) -> bool {
    forall|a: int, b: int| 0 <= a < b < cs.len() ==> #[trigger] cs[a].id@ != #[trigger] cs[b].id@
}

proof fn lemma_first_where(cs: Seq<ClientRecord>, f: spec_fn(ClientRecord) -> bool, i: int)
    requires
        0 <= i,
    ensures
        first_where(cs, f, i) matches Some(k) ==> i <= k < cs.len() && f(cs[k]),
        first_where(cs, f, i) is None ==> forall|j: int| i <= j < cs.len() ==> !f(#[trigger] cs[j]),
    decreases cs.len() - i,
{
    if i < cs.len() {
        lemma_first_where(cs, f, i + 1);
    }
}

/// The identifiers of the first `n` clients that `f` picks, in order.
pub open spec fn ids_where(cs: Seq<ClientRecord>, f: spec_fn(ClientRecord) -> bool, n: int) -> Seq<Seq<char>>
    decreases n,
{
    if n <= 0 {
        Seq::empty()
    } else {
        ids_where(cs, f, n - 1) + if f(cs[n - 1]) {
            seq![cs[n - 1].id@]
        } else {
            Seq::empty()
        }
    }
}

/// The clients that are not disconnected, in order.
pub open spec fn still_connected(cs: Seq<ClientRecord>) -> Seq<ClientRecord>
    decreases cs.len(),
{
    if cs.len() == 0 {
        Seq::empty()
    } else {
        (if cs[0].state == ClientState::Disconnected {
            Seq::empty()
        } else {
            seq![cs[0]]
        }) + still_connected(cs.drop_first())
    }
}

pub open spec fn views(v: Seq<String>) -> Seq<Seq<char>> {
    v.map_values(|s: String| s@)
}

/// Where the server looks up clients: by connection id, and through the
/// player and session bound to each. Every lookup reads the same records, so
/// removing a client removes it from all three at once.
#[derive(Debug)]
pub struct ClientManager {
    pub clients: Vec<ClientRecord>,
}

impl ClientManager {
    pub open spec fn by_id(self, id: Seq<char>) -> Option<int> {
        first_where(self.clients@, |c: ClientRecord| c.id@ == id, 0)
    }

    pub open spec fn by_player(self, pid: Seq<char>) -> Option<int> {
        first_where(self.clients@, |c: ClientRecord| opt_is(c.player_id, pid), 0)
    }

    pub open spec fn by_session(self, sid: Seq<char>) -> Option<int> {
        first_where(self.clients@, |c: ClientRecord| opt_is(c.session_id, sid), 0)
    }

    pub fn new() -> (r: ClientManager)
        ensures
            r.clients@.len() == 0,
    {
        ClientManager { clients: Vec::new() }
    }

    fn find(&self, id: &str) -> (r: Option<usize>)
        ensures
            r matches Some(i) ==> self.by_id(id@) == Some(i as int) && i < self.clients@.len(),
            r is None ==> self.by_id(id@) is None,
    {
        let ghost f = |c: ClientRecord| c.id@ == id@;
        let mut i: usize = 0;
        while i < self.clients.len()
            invariant
                i <= self.clients@.len(),
                f == (|c: ClientRecord| c.id@ == id@),
                first_where(self.clients@, f, 0) == first_where(self.clients@, f, i as int),
            decreases self.clients@.len() - i,
        {
            if same_text(self.clients[i].id.as_str(), id) {
                return Some(i);
            }
            i = i + 1;
        }
        None
    }

    fn find_player(&self, player_id: &str) -> (r: Option<usize>)
        ensures
            r matches Some(i) ==> self.by_player(player_id@) == Some(i as int) && i < self.clients@.len(),
            r is None ==> self.by_player(player_id@) is None,
    {
        let ghost f = |c: ClientRecord| opt_is(c.player_id, player_id@);
        let mut i: usize = 0;
        while i < self.clients.len()
            invariant
                i <= self.clients@.len(),
                f == (|c: ClientRecord| opt_is(c.player_id, player_id@)),
                first_where(self.clients@, f, 0) == first_where(self.clients@, f, i as int),
            decreases self.clients@.len() - i,
        {
            let hit = match &self.clients[i].player_id {
                Some(p) => same_text(p.as_str(), player_id),
                None => false,
            };
            if hit {
                return Some(i);
            }
            i = i + 1;
        }
        None
    }

    fn find_session(&self, session_id: &str) -> (r: Option<usize>)
        ensures
            r matches Some(i) ==> self.by_session(session_id@) == Some(i as int) && i < self.clients@.len(),
            r is None ==> self.by_session(session_id@) is None,
    {
        let ghost f = |c: ClientRecord| opt_is(c.session_id, session_id@);
        let mut i: usize = 0;
        while i < self.clients.len()
            invariant
                i <= self.clients@.len(),
                f == (|c: ClientRecord| opt_is(c.session_id, session_id@)),
                first_where(self.clients@, f, 0) == first_where(self.clients@, f, i as int),
            decreases self.clients@.len() - i,
        {
            let hit = match &self.clients[i].session_id {
                Some(s) => same_text(s.as_str(), session_id),
                None => false,
            };
            if hit {
                return Some(i);
            }
            i = i + 1;
        }
        None
    }

    /// Registers a client, in place of any client with the same id.
    pub fn add_client(&mut self, client: ClientRecord)
        ensures
            final(self).clients@ == (match old(self).by_id(client.id@) {
                Some(i) => old(self).clients@.remove(i),
                None => old(self).clients@,
            }).push(client),
            client_ids_unique(old(self).clients@) ==> client_ids_unique(final(self).clients@),
    {
        let ghost o = self.clients@;
        let found = self.find(client.id.as_str());
        match found {
            Some(i) => {
                self.clients.remove(i);
            },
            None => {},
        }
        let ghost kept = self.clients@;
        proof {
            let f = |c: ClientRecord| c.id@ == client.id@;
            lemma_first_where(o, f, 0);
            if client_ids_unique(o) {
                assert forall|j: int| 0 <= j < kept.len() implies (#[trigger] kept[j]).id@ != client.id@ by {
                    if found is Some {
                        let k = found->0 as int;
                        let j2 = if j < k { j } else { j + 1 };
                        assert(kept[j] == o[j2]);
                        assert(o[k].id@ == client.id@);
                        if j2 < k {
                            assert(o[j2].id@ != o[k].id@);
                        } else {
                            assert(o[k].id@ != o[j2].id@);
                        }
                    } else {
                        assert(kept[j] == o[j]);
                        assert(!f(o[j]));
                    }
                }
                assert forall|a: int, b: int| 0 <= a < b < kept.len() implies #[trigger] kept[a].id@
                    != #[trigger] kept[b].id@ by {
                    if found is Some {
                        let k = found->0 as int;
                        let a2 = if a < k { a } else { a + 1 };
                        let b2 = if b < k { b } else { b + 1 };
                        assert(kept[a] == o[a2] && kept[b] == o[b2]);
                        assert(o[a2].id@ != o[b2].id@);
                    } else {
                        assert(o[a].id@ != o[b].id@);
                    }
                }
            }
        }
        self.clients.push(client);
        proof {
            if client_ids_unique(o) {
                assert forall|a: int, b: int|
                    0 <= a < b < self.clients@.len() implies #[trigger] self.clients@[a].id@
                    != #[trigger] self.clients@[b].id@ by {
                    if b == kept.len() {
                        assert(self.clients@[a] == kept[a]);
                    } else {
                        assert(kept[a].id@ != kept[b].id@);
                    }
                }
            }
        }
    }

    /// Takes a client out of every lookup and returns it.
    pub fn remove_client(&mut self, id: &str) -> (r: Option<ClientRecord>)
        ensures
            match old(self).by_id(id@) {
                Some(i) => r == Some(old(self).clients@[i]) && final(self).clients@ == old(
                    self,
                ).clients@.remove(i),
                None => r is None && final(self).clients@ == old(self).clients@,
            },
            client_ids_unique(old(self).clients@) ==> client_ids_unique(final(self).clients@),
    {
        match self.find(id) {
            Some(i) => {
                let c = self.clients.remove(i);
                proof {
                    if client_ids_unique(old(self).clients@) {
                        assert forall|a: int, b: int|
                            0 <= a < b < self.clients@.len() implies #[trigger] self.clients@[a].id@
                            != #[trigger] self.clients@[b].id@ by {
                            let a2 = if a < i { a } else { a + 1 };
                            let b2 = if b < i { b } else { b + 1 };
                            assert(self.clients@[a] == old(self).clients@[a2]);
                            assert(self.clients@[b] == old(self).clients@[b2]);
                            assert(old(self).clients@[a2].id@ != old(self).clients@[b2].id@);
                        }
                    }
                }
                Some(c)
            },
            None => None,
        }
    }

    pub fn get_client(&self, id: &str) -> (r: Option<&ClientRecord>)
        ensures
            match self.by_id(id@) {
                Some(i) => r matches Some(c) && *c == self.clients@[i],
                None => r is None,
            },
    {
        match self.find(id) {
            Some(i) => Some(&self.clients[i]),
            None => None,
        }
    }

    pub fn get_client_by_player(&self, player_id: &str) -> (r: Option<&ClientRecord>)
        ensures
            match self.by_player(player_id@) {
                Some(i) => r matches Some(c) && *c == self.clients@[i],
                None => r is None,
            },
    {
        match self.find_player(player_id) {
            Some(i) => Some(&self.clients[i]),
            None => None,
        }
    }

    pub fn get_client_by_session(&self, session_id: &str) -> (r: Option<&ClientRecord>)
        ensures
            match self.by_session(session_id@) {
                Some(i) => r matches Some(c) && *c == self.clients@[i],
                None => r is None,
            },
    {
        match self.find_session(session_id) {
            Some(i) => Some(&self.clients[i]),
            None => None,
        }
    }

    /// Binds a player to a connection; an unknown connection is an error.
    pub fn associate_player(&mut self, id: &str, player_id: String) -> (r: ChessResult<()>)
        ensures
            match old(self).by_id(id@) {
                Some(i) => r is Ok && final(self).clients@ == old(self).clients@.update(
                    i,
                    ClientRecord { player_id: Some(player_id), ..old(self).clients@[i] },
                ),
                None => (r matches Err(ChessServerError::PlayerNotFound { .. }))
                    && final(self).clients@ == old(self).clients@,
            },
            client_ids_unique(old(self).clients@) ==> client_ids_unique(final(self).clients@),
    {
        match self.find(id) {
            Some(i) => {
                let mut c = self.clients.remove(i);
                c.player_id = Some(player_id);
                self.clients.insert(i, c);
                assert(self.clients@ =~= old(self).clients@.update(i as int, c));
                Ok(())
            },
            None => Err(ChessServerError::PlayerNotFound { player_id: id.to_owned() }),
        }
    }

    /// Binds a session to a connection; an unknown connection is an error.
    pub fn associate_session(&mut self, id: &str, session_id: String) -> (r: ChessResult<()>)
        ensures
            match old(self).by_id(id@) {
                Some(i) => r is Ok && final(self).clients@ == old(self).clients@.update(
                    i,
                    ClientRecord { session_id: Some(session_id), ..old(self).clients@[i] },
                ),
                None => (r matches Err(ChessServerError::PlayerNotFound { .. }))
                    && final(self).clients@ == old(self).clients@,
            },
            client_ids_unique(old(self).clients@) ==> client_ids_unique(final(self).clients@),
    {
        match self.find(id) {
            Some(i) => {
                let mut c = self.clients.remove(i);
                c.session_id = Some(session_id);
                self.clients.insert(i, c);
                assert(self.clients@ =~= old(self).clients@.update(i as int, c));
                Ok(())
            },
            None => Err(ChessServerError::PlayerNotFound { player_id: id.to_owned() }),
        }
    }

    /// Sets the state of a connection; an unknown connection is an error.
    pub fn set_state(&mut self, id: &str, state: ClientState) -> (r: ChessResult<()>)
        ensures
            match old(self).by_id(id@) {
                Some(i) => r is Ok && final(self).clients@ == old(self).clients@.update(
                    i,
                    ClientRecord { state, ..old(self).clients@[i] },
                ),
                None => r is Err && final(self).clients@ == old(self).clients@,
            },
            client_ids_unique(old(self).clients@) ==> client_ids_unique(final(self).clients@),
    {
        match self.find(id) {
            Some(i) => {
                let mut c = self.clients.remove(i);
                c.state = state;
                self.clients.insert(i, c);
                assert(self.clients@ =~= old(self).clients@.update(i as int, c));
                Ok(())
            },
            None => Err(ChessServerError::ConnectionLost),
        }
    }

    /// Counts a message of `bytes` bytes read from a connection at `now`.
    pub fn record_received(&mut self, id: &str, bytes: u64, now: u64) -> (r: ChessResult<()>)
        ensures
            match old(self).by_id(id@) {
                Some(i) => r is Ok && final(self).clients@ == old(self).clients@.update(
                    i,
                    ClientRecord {
                        bytes_received: add_sat(old(self).clients@[i].bytes_received, bytes),
                        messages_received: bump32(old(self).clients@[i].messages_received),
                        last_activity: now,
                        ..old(self).clients@[i]
                    },
                ),
                None => r is Err && final(self).clients@ == old(self).clients@,
            },
            client_ids_unique(old(self).clients@) ==> client_ids_unique(final(self).clients@),
    {
        match self.find(id) {
            Some(i) => {
                let mut c = self.clients.remove(i);
                c.bytes_received = add_capped(c.bytes_received, bytes);
                c.messages_received = if c.messages_received < u32::MAX {
                    c.messages_received + 1
                } else {
                    c.messages_received
                };
                c.last_activity = now;
                self.clients.insert(i, c);
                assert(self.clients@ =~= old(self).clients@.update(i as int, c));
                Ok(())
            },
            None => Err(ChessServerError::ConnectionLost),
        }
    }

    /// Counts a message of `bytes` bytes written to a connection at `now`.
    pub fn record_sent(&mut self, id: &str, bytes: u64, now: u64) -> (r: ChessResult<()>)
        ensures
            match old(self).by_id(id@) {
                Some(i) => r is Ok && final(self).clients@ == old(self).clients@.update(
                    i,
                    ClientRecord {
                        bytes_sent: add_sat(old(self).clients@[i].bytes_sent, bytes),
                        messages_sent: bump32(old(self).clients@[i].messages_sent),
                        last_activity: now,
                        ..old(self).clients@[i]
                    },
                ),
                None => r is Err && final(self).clients@ == old(self).clients@,
            },
            client_ids_unique(old(self).clients@) ==> client_ids_unique(final(self).clients@),
    {
        match self.find(id) {
            Some(i) => {
                let mut c = self.clients.remove(i);
                c.bytes_sent = add_capped(c.bytes_sent, bytes);
                c.messages_sent = if c.messages_sent < u32::MAX {
                    c.messages_sent + 1
                } else {
                    c.messages_sent
                };
                c.last_activity = now;
                self.clients.insert(i, c);
                assert(self.clients@ =~= old(self).clients@.update(i as int, c));
                Ok(())
            },
            None => Err(ChessServerError::ConnectionLost),
        }
    }

    /// A message that could not be queued for a client: the client is
    /// being dropped.
    pub fn mark_send_failed(&mut self, id: &str) -> (r: ChessResult<()>)
        ensures
            match old(self).by_id(id@) {
                Some(i) => r is Ok && final(self).clients@ == old(self).clients@.update(
                    i,
                    ClientRecord { state: ClientState::Disconnecting, ..old(self).clients@[i] },
                ),
                None => r is Err && final(self).clients@ == old(self).clients@,
            },
            client_ids_unique(old(self).clients@) ==> client_ids_unique(final(self).clients@),
    {
        self.set_state(id, ClientState::Disconnecting)
    }

    /// The connections a broadcast goes to: every client, in order.
    pub fn broadcast_targets(&self) -> (r: Vec<String>)
        ensures
            views(r@) == ids_where(self.clients@, |c: ClientRecord| true, self.clients@.len() as int),
    {
        let ghost f = |c: ClientRecord| true;
        let mut ids: Vec<String> = Vec::new();
        let mut i: usize = 0;
        while i < self.clients.len()
            invariant
                i <= self.clients@.len(),
                f == (|c: ClientRecord| true),
                views(ids@) == ids_where(self.clients@, f, i as int),
            decreases self.clients@.len() - i,
        {
            ids.push(self.clients[i].id.clone());
            assert(views(ids@) =~= ids_where(self.clients@, f, i + 1));
            i = i + 1;
        }
        ids
    }

    /// The connections of signed-in clients, in order.
    pub fn authenticated_targets(&self) -> (r: Vec<String>)
        ensures
            views(r@) == ids_where(self.clients@, |c: ClientRecord| signed_in(c.state), self.clients@.len() as int),
    {
        let ghost f = |c: ClientRecord| signed_in(c.state);
        let mut ids: Vec<String> = Vec::new();
        let mut i: usize = 0;
        while i < self.clients.len()
            invariant
                i <= self.clients@.len(),
                f == (|c: ClientRecord| signed_in(c.state)),
                views(ids@) == ids_where(self.clients@, f, i as int),
            decreases self.clients@.len() - i,
        {
            let st = self.clients[i].state;
            if st == ClientState::Authenticated || st == ClientState::InGame {
                ids.push(self.clients[i].id.clone());
            }
            assert(views(ids@) =~= ids_where(self.clients@, f, i + 1));
            i = i + 1;
        }
        ids
    }

    /// Drops every disconnected client and returns how many went.
    pub fn cleanup_disconnected_clinets(&mut self) -> (r: usize)
        ensures
            final(self).clients@ == still_connected(old(self).clients@),
            r == old(self).clients@.len() - final(self).clients@.len(),
            client_ids_unique(old(self).clients@) ==> client_ids_unique(final(self).clients@),
    {
        let ghost orig = self.clients@;
        let n = self.clients.len();
        let mut rest: Vec<ClientRecord> = Vec::new();
        std::mem::swap(&mut rest, &mut self.clients);
        proof {
            lemma_still_connected_len(orig);
        }
        while rest.len() > 0
            invariant
                orig == old(self).clients@,
                orig.len() == n,
                self.clients@ + still_connected(rest@) == still_connected(orig),
                self.clients@.len() + rest@.len() <= n,
            decreases rest@.len(),
        {
            let ghost before = rest@;
            let c = rest.remove(0);
            assert(rest@ == before.drop_first());
            assert(before[0] == c);
            proof {
                lemma_still_connected_len(rest@);
            }
            if c.state != ClientState::Disconnected {
                let ghost kept = self.clients@;
                self.clients.push(c);
                assert(self.clients@ + still_connected(rest@) =~= kept + still_connected(before));
            }
        }
        assert(self.clients@ =~= still_connected(orig));
        proof {
            lemma_still_connected_len(orig);
            if client_ids_unique(orig) {
                lemma_connected_unique(orig);
            }
        }
        n - self.clients.len()
    }

    /// Marks a connection as closed; an unknown connection is an error.
    pub fn disconnect_client(&mut self, id: &str) -> (r: ChessResult<()>)
        ensures
            match old(self).by_id(id@) {
                Some(i) => r is Ok && final(self).clients@ == old(self).clients@.update(
                    i,
                    ClientRecord { state: ClientState::Disconnected, ..old(self).clients@[i] },
                ),
                None => r is Err && final(self).clients@ == old(self).clients@,
            },
            client_ids_unique(old(self).clients@) ==> client_ids_unique(final(self).clients@),
    {
        self.set_state(id, ClientState::Disconnected)
    }

    /// Marks the connection of a player as closed.
    pub fn disconnect_player(&mut self, player_id: &str) -> (r: ChessResult<()>)
        ensures
            match old(self).by_player(player_id@) {
                Some(i) => r is Ok && final(self).clients@ == old(self).clients@.update(
                    i,
                    ClientRecord { state: ClientState::Disconnected, ..old(self).clients@[i] },
                ),
                None => (r matches Err(ChessServerError::PlayerNotFound { .. }))
                    && final(self).clients@ == old(self).clients@,
            },
            client_ids_unique(old(self).clients@) ==> client_ids_unique(final(self).clients@),
    {
        match self.find_player(player_id) {
            Some(i) => {
                let mut c = self.clients.remove(i);
                c.state = ClientState::Disconnected;
                self.clients.insert(i, c);
                assert(self.clients@ =~= old(self).clients@.update(i as int, c));
                Ok(())
            },
            None => Err(ChessServerError::PlayerNotFound { player_id: player_id.to_owned() }),
        }
    }

    /// How many clients are signed in.
    pub fn get_authenticated_client_count(&self) -> (r: usize)
        ensures
            r == ids_where(self.clients@, |c: ClientRecord| signed_in(c.state), self.clients@.len() as int).len(),
    {
        self.authenticated_targets().len()
    }

    pub fn get_client_count(&self) -> (r: usize)
        ensures
            r == self.clients@.len(),
    {
        self.clients.len()
    }

    /// The connections in a given state, in order.
    pub fn get_clients_by_state(&self, state: ClientState) -> (r: Vec<String>)
        ensures
            views(r@) == ids_where(self.clients@, |c: ClientRecord| c.state == state, self.clients@.len() as int),
    {
        let ghost f = |c: ClientRecord| c.state == state;
        let mut ids: Vec<String> = Vec::new();
        let mut i: usize = 0;
        while i < self.clients.len()
            invariant
                i <= self.clients@.len(),
                f == (|c: ClientRecord| c.state == state),
                views(ids@) == ids_where(self.clients@, f, i as int),
            decreases self.clients@.len() - i,
        {
            if self.clients[i].state == state {
                ids.push(self.clients[i].id.clone());
            }
            assert(views(ids@) =~= ids_where(self.clients@, f, i + 1));
            i = i + 1;
        }
        ids
    }

    /// Totals over the clients at time `now`; sums stop at their largest
    /// value.
    pub fn get_client_statistics(&self, now: u64) -> (r: ClientStatistics)
        ensures
            r.total_clients == self.clients@.len(),
            r.total_clients > 0 ==> r.average_session_duration == r.total_session_duration
                / r.total_clients as u64,
            r.total_clients == 0 ==> r.average_session_duration == 0,
            r.connected_clients + r.authenticated_clients + r.in_game_clients
                + r.disconnected_clients <= r.total_clients,
    {
        let mut s = ClientStatistics {
            total_clients: self.clients.len(),
            connected_clients: 0,
            authenticated_clients: 0,
            in_game_clients: 0,
            disconnected_clients: 0,
            total_bytes_sent: 0,
            total_bytes_received: 0,
            total_messages_sent: 0,
            total_messages_received: 0,
            total_session_duration: 0,
            average_session_duration: 0,
        };
        let mut i: usize = 0;
        while i < self.clients.len()
            invariant
                i <= self.clients@.len(),
                s.total_clients == self.clients@.len(),
                s.average_session_duration == 0,
                s.connected_clients + s.authenticated_clients + s.in_game_clients
                    + s.disconnected_clients <= i,
            decreases self.clients@.len() - i,
        {
            let c = &self.clients[i];
            s.total_bytes_sent = add_capped(s.total_bytes_sent, c.bytes_sent);
            s.total_bytes_received = add_capped(s.total_bytes_received, c.bytes_received);
            s.total_messages_sent = add_capped(s.total_messages_sent, c.messages_sent as u64);
            s.total_messages_received = add_capped(
                s.total_messages_received,
                c.messages_received as u64,
            );
            match c.state {
                ClientState::Connected => s.connected_clients = s.connected_clients + 1,
                ClientState::Authenticated => s.authenticated_clients = s.authenticated_clients + 1,
                ClientState::InGame => s.in_game_clients = s.in_game_clients + 1,
                ClientState::Disconnected => s.disconnected_clients = s.disconnected_clients + 1,
                _ => {},
            }
            let d = if now > c.connected_at {
                now - c.connected_at
            } else {
                0
            };
            s.total_session_duration = add_capped(s.total_session_duration, d);
            i = i + 1;
        }
        if s.total_clients > 0 {
            s.average_session_duration = s.total_session_duration / s.total_clients as u64;
        }
        s
    }
}

fn add_capped(a: u64, b: u64) -> (r: u64)
    ensures
        r as int == if a as int + b as int <= u64::MAX as int {
            a as int + b as int
        } else {
            u64::MAX as int
        },
{
    if a <= u64::MAX - b {
        a + b
    } else {
        u64::MAX
    }
}

proof fn lemma_connected_members(ss: Seq<ClientRecord>)
    ensures
        forall|k: int| 0 <= k < still_connected(ss).len() ==> ss.contains(#[trigger] still_connected(ss)[k]),
    decreases ss.len(),
{
    if ss.len() > 0 {
        let rest = ss.drop_first();
        lemma_connected_members(rest);
        let h = still_connected(ss).len() - still_connected(rest).len();
        assert forall|k: int| 0 <= k < still_connected(ss).len() implies ss.contains(
            #[trigger] still_connected(ss)[k],
        ) by {
            if k < h {
                assert(still_connected(ss)[k] == ss[0]);
            } else {
                assert(still_connected(ss)[k] == still_connected(rest)[k - h]);
                let j = choose|j: int| 0 <= j < rest.len() && rest[j] == still_connected(rest)[k - h];
                assert(ss[j + 1] == rest[j]);
            }
        }
    }
}

/// Dropping entries keeps identifiers unique.
proof fn lemma_connected_unique(ss: Seq<ClientRecord>)
    requires
        client_ids_unique(ss),
    ensures
        client_ids_unique(still_connected(ss)),
    decreases ss.len(),
{
    if ss.len() > 0 {
        let rest = ss.drop_first();
        assert(client_ids_unique(rest)) by {
            assert forall|a: int, b: int| 0 <= a < b < rest.len() implies #[trigger] rest[a].id@
                != #[trigger] rest[b].id@ by {
                assert(ss[a + 1].id@ != ss[b + 1].id@);
            }
        }
        lemma_connected_unique(rest);
        lemma_connected_members(rest);
        let l = still_connected(ss);
        let lr = still_connected(rest);
        let h = l.len() - lr.len();
        assert forall|a: int, b: int| 0 <= a < b < l.len() implies #[trigger] l[a].id@ != #[trigger] l[b].id@ by {
            if a < h {
                assert(l[a] == ss[0]);
                assert(l[b] == lr[b - h]);
                assert(rest.contains(lr[b - h]));
                let j = choose|j: int| 0 <= j < rest.len() && rest[j] == lr[b - h];
                assert(ss[0].id@ != ss[j + 1].id@);
            } else {
                assert(l[a] == lr[a - h] && l[b] == lr[b - h]);
            }
        }
    }
}

proof fn lemma_still_connected_len(cs: Seq<ClientRecord>)
    ensures
        still_connected(cs).len() <= cs.len(),
    decreases cs.len(),
{
    if cs.len() > 0 {
        lemma_still_connected_len(cs.drop_first());
    }
}

/// Counters the server keeps while it runs.
#[derive(Clone, Copy, Debug, PartialEq, Eq, Structural)]
pub struct ServerStatistics {
    pub start_time: u64,
    pub total_connections: u64,
    pub peak_concurrent_connections: usize,
    pub total_games_created: u64,
    pub total_moves_player: u64,
    pub total_messages_processed: u64,
    pub uptime_seconds: u64,
}

pub open spec fn inc(x: u64) -> u64 {
    if x < u64::MAX {
        (x + 1) as u64
    } else {
        x
    }
}

fn inc_u64(x: u64) -> (r: u64)
    ensures
        r == inc(x),
{
    if x < u64::MAX {
        x + 1
    } else {
        x
    }
}

impl ServerStatistics {
    /// All counters at zero, for a server started at `start_time`.
    pub fn started_at(start_time: u64) -> (r: ServerStatistics)
        ensures
            r == (ServerStatistics {
                start_time,
                total_connections: 0,
                peak_concurrent_connections: 0,
                total_games_created: 0,
                total_moves_player: 0,
                total_messages_processed: 0,
                uptime_seconds: 0,
            }),
    {
        ServerStatistics {
            start_time,
            total_connections: 0,
            peak_concurrent_connections: 0,
            total_games_created: 0,
            total_moves_player: 0,
            total_messages_processed: 0,
            uptime_seconds: 0,
        }
    }

    /// A connection was accepted while `current` clients are connected.
    pub fn record_connection(&mut self, current: usize)
        ensures
            *final(self) == (ServerStatistics {
                total_connections: inc(old(self).total_connections),
                peak_concurrent_connections: if current > old(self).peak_concurrent_connections {
                    current
                } else {
                    old(self).peak_concurrent_connections
                },
                ..*old(self)
            }),
    {
        self.total_connections = inc_u64(self.total_connections);
        if current > self.peak_concurrent_connections {
            self.peak_concurrent_connections = current;
        }
    }

    pub fn record_message(&mut self)
        ensures
            *final(self) == (ServerStatistics {
                total_messages_processed: inc(old(self).total_messages_processed),
                ..*old(self)
            }),
    {
        self.total_messages_processed = inc_u64(self.total_messages_processed);
    }

    pub fn record_game_created(&mut self)
        ensures
            *final(self) == (ServerStatistics {
                total_games_created: inc(old(self).total_games_created),
                ..*old(self)
            }),
    {
        self.total_games_created = inc_u64(self.total_games_created);
    }

    pub fn record_move(&mut self)
        ensures
            *final(self) == (ServerStatistics {
                total_moves_player: inc(old(self).total_moves_player),
                ..*old(self)
            }),
    {
        self.total_moves_player = inc_u64(self.total_moves_player);
    }

    /// Sets the uptime as seen at time `now`.
    pub fn refresh_uptime(&mut self, now: u64)
        ensures
            *final(self) == (ServerStatistics {
                uptime_seconds: if now >= old(self).start_time {
                    (now - old(self).start_time) as u64
                } else {
                    0
                },
                ..*old(self)
            }),
    {
        self.uptime_seconds = if now >= self.start_time {
            now - self.start_time
        } else {
            0
        };
    }
}

} // verus!
