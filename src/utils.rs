use vstd::prelude::*;

use crate::text::{decimal, digit, push_char, push_decimal};

verus! {

/// Relies on `SystemTime::elapsed` from the Unix epoch: whole seconds since
/// then, or 0 if the clock stands before it. Nothing is known of the value.
#[verifier::external_body]
pub fn current_timestamp() -> (r: u64) {
    std::time::UNIX_EPOCH.elapsed().map_or(0, |d| d.as_secs())
}

/// Relies on `uuid::Uuid::new_v4` and its `simple` form: a random identifier
/// written as 32 lower-case hexadecimal digits.
#[verifier::external_body]
pub fn generate_id() -> (r: String)
    ensures
        r@.len() == 32,
        forall|i: int| 0 <= i < 32 ==> #[trigger] is_hex_digit(r@[i]),
{
    uuid::Uuid::new_v4().simple().to_string()
}

pub open spec fn is_hex_digit(c: char) -> bool {
    ('0' <= c && c <= '9') || ('a' <= c && c <= 'f')
}

/// The first `n` characters of a text, or all of it if it is shorter.
pub open spec fn prefix(s: Seq<char>, n: int) -> Seq<char> {
    if n >= s.len() {
        s
    } else {
        s.take(n)
    }
}

/// A short identifier: the first 8 characters of a fresh `generate_id`.
pub fn generate_short_id() -> (r: String)
    ensures
        r@.len() == 8,
        forall|i: int| 0 <= i < 8 ==> #[trigger] is_hex_digit(r@[i]),
{
    let id = generate_id();
    let mut s = String::new();
    let mut i: usize = 0;
    while i < 8
        invariant
            i <= 8,
            id@.len() == 32,
            forall|j: int| 0 <= j < 32 ==> #[trigger] is_hex_digit(id@[j]),
            s@ == id@.take(i as int),
        decreases 8 - i,
    {
        push_char(&mut s, id.as_str().get_char(i));
        assert(s@ =~= id@.take(i + 1));
        i = i + 1;
    }
    s
}

/// What `str::trim` leaves of a text.
pub uninterp spec fn trimmed(s: Seq<char>) -> Seq<char>;

/// Whether `char::is_alphanumeric` holds of a character.
pub uninterp spec fn alphanumeric(c: char) -> bool;

/// Relies on `str::trim`: the text without leading and trailing white space.
#[verifier::external_body]
fn trim_text(s: &str) -> (r: &str)
    ensures
        r@ == trimmed(s@),
{
    s.trim()
}

/// Relies on `char::is_alphanumeric`: Unicode letters and numbers.
#[verifier::external_body]
fn is_alphanumeric(c: char) -> (r: bool)
    ensures
        r == alphanumeric(c),
{
    c.is_alphanumeric()
}

pub open spec fn name_char(c: char) -> bool {
    alphanumeric(c) || c == '_' || c == '-'
}

/// The characters of a text that may stand in a player name, in order.
pub open spec fn kept(s: Seq<char>) -> Seq<char>
    decreases s.len(),
{
    if s.len() == 0 {
        Seq::empty()
    } else {
        kept(s.drop_last()) + if name_char(s.last()) {
            seq![s.last()]
        } else {
            Seq::empty()
        }
    }
}

/// Keeps the letters, digits, `_` and `-` of an already trimmed name, at
/// most 20 of them.
pub fn sanitize_trimmed(t: &str) -> (r: String)
    ensures
        r@ == prefix(kept(t@), 20),
{
    let n = t.unicode_len();
    let mut out = String::new();
    let mut count: usize = 0;
    let mut i: usize = 0;
    while i < n
        invariant
            n == t@.len(),
            i <= n,
            out@ == prefix(kept(t@.take(i as int)), 20),
            count == out@.len(),
            count <= 20,
        decreases n - i,
    {
        let c = t.get_char(i);
        assert(t@.take(i + 1).drop_last() =~= t@.take(i as int));
        if count < 20 && (is_alphanumeric(c) || c == '_' || c == '-') {
            push_char(&mut out, c);
            count = count + 1;
        }
        assert(out@ =~= prefix(kept(t@.take(i + 1)), 20));
        i = i + 1;
    }
    assert(t@.take(n as int) =~= t@);
    out
}

/// A player name cleaned for use: trimmed, restricted to letters, digits,
/// `_` and `-`, and cut to 20 characters.
pub open spec fn clean_name(name: Seq<char>) -> Seq<char> {
    prefix(kept(trimmed(name)), 20)
}

pub fn sanitize_player_name(name: &str) -> (r: String)
    ensures
        r@ == clean_name(name@),
{
    sanitize_trimmed(trim_text(name))
}

/// The UTF-8 length of a message.
pub fn message_size_bytes(message: &str) -> (r: usize)
    ensures
        r == message.len(),
{
    message.len()
}

/// The unit a byte count is shown in: 0 for B, 1 for KB, 2 for MB, 3 for GB.
pub open spec fn unit_of(b: nat) -> nat {
    if b < 1024 {
        0
    } else if b < 1048576 {
        1
    } else if b < 1073741824 {
        2
    } else {
        3
    }
}

pub open spec fn unit_size(u: nat) -> nat {
    if u == 0 {
        1
    } else if u == 1 {
        1024
    } else if u == 2 {
        1048576
    } else {
        1073741824
    }
}

pub open spec fn unit_name(u: nat) -> Seq<char> {
    if u == 0 {
        seq!['B']
    } else if u == 1 {
        seq!['K', 'B']
    } else if u == 2 {
        seq!['M', 'B']
    } else {
        seq!['G', 'B']
    }
}

/// `b / d` in tenths, rounded to nearest with ties to even.
pub open spec fn tenths(b: nat, d: nat) -> nat
    recommends
        d > 0,
{
    let q = (b * 10) / d;
    let rem = (b * 10) % d;
    if 2 * rem > d || (2 * rem == d && q % 2 == 1) {
        q + 1
    } else {
        q
    }
}

/// A byte count in the largest unit up to GB that it reaches, with one
/// decimal for units above bytes.
pub open spec fn bytes_text(b: nat) -> Seq<char> {
    let u = unit_of(b);
    if u == 0 {
        decimal(b) + seq![' ', 'B']
    } else {
        let t = tenths(b, unit_size(u));
        decimal(t / 10) + seq!['.', digit(t % 10), ' '] + unit_name(u)
    }
}

pub fn format_bytes(bytes: usize) -> (r: String)
    ensures
        r@ == bytes_text(bytes as nat),
{
    let b = bytes as u128;
    let mut s = String::new();
    if b < 1024 {
        push_decimal(&mut s, bytes as u64);
        push_char(&mut s, ' ');
        push_char(&mut s, 'B');
        assert(s@ =~= bytes_text(bytes as nat));
        return s;
    }
    let (d, u): (u128, u8) = if b < 1048576 {
        (1024, 1)
    } else if b < 1073741824 {
        (1048576, 2)
    } else {
        (1073741824, 3)
    };
    assert(d == unit_size(unit_of(b as nat)) && u == unit_of(b as nat));
    let q = (b * 10) / d;
    let rem = (b * 10) % d;
    let t = if 2 * rem > d || (2 * rem == d && q % 2 == 1) {
        q + 1
    } else {
        q
    };
    assert(t == tenths(b as nat, d as nat));
    assert((b as int * 10) / (d as int) <= (b as int * 10) / 1024) by (nonlinear_arith)
        requires
            d >= 1024,
            b >= 0,
    ;
    push_decimal(&mut s, (t / 10) as u64);
    push_char(&mut s, '.');
    push_char(&mut s, ((48 + t % 10) as u8) as char);
    push_char(&mut s, ' ');
    if u == 1 {
        push_char(&mut s, 'K');
    } else if u == 2 {
        push_char(&mut s, 'M');
    } else {
        push_char(&mut s, 'G');
    }
    push_char(&mut s, 'B');
    assert(s@ =~= bytes_text(bytes as nat));
    s
}

/// A duration in its largest unit up to days, with the next smaller unit when
/// it is not zero: `30s`, `1m 30s`, `1h 1m`, `1d 1h`.
pub open spec fn duration_text(s: nat) -> Seq<char> {
    if s < 60 {
        decimal(s) + seq!['s']
    } else if s < 3600 {
        decimal(s / 60) + seq!['m'] + if s % 60 == 0 {
            Seq::empty()
        } else {
            seq![' '] + decimal(s % 60) + seq!['s']
        }
    } else if s < 86400 {
        decimal(s / 3600) + seq!['h'] + if (s % 3600) / 60 == 0 {
            Seq::empty()
        } else {
            seq![' '] + decimal((s % 3600) / 60) + seq!['m']
        }
    } else {
        decimal(s / 86400) + seq!['d'] + if (s % 86400) / 3600 == 0 {
            Seq::empty()
        } else {
            seq![' '] + decimal((s % 86400) / 3600) + seq!['h']
        }
    }
}

fn push_two_units(s: &mut String, major: u64, major_unit: char, minor: u64, minor_unit: char)
    ensures
        final(s)@ == old(s)@ + decimal(major as nat) + seq![major_unit] + if minor == 0 {
            Seq::empty()
        } else {
            seq![' '] + decimal(minor as nat) + seq![minor_unit]
        },
{
    push_decimal(s, major);
    push_char(s, major_unit);
    if minor != 0 {
        push_char(s, ' ');
        push_decimal(s, minor);
        push_char(s, minor_unit);
    }
    assert(s@ =~= old(s)@ + decimal(major as nat) + seq![major_unit] + if minor == 0 {
        Seq::empty()
    } else {
        seq![' '] + decimal(minor as nat) + seq![minor_unit]
    });
}

pub fn format_duration(seconds: u64) -> (r: String)
    ensures
        r@ == duration_text(seconds as nat),
{
    let mut s = String::new();
    if seconds < 60 {
        push_decimal(&mut s, seconds);
        push_char(&mut s, 's');
    } else if seconds < 3600 {
        push_two_units(&mut s, seconds / 60, 'm', seconds % 60, 's');
    } else if seconds < 86400 {
        push_two_units(&mut s, seconds / 3600, 'h', (seconds % 3600) / 60, 'm');
    } else {
        push_two_units(&mut s, seconds / 86400, 'd', (seconds % 86400) / 3600, 'h');
    }
    assert(s@ =~= duration_text(seconds as nat));
    s
}

/// A text cut to fit `max_len` bytes by the rule: kept whole if its UTF-8
/// length fits; else its first `max_len` characters when `max_len` is below
/// 3; else its first `max_len - 3` characters and `...`.
pub fn truncate_string(s: &str, max_len: usize) -> (r: String)
    ensures
        r@ == (if s.len() <= max_len {
            s@
        } else if max_len < 3 {
            prefix(s@, max_len as int)
        } else {
            prefix(s@, max_len - 3) + seq!['.', '.', '.']
        }),
{
    if s.len() <= max_len {
        return s.to_owned();
    }
    let keep: usize = if max_len < 3 {
        max_len
    } else {
        max_len - 3
    };
    let n = s.unicode_len();
    let mut out = String::new();
    let mut i: usize = 0;
    while i < n && i < keep
        invariant
            n == s@.len(),
            i <= n,
            i <= keep,
            out@ == s@.take(i as int),
        decreases n - i,
    {
        push_char(&mut out, s.get_char(i));
        assert(out@ =~= s@.take(i + 1));
        i = i + 1;
    }
    assert(out@ =~= prefix(s@, keep as int));
    if max_len >= 3 {
        push_char(&mut out, '.');
        push_char(&mut out, '.');
        push_char(&mut out, '.');
        assert(out@ =~= prefix(s@, keep as int) + seq!['.', '.', '.']);
    }
    out
}

pub fn is_valid_port(port: u16) -> (r: bool)
    ensures
        r == (port > 0),
{
    port > 0
}

/// Counters of the server's activity since it started.
#[derive(Clone, Debug)]
pub struct Statistics {
    pub total_connections: u64,
    pub active_connections: u64,
    pub total_games: u64,
    pub active_games: u64,
    pub total_moves: u64,
    pub message_send: u64,
    pub messages_received: u64,
    pub bytes_sent: u64,
    pub bytes_received: u64,
    pub errors: u64,
    pub server_start_time: u64,
}

impl Statistics {
    /// All counters at zero, started now.
    pub fn new() -> (r: Statistics)
        ensures
            r.total_connections == 0 && r.active_connections == 0 && r.total_games == 0
                && r.active_games == 0 && r.total_moves == 0 && r.message_send == 0
                && r.messages_received == 0 && r.bytes_sent == 0 && r.bytes_received == 0
                && r.errors == 0,
    {
        Statistics {
            total_connections: 0,
            active_connections: 0,
            total_games: 0,
            active_games: 0,
            total_moves: 0,
            message_send: 0,
            messages_received: 0,
            bytes_sent: 0,
            bytes_received: 0,
            errors: 0,
            server_start_time: current_timestamp(),
        }
    }

    /// Seconds from `server_start_time` to `now`, or 0 if `now` is earlier.
    pub fn uptime_at(&self, now: u64) -> (r: u64)
        ensures
            r == (if now >= self.server_start_time {
                now - self.server_start_time
            } else {
                0
            }),
    {
        if now >= self.server_start_time {
            now - self.server_start_time
        } else {
            0
        }
    }

    /// Seconds since the server started, by the clock.
    pub fn uptime_seconds(&self) -> (r: u64) {
        self.uptime_at(current_timestamp())
    }

    /// The uptime as `format_duration` writes it.
    pub fn uptime_formatted(&self) -> (r: String)
        ensures
            exists|secs: u64| r@ == duration_text(secs as nat),
    {
        let secs = self.uptime_seconds();
        format_duration(secs)
    }
}

} // verus!
