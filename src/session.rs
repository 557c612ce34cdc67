//! The session table: admission under caps, single-use reconnect tokens and
//! the session state machine with its periodic sweep.
//!
//! Times are whole milliseconds on the manager's clock.

use std::collections::VecDeque;
use std::time::Instant;
use vstd::prelude::*;
use vstd::string::*;

use crate::clock::{clock_origin, millis_since};
use crate::config::Config;
use crate::text::{owned, same_chars};

verus! {

broadcast use vstd::std_specs::vecdeque::group_vec_dequeue_axioms;

/// Address of a client, as the numbers it is made of.
#[derive(Debug, Clone, Copy, PartialEq, Eq, Structural, Hash)]
pub enum ClientIp {
    V4(u32),
    V6(u128),
}

impl ClientIp {
    /// The IPv4 address `a.b.c.d`.
    pub fn v4(a: u8, b: u8, c: u8, d: u8) -> (r: ClientIp)
        ensures
            r == ClientIp::V4((a * 0x100_0000 + b * 0x1_0000 + c * 0x100 + d) as u32),
    {
        let r = ClientIp::V4((a as u32) * 0x100_0000 + (b as u32) * 0x1_0000 + (c as u32) * 0x100 + d as u32);
        r
    }
}

/// Where a session stands in its lifecycle.
#[derive(Debug, Clone, Copy, PartialEq, Eq, Structural)]
pub enum SessionState {
    /// A client is attached.
    Connected,
    /// The client went away at `since`; it may come back within the grace period.
    Disconnected { since: u64 },
    /// The grace period ran out at `since`; the session waits to be reaped.
    Idle { since: u64 },
    /// The next sweep removes the session.
    Reaping,
}

impl SessionState {
    /// Only a disconnected session can be resumed.
    pub fn can_reconnect(&self) -> (r: bool)
        ensures
            r == (*self is Disconnected),
    {
        matches!(self, SessionState::Disconnected { .. })
    }

    /// Only a connected session takes input.
    pub fn can_accept_input(&self) -> (r: bool)
        ensures
            r == (*self is Connected),
    {
        matches!(self, SessionState::Connected)
    }

    /// Whether the session is about to be removed.
    pub fn is_reaping(&self) -> (r: bool)
        ensures
            r == (*self is Reaping),
    {
        matches!(self, SessionState::Reaping)
    }
}

/// Time a read-only notice of one input class stays quiet after it was shown.
pub const NOTICE_QUIET_MS: u64 = 5000;

/// Terminal size a session starts with.
pub const INITIAL_COLS: u16 = 80;
pub const INITIAL_ROWS: u16 = 24;

/// When a read-only notice of one input class was last shown.
#[derive(Debug, Clone)]
pub struct NoticeStamp {
    pub class: String,
    pub at: u64,
}

/// One client session.
#[derive(Debug)]
pub struct PtySession {
    /// Identifier, stable across reconnects.
    pub session_id: u128,
    /// Secret that resumes the session once.
    pub reconnect_token: String,
    /// Tokens that already resumed this session; none of them works again.
    pub spent_tokens: Vec<String>,
    /// When the current token was issued.
    pub token_issued_at: u64,
    pub created_at: u64,
    /// Last activity of the client.
    pub last_seen: u64,
    /// Address the session was created from; a reconnect must come from it.
    pub client_ip: ClientIp,
    pub state: SessionState,
    /// Output waiting for the client, oldest first.
    pub output_queue: VecDeque<Vec<u8>>,
    /// Total length of the queued output.
    pub output_queue_bytes: usize,
    /// Queued chunks dropped to stay under the byte cap.
    pub output_drops: u64,
    /// Last read-only notice of each input class.
    pub notice_times: Vec<NoticeStamp>,
    /// Last known terminal size, restored on reconnect.
    pub last_cols: u16,
    pub last_rows: u16,
}

/// Failures of session operations.
#[derive(Debug, Clone, PartialEq, Eq)]
pub enum SessionError {
    GlobalCapReached,
    PerIpCapReached,
    SessionNotFound,
    InvalidToken,
    IpMismatch,
    SessionExpired,
    PtySpawnFailed(String),
}

impl SessionError {
    /// Text for the user.
    pub fn to_message(&self) -> (r: String)
        ensures
            r@ == match self {
                SessionError::GlobalCapReached => "Maximum session limit reached"@,
                SessionError::PerIpCapReached => "Maximum sessions per IP reached"@,
                SessionError::SessionNotFound => "Session not found"@,
                SessionError::InvalidToken => "Invalid reconnect token"@,
                SessionError::IpMismatch => "Client IP does not match session"@,
                SessionError::SessionExpired => "Session expired"@,
                SessionError::PtySpawnFailed(e) => "Failed to spawn PTY: "@ + e@,
            },
    {
        match self {
            SessionError::GlobalCapReached => owned("Maximum session limit reached"),
            SessionError::PerIpCapReached => owned("Maximum sessions per IP reached"),
            SessionError::SessionNotFound => owned("Session not found"),
            SessionError::InvalidToken => owned("Invalid reconnect token"),
            SessionError::IpMismatch => owned("Client IP does not match session"),
            SessionError::SessionExpired => owned("Session expired"),
            SessionError::PtySpawnFailed(e) => {
                let mut m = owned("Failed to spawn PTY: ");
                m.append(e.as_str());
                m
            },
        }
    }
}

/// Result of a sweep.
#[derive(Debug, Default)]
pub struct CleanupStats {
    pub removed: usize,
    pub active: usize,
}

/// Counters for monitoring.
#[derive(Debug, Default)]
pub struct SessionMetrics {
    pub active_sessions: usize,
    pub total_output_queue_bytes: usize,
    pub total_output_drops: u64,
    pub connected_count: usize,
    pub disconnected_count: usize,
    pub idle_count: usize,
    pub reaping_count: usize,
}

/// What the base64 engine of the token encoder makes of `b`.
pub uninterp spec fn url_safe_base64(b: Seq<u8>) -> Seq<char>;

/// Relies on `rand::random`: 32 bytes from the thread-local generator,
/// which is cryptographically secure. It panics only when the operating
/// system's random source cannot seed it, which no argument can rule out.
#[verifier::external_body]
fn random_token_bytes() -> (r: Vec<u8>)
    ensures
        r@.len() == 32,
{
    let b: [u8; 32] = rand::random();
    b.to_vec()
}

/// Relies on `base64::Engine::encode` with the `URL_SAFE_NO_PAD` engine,
/// which panics only when the encoded length overflows.
#[verifier::external_body]
fn encode_url_safe(b: &Vec<u8>) -> (r: String)
    requires
        b@.len() <= 1024,
    ensures
        r@ == url_safe_base64(b@),
{
    base64::Engine::encode(&base64::engine::general_purpose::URL_SAFE_NO_PAD, b)
}

/// Relies on `uuid::Uuid::new_v4`: a random identifier, as its 128 bits.
/// It panics only when the operating system's random source fails.
#[verifier::external_body]
fn random_session_id() -> (r: u128) {
    uuid::Uuid::new_v4().as_u128()
}

/// The tokens in `s`, as character sequences.
pub open spec fn token_views(s: Seq<String>) -> Seq<Seq<char>> {
    s.map_values(|t: String| t@)
}

/// Whether `token` already resumed session `s`.
pub open spec fn token_spent(s: PtySession, token: Seq<char>) -> bool {
    token_views(s.spent_tokens@).contains(token)
}

/// `now - then`, or 0 when `then` is later.
pub open spec fn elapsed(then: u64, now: u64) -> nat {
    if then <= now {
        (now - then) as nat
    } else {
        0
    }
}

/// The first time a notice of `class` was recorded in `stamps`.
pub open spec fn notice_time(stamps: Seq<NoticeStamp>, class: Seq<char>) -> Option<u64>
    decreases stamps.len(),
{
    if stamps.len() == 0 {
        None
    } else if stamps[0].class@ == class {
        Some(stamps[0].at)
    } else {
        notice_time(stamps.skip(1), class)
    }
}

/// Whether a notice of `class` is due at `now`: none was shown yet, or the
/// last one is more than the quiet time old.
pub open spec fn notice_due_at(stamps: Seq<NoticeStamp>, class: Seq<char>, now: u64) -> bool {
    match notice_time(stamps, class) {
        None => true,
        Some(t) => elapsed(t, now) > NOTICE_QUIET_MS,
    }
}

/// Total length of queued chunks.
pub open spec fn queued_bytes(q: Seq<Vec<u8>>) -> nat
    decreases q.len(),
{
    if q.len() == 0 {
        0
    } else {
        q[0]@.len() + queued_bytes(q.skip(1))
    }
}

/// How many of the oldest chunks leave before a chunk of `len` bytes joins
/// the queue under a cap of `max` bytes.
pub open spec fn queue_evictions(q: Seq<Vec<u8>>, len: nat, max: nat) -> nat
    decreases q.len(),
{
    if q.len() == 0 || queued_bytes(q) + len <= max {
        0
    } else {
        1 + queue_evictions(q.skip(1), len, max)
    }
}

proof fn lemma_queued_bytes_push(q: Seq<Vec<u8>>, v: Vec<u8>)
    ensures
        queued_bytes(q.push(v)) == queued_bytes(q) + v@.len(),
    decreases q.len(),
{
    if q.len() == 0 {
        assert(q.push(v).skip(1) =~= Seq::<Vec<u8>>::empty());
        assert(queued_bytes(q.push(v).skip(1)) == 0);
    } else {
        assert(q.push(v).skip(1) =~= q.skip(1).push(v));
        assert(q.push(v)[0] == q[0]);
        lemma_queued_bytes_push(q.skip(1), v);
    }
}

impl PtySession {
    /// A fresh single-use reconnect token: 32 random bytes, base64 for URLs.
    pub fn generate_token() -> (r: String)
        ensures
            exists|b: Seq<u8>| b.len() == 32 && r@ == url_safe_base64(b),
    {
        let b = random_token_bytes();
        encode_url_safe(&b)
    }

    /// Replaces the reconnect token by a fresh one and returns it.
    pub fn rotate_token(&mut self) -> (r: String)
        ensures
            exists|b: Seq<u8>| b.len() == 32 && r@ == url_safe_base64(b),
            final(self).reconnect_token@ == r@,
            *final(self) == (PtySession { reconnect_token: final(self).reconnect_token, ..*old(self) }),
    {
        let token = Self::generate_token();
        self.reconnect_token = owned(token.as_str());
        token
    }

    /// Whether a read-only notice of `input_class` is due at `now`: when none
    /// was shown, or the last one is more than the quiet time old. A notice
    /// that is due is recorded as shown at `now`.
    pub fn should_show_notice_at(&mut self, input_class: &str, now: u64) -> (r: bool)
        ensures
            r == notice_due_at(old(self).notice_times@, input_class@, now),
            r ==> notice_time(final(self).notice_times@, input_class@) == Some(now),
            !r ==> *final(self) == *old(self),
            forall|c: Seq<char>|
                c != input_class@ ==> notice_time(final(self).notice_times@, c) == notice_time(
                    old(self).notice_times@,
                    c,
                ),
            *final(self) == (PtySession { notice_times: final(self).notice_times, ..*old(self) }),
    {
        let ghost stamps = self.notice_times@;
        let n = self.notice_times.len();
        let mut i: usize = 0;
        assert(stamps.skip(0) =~= stamps);
        while i < n && !same_chars(self.notice_times[i].class.as_str(), input_class)
            invariant
                n == stamps.len(),
                self.notice_times@ == stamps,
                i <= n,
                notice_time(stamps, input_class@) == notice_time(stamps.skip(i as int), input_class@),
                forall|j: int| 0 <= j < i ==> stamps[j].class@ != input_class@,
            decreases n - i,
        {
            assert(stamps.skip(i as int)[0] == stamps[i as int]);
            assert(stamps.skip(i as int).skip(1) =~= stamps.skip(i + 1));
            i = i + 1;
        }
        if i < n {
            assert(stamps.skip(i as int)[0] == stamps[i as int]);
            let t = self.notice_times[i].at;
            let due = t > now || now - t <= NOTICE_QUIET_MS;
            if due {
                return false;
            }
            let class = owned(self.notice_times[i].class.as_str());
            let _old = self.notice_times.remove(i);
            self.notice_times.insert(i, NoticeStamp { class, at: now });
            proof {
                let fresh = self.notice_times@;
                assert(fresh =~= stamps.update(i as int, fresh[i as int]));
                lemma_notice_time_update(stamps, i as int, fresh[i as int]);
            }
            true
        } else {
            proof {
                lemma_notice_time_absent(stamps, input_class@);
            }
            let class = owned(input_class);
            self.notice_times.push(NoticeStamp { class, at: now });
            proof {
                lemma_notice_time_push(stamps, self.notice_times@[n as int]);
            }
            true
        }
    }

    /// Queues `data` for the client; the oldest chunks are dropped, and
    /// counted, while the queue with `data` would exceed `max_bytes`.
    pub fn queue_output(&mut self, data: Vec<u8>, max_bytes: usize)
        requires
            old(self).output_queue_bytes == queued_bytes(old(self).output_queue@),
            old(self).output_drops + old(self).output_queue@.len() < u64::MAX,
        ensures
            ({
                let k = queue_evictions(old(self).output_queue@, data@.len(), max_bytes as nat);
                &&& final(self).output_queue@ == old(self).output_queue@.skip(k as int).push(data)
                &&& final(self).output_drops == old(self).output_drops + k
                &&& final(self).output_queue_bytes == queued_bytes(final(self).output_queue@)
            }),
            *final(self) == (PtySession {
                output_queue: final(self).output_queue,
                output_queue_bytes: final(self).output_queue_bytes,
                output_drops: final(self).output_drops,
                ..*old(self)
            }),
    {
        let ghost q0 = self.output_queue@;
        let data_len = data.len();
        let mut dropped: u64 = 0;
        while self.output_queue.len() > 0 && (data_len > max_bytes || self.output_queue_bytes
            > max_bytes - data_len)
            invariant
                self.output_queue_bytes == queued_bytes(self.output_queue@),
                *self == (PtySession {
                    output_queue: self.output_queue,
                    output_queue_bytes: self.output_queue_bytes,
                    output_drops: self.output_drops,
                    ..*old(self)
                }),
                dropped <= q0.len(),
                self.output_queue@ == q0.skip(dropped as int),
                self.output_drops == old(self).output_drops + dropped,
                old(self).output_drops + q0.len() < u64::MAX,
                queue_evictions(q0, data_len as nat, max_bytes as nat) == dropped
                    + queue_evictions(self.output_queue@, data_len as nat, max_bytes as nat),
            decreases self.output_queue@.len(),
        {
            let ghost q = self.output_queue@;
            let front = self.output_queue.pop_front();
            proof {
                assert(self.output_queue@ =~= q.skip(1));
                assert(q0.skip(dropped as int).skip(1) =~= q0.skip(dropped + 1));
            }
            match front {
                Some(chunk) => {
                    self.output_queue_bytes = self.output_queue_bytes - chunk.len();
                },
                None => {},
            }
            self.output_drops = self.output_drops + 1;
            dropped = dropped + 1;
        }
        let ghost kept = self.output_queue@;
        proof {
            lemma_queued_bytes_push(kept, data);
        }
        self.output_queue_bytes = self.output_queue_bytes + data_len;
        self.output_queue.push_back(data);
    }

    /// Takes every queued chunk, oldest first, leaving the queue empty.
    pub fn drain_output(&mut self) -> (r: Vec<Vec<u8>>)
        ensures
            r@ == old(self).output_queue@,
            final(self).output_queue@ == Seq::<Vec<u8>>::empty(),
            final(self).output_queue_bytes == 0,
            final(self).output_drops == old(self).output_drops,
    {
        let mut items: Vec<Vec<u8>> = Vec::new();
        let ghost q0 = self.output_queue@;
        while self.output_queue.len() > 0
            invariant
                q0 == items@ + self.output_queue@,
                self.output_drops == old(self).output_drops,
            decreases self.output_queue@.len(),
        {
            let ghost q = self.output_queue@;
            match self.output_queue.pop_front() {
                Some(chunk) => {
                    items.push(chunk);
                    assert(q0 =~= items@ + self.output_queue@);
                },
                None => {},
            }
        }
        assert(items@ =~= q0);
        self.output_queue_bytes = 0;
        items
    }
}

proof fn lemma_notice_time_update(stamps: Seq<NoticeStamp>, i: int, stamp: NoticeStamp)
    requires
        0 <= i < stamps.len(),
        stamp.class@ == stamps[i].class@,
        forall|j: int| 0 <= j < i ==> stamps[j].class@ != stamp.class@,
    ensures
        notice_time(stamps.update(i, stamp), stamp.class@) == Some(stamp.at),
        forall|c: Seq<char>|
            c != stamp.class@ ==> notice_time(stamps.update(i, stamp), c) == notice_time(stamps, c),
    decreases stamps.len(),
{
    let u = stamps.update(i, stamp);
    if i > 0 {
        assert(u.skip(1) =~= stamps.skip(1).update(i - 1, stamp));
        assert(u[0] == stamps[0]);
        lemma_notice_time_update(stamps.skip(1), i - 1, stamp);
        assert forall|c: Seq<char>| c != stamp.class@ implies notice_time(u, c) == notice_time(
            stamps,
            c,
        ) by {
            assert(notice_time(u.skip(1), c) == notice_time(stamps.skip(1), c));
        }
    } else {
        assert(u.skip(1) =~= stamps.skip(1));
        assert forall|c: Seq<char>| c != stamp.class@ implies notice_time(u, c) == notice_time(
            stamps,
            c,
        ) by {
            assert(u[0] == stamp);
        }
    }
}

proof fn lemma_notice_time_absent(stamps: Seq<NoticeStamp>, class: Seq<char>)
    requires
        forall|j: int| 0 <= j < stamps.len() ==> stamps[j].class@ != class,
    ensures
        notice_time(stamps, class).is_none(),
    decreases stamps.len(),
{
    if stamps.len() > 0 {
        assert forall|j: int| 0 <= j < stamps.skip(1).len() implies stamps.skip(1)[j].class@
            != class by {
            assert(stamps.skip(1)[j] == stamps[j + 1]);
        }
        lemma_notice_time_absent(stamps.skip(1), class);
    }
}

proof fn lemma_notice_time_push(stamps: Seq<NoticeStamp>, stamp: NoticeStamp)
    requires
        notice_time(stamps, stamp.class@).is_none(),
    ensures
        notice_time(stamps.push(stamp), stamp.class@) == Some(stamp.at),
        forall|c: Seq<char>|
            c != stamp.class@ ==> notice_time(stamps.push(stamp), c) == notice_time(stamps, c),
    decreases stamps.len(),
{
    let p = stamps.push(stamp);
    if stamps.len() == 0 {
        assert(p[0] == stamp);
        assert(p.skip(1) =~= Seq::<NoticeStamp>::empty());
        assert forall|c: Seq<char>| c != stamp.class@ implies notice_time(p, c) == notice_time(
            stamps,
            c,
        ) by {
            assert(notice_time(p.skip(1), c).is_none());
        }
    } else {
        assert(p[0] == stamps[0]);
        assert(p.skip(1) =~= stamps.skip(1).push(stamp));
        lemma_notice_time_push(stamps.skip(1), stamp);
        assert forall|c: Seq<char>| c != stamp.class@ implies notice_time(p, c) == notice_time(
            stamps,
            c,
        ) by {
            assert(notice_time(p.skip(1), c) == notice_time(stamps.skip(1), c));
        }
    }
}

/// Number of sessions in state `st`.
pub open spec fn state_count(ss: Seq<PtySession>, st: SessionState) -> nat
    decreases ss.len(),
{
    if ss.len() == 0 {
        0
    } else {
        state_count(ss.drop_last(), st) + (if ss.last().state == st {
            1nat
        } else {
            0nat
        })
    }
}

/// Number of disconnected sessions.
pub open spec fn disconnected_count(ss: Seq<PtySession>) -> nat
    decreases ss.len(),
{
    if ss.len() == 0 {
        0
    } else {
        disconnected_count(ss.drop_last()) + (if ss.last().state is Disconnected {
            1nat
        } else {
            0nat
        })
    }
}

/// Number of idle sessions.
pub open spec fn idle_count(ss: Seq<PtySession>) -> nat
    decreases ss.len(),
{
    if ss.len() == 0 {
        0
    } else {
        idle_count(ss.drop_last()) + (if ss.last().state is Idle {
            1nat
        } else {
            0nat
        })
    }
}

/// Queued bytes of all sessions, the sum saturating at the largest `usize`.
pub open spec fn queued_total(ss: Seq<PtySession>) -> nat
    decreases ss.len(),
{
    if ss.len() == 0 {
        0
    } else {
        let sum: nat = queued_total(ss.drop_last()) + ss.last().output_queue_bytes as nat;
        if sum > usize::MAX {
            usize::MAX as nat
        } else {
            sum
        }
    }
}

/// Output drops of all sessions, the sum saturating at the largest `u64`.
pub open spec fn drops_total(ss: Seq<PtySession>) -> nat
    decreases ss.len(),
{
    if ss.len() == 0 {
        0
    } else {
        let sum: nat = drops_total(ss.drop_last()) + ss.last().output_drops as nat;
        if sum > u64::MAX {
            u64::MAX as nat
        } else {
            sum
        }
    }
}

/// The byte counter of the session's output queue matches the queue.
pub open spec fn queue_consistent(s: PtySession) -> bool {
    s.output_queue_bytes == queued_bytes(s.output_queue@)
}

/// Every session's byte counter matches its queue.
pub open spec fn all_consistent(ss: Seq<PtySession>) -> bool {
    forall|i: int| 0 <= i < ss.len() ==> queue_consistent(#[trigger] ss[i])
}

/// Index of the first session with id `id`, or the length when there is none.
pub open spec fn find_session(ss: Seq<PtySession>, id: u128) -> nat
    decreases ss.len(),
{
    if ss.len() == 0 {
        0
    } else if ss[0].session_id == id {
        0
    } else {
        1 + find_session(ss.skip(1), id)
    }
}

/// Number of sessions created from `ip`.
pub open spec fn ip_count(ss: Seq<PtySession>, ip: ClientIp) -> nat
    decreases ss.len(),
{
    if ss.len() == 0 {
        0
    } else {
        ip_count(ss.drop_last(), ip) + (if ss.last().client_ip == ip {
            1nat
        } else {
            0nat
        })
    }
}

/// Admission: the global cap is checked first, then the cap of the address.
pub open spec fn admission(ss: Seq<PtySession>, config: Config, ip: ClientIp) -> Result<
    (),
    SessionError,
> {
    if ss.len() >= config.global_cap {
        Err(SessionError::GlobalCapReached)
    } else if ip_count(ss, ip) >= config.per_ip_cap {
        Err(SessionError::PerIpCapReached)
    } else {
        Ok(())
    }
}

/// `s` is a session just created at `now` for `ip`.
pub open spec fn is_new_session(
    s: PtySession,
    id: u128,
    token: Seq<char>,
    ip: ClientIp,
    now: u64,
) -> bool {
    &&& s.session_id == id
    &&& s.reconnect_token@ == token
    &&& s.spent_tokens@.len() == 0
    &&& s.token_issued_at == now
    &&& s.created_at == now
    &&& s.last_seen == now
    &&& s.client_ip == ip
    &&& s.state == SessionState::Connected
    &&& s.output_queue@.len() == 0
    &&& s.output_queue_bytes == 0
    &&& s.output_drops == 0
    &&& s.notice_times@.len() == 0
    &&& s.last_cols == INITIAL_COLS
    &&& s.last_rows == INITIAL_ROWS
}

/// What a reconnect to session `id` with `token` from `ip` at `now` meets.
/// An unknown session and a wrong token give the same error, so that a
/// client learns nothing of which sessions exist.
pub open spec fn reconnect_check(
    ss: Seq<PtySession>,
    config: Config,
    id: u128,
    token: Seq<char>,
    ip: ClientIp,
    now: u64,
) -> Result<(), SessionError> {
    let i = find_session(ss, id);
    if i >= ss.len() {
        Err(SessionError::InvalidToken)
    } else {
        let s = ss[i as int];
        match s.state {
            SessionState::Connected => Err(SessionError::InvalidToken),
            SessionState::Idle { .. } => Err(SessionError::SessionExpired),
            SessionState::Reaping => Err(SessionError::SessionExpired),
            SessionState::Disconnected { .. } => if s.reconnect_token@ != token || token_spent(
                s,
                token,
            ) {
                Err(SessionError::InvalidToken)
            } else if elapsed(s.token_issued_at, now) > config.token_ttl_ms {
                Err(SessionError::InvalidToken)
            } else if s.client_ip != ip {
                Err(SessionError::IpMismatch)
            } else {
                Ok(())
            },
        }
    }
}

/// `after` is `before` resumed at `now` with `used` spent and `fresh` issued.
pub open spec fn is_resumed(
    before: PtySession,
    after: PtySession,
    used: Seq<char>,
    fresh: Seq<char>,
    now: u64,
) -> bool {
    &&& after.reconnect_token@ == fresh
    &&& token_views(after.spent_tokens@) == token_views(before.spent_tokens@).push(used)
    &&& after == (PtySession {
        reconnect_token: after.reconnect_token,
        spent_tokens: after.spent_tokens,
        token_issued_at: now,
        last_seen: now,
        state: SessionState::Connected,
        ..before
    })
}

/// The state a sweep at `now` moves a session to; each sweep makes at most
/// one transition.
pub open spec fn swept_state(s: PtySession, config: Config, now: u64) -> SessionState {
    match s.state {
        SessionState::Connected => if elapsed(s.last_seen, now) > config.idle_timeout_ms {
            SessionState::Reaping
        } else {
            SessionState::Connected
        },
        SessionState::Disconnected { since } => if elapsed(since, now)
            > config.disconnect_grace_ms {
            SessionState::Idle { since: now }
        } else {
            s.state
        },
        SessionState::Idle { since } => if elapsed(since, now) > config.idle_timeout_ms {
            SessionState::Reaping
        } else {
            s.state
        },
        SessionState::Reaping => SessionState::Reaping,
    }
}

/// The table after a sweep at `now`: sessions that were reaping are gone,
/// the others have made their transition.
pub open spec fn swept(ss: Seq<PtySession>, config: Config, now: u64) -> Seq<PtySession>
    decreases ss.len(),
{
    if ss.len() == 0 {
        Seq::empty()
    } else {
        let rest = swept(ss.drop_last(), config, now);
        let s = ss.last();
        if s.state is Reaping {
            rest
        } else {
            rest.push(PtySession { state: swept_state(s, config, now), ..s })
        }
    }
}

/// Number of sessions that are reaping.
pub open spec fn reaping_count(ss: Seq<PtySession>) -> nat
    decreases ss.len(),
{
    if ss.len() == 0 {
        0
    } else {
        reaping_count(ss.drop_last()) + (if ss.last().state is Reaping {
            1nat
        } else {
            0nat
        })
    }
}

proof fn lemma_find_session(ss: Seq<PtySession>, id: u128)
    ensures
        find_session(ss, id) <= ss.len(),
        find_session(ss, id) < ss.len() ==> ss[find_session(ss, id) as int].session_id == id,
        forall|j: int| 0 <= j < find_session(ss, id) ==> ss[j].session_id != id,
    decreases ss.len(),
{
    if ss.len() > 0 && ss[0].session_id != id {
        lemma_find_session(ss.skip(1), id);
        assert forall|j: int| 0 <= j < find_session(ss, id) implies ss[j].session_id != id by {
            if j > 0 {
                assert(ss[j] == ss.skip(1)[j - 1]);
            }
        }
    }
}

/// Owner of every session, with the admission caps and timeouts of the
/// configuration.
pub struct SessionManager {
    sessions: Vec<PtySession>,
    config: Config,
    origin: Instant,
}

impl SessionManager {
    /// The sessions, in order of creation.
    pub closed spec fn sessions(&self) -> Seq<PtySession> {
        self.sessions@
    }

    pub closed spec fn config(&self) -> Config {
        self.config
    }

    /// The output counters of every session match their queues.
    pub open spec fn wf(&self) -> bool {
        all_consistent(self.sessions())
    }

    /// An empty table.
    pub fn new(config: Config) -> (r: SessionManager)
        ensures
            r.wf(),
            r.sessions() == Seq::<PtySession>::empty(),
            r.config() == config,
    {
        SessionManager { sessions: Vec::new(), config, origin: clock_origin() }
    }

    /// Milliseconds on the manager's clock.
    pub fn now(&self) -> u64 {
        millis_since(&self.origin)
    }

    /// Number of sessions in the table.
    pub fn session_count(&self) -> (r: usize)
        ensures
            r == self.sessions().len(),
    {
        self.sessions.len()
    }

    /// Number of sessions created from `ip` that are still in the table.
    pub fn ip_session_count(&self, ip: ClientIp) -> (r: usize)
        ensures
            r == ip_count(self.sessions(), ip),
    {
        let ghost ss = self.sessions@;
        let mut count: usize = 0;
        let mut i: usize = 0;
        while i < self.sessions.len()
            invariant
                ss == self.sessions@,
                i <= ss.len(),
                count == ip_count(ss.take(i as int), ip),
                count <= i,
            decreases ss.len() - i,
        {
            proof {
                assert(ss.take(i + 1).drop_last() =~= ss.take(i as int));
                assert(ss.take(i + 1).last() == ss[i as int]);
            }
            if self.sessions[i].client_ip == ip {
                count = count + 1;
            }
            i = i + 1;
        }
        assert(ss.take(i as int) =~= ss);
        count
    }

    /// Index of session `id`, or the number of sessions when it is absent.
    fn position(&self, id: u128) -> (r: usize)
        ensures
            r == find_session(self.sessions(), id),
    {
        let ghost ss = self.sessions@;
        let mut i: usize = 0;
        proof {
            lemma_find_session(ss, id);
            assert(ss.skip(0) =~= ss);
        }
        while i < self.sessions.len() && self.sessions[i].session_id != id
            invariant
                ss == self.sessions@,
                i <= ss.len(),
                find_session(ss, id) == i + find_session(ss.skip(i as int), id),
            decreases ss.len() - i,
        {
            assert(ss.skip(i as int)[0] == ss[i as int]);
            assert(ss.skip(i as int).skip(1) =~= ss.skip(i + 1));
            i = i + 1;
        }
        proof {
            if i < ss.len() {
                assert(ss.skip(i as int)[0] == ss[i as int]);
            }
        }
        i
    }

    /// Whether a session may be created for `ip`: the global cap is checked
    /// first, then the cap of the address.
    pub fn can_create_session(&self, client_ip: ClientIp) -> (r: Result<(), SessionError>)
        ensures
            r == admission(self.sessions(), self.config(), client_ip),
    {
        if self.sessions.len() >= self.config.global_cap {
            return Err(SessionError::GlobalCapReached);
        }
        if self.ip_session_count(client_ip) >= self.config.per_ip_cap {
            return Err(SessionError::PerIpCapReached);
        }
        Ok(())
    }

    /// Creates a session for `client_ip` with a random id and token, when
    /// admission allows it.
    pub fn create_session(&mut self, client_ip: ClientIp) -> (r: Result<(u128, String), SessionError>)
        requires
            old(self).wf(),
        ensures
            final(self).wf(),
            final(self).config() == old(self).config(),
            match admission(old(self).sessions(), old(self).config(), client_ip) {
                Err(e) => r == Err::<(u128, String), SessionError>(e) && final(self).sessions()
                    == old(self).sessions(),
                Ok(_) => r is Ok && exists|now: u64|
                    Self::created(old(self).sessions(), final(self).sessions(), r->Ok_0.0, r->Ok_0.1@, client_ip, now),
            },
    {
        let now = self.now();
        let session_id = random_session_id();
        let token = PtySession::generate_token();
        self.create_session_at(client_ip, now, session_id, token)
    }

    /// `after` is `before` with a new session appended.
    pub open spec fn created(
        before: Seq<PtySession>,
        after: Seq<PtySession>,
        id: u128,
        token: Seq<char>,
        ip: ClientIp,
        now: u64,
    ) -> bool {
        &&& after.len() == before.len() + 1
        &&& after.drop_last() == before
        &&& is_new_session(after.last(), id, token, ip, now)
    }

    /// Creates a session for `client_ip` at `now` with the given id and token,
    /// when admission allows it.
    pub fn create_session_at(
        &mut self,
        client_ip: ClientIp,
        now: u64,
        session_id: u128,
        reconnect_token: String,
    ) -> (r: Result<(u128, String), SessionError>)
        requires
            old(self).wf(),
        ensures
            final(self).wf(),
            final(self).config() == old(self).config(),
            match admission(old(self).sessions(), old(self).config(), client_ip) {
                Err(e) => r == Err::<(u128, String), SessionError>(e) && final(self).sessions()
                    == old(self).sessions(),
                Ok(_) => r is Ok && r->Ok_0.0 == session_id && r->Ok_0.1@ == reconnect_token@
                    && Self::created(
                    old(self).sessions(),
                    final(self).sessions(),
                    session_id,
                    reconnect_token@,
                    client_ip,
                    now,
                ),
            },
    {
        match self.can_create_session(client_ip) {
            Err(e) => {
                return Err(e);
            },
            Ok(()) => {},
        }
        let returned = owned(reconnect_token.as_str());
        let session = PtySession {
            session_id,
            reconnect_token,
            spent_tokens: Vec::new(),
            token_issued_at: now,
            created_at: now,
            last_seen: now,
            client_ip,
            state: SessionState::Connected,
            output_queue: VecDeque::new(),
            output_queue_bytes: 0,
            output_drops: 0,
            notice_times: Vec::new(),
            last_cols: INITIAL_COLS,
            last_rows: INITIAL_ROWS,
        };
        let ghost before = self.sessions@;
        self.sessions.push(session);
        assert(self.sessions@.drop_last() =~= before);
        Ok((session_id, returned))
    }

    /// Resumes session `session_id` for a client at `client_ip` that presents
    /// `token`, and issues a fresh token.
    pub fn reconnect_session(&mut self, session_id: u128, token: &str, client_ip: ClientIp) -> (r:
        Result<String, SessionError>)
        requires
            old(self).wf(),
        ensures
            final(self).wf(),
            final(self).config() == old(self).config(),
            exists|now: u64|
                Self::reconnected(*old(self), *final(self), session_id, token@, client_ip, now, r),
    {
        let now = self.now();
        let fresh = PtySession::generate_token();
        self.reconnect_session_at(session_id, token, client_ip, now, fresh)
    }

    /// `after` and `r` are what a reconnect at `now` does to `before`; on
    /// success the returned token is the one now issued.
    pub open spec fn reconnected(
        before: SessionManager,
        after: SessionManager,
        id: u128,
        token: Seq<char>,
        ip: ClientIp,
        now: u64,
        r: Result<String, SessionError>,
    ) -> bool {
        let i = find_session(before.sessions(), id) as int;
        match reconnect_check(before.sessions(), before.config(), id, token, ip, now) {
            Err(e) => r == Err::<String, SessionError>(e) && after.sessions() == before.sessions(),
            Ok(_) => r is Ok && i < before.sessions().len() && after.sessions().len()
                == before.sessions().len() && after.sessions() == before.sessions().update(
                i,
                after.sessions()[i],
            ) && is_resumed(before.sessions()[i], after.sessions()[i], token, r->Ok_0@, now),
        }
    }

    /// Resumes session `session_id` at `now` for a client at `client_ip` that
    /// presents `token`: the session must be disconnected, the token must be
    /// its current one, unspent and within its lifetime, and the address must
    /// match. On success `fresh` becomes the token, the presented one is
    /// spent, and the session is connected again.
    pub fn reconnect_session_at(
        &mut self,
        session_id: u128,
        token: &str,
        client_ip: ClientIp,
        now: u64,
        fresh: String,
    ) -> (r: Result<String, SessionError>)
        requires
            old(self).wf(),
        ensures
            final(self).wf(),
            final(self).config() == old(self).config(),
            Self::reconnected(*old(self), *final(self), session_id, token@, client_ip, now, r),
            r is Ok ==> r->Ok_0@ == fresh@,
    {
        let ghost ss = self.sessions@;
        let i = self.position(session_id);
        proof {
            lemma_find_session(ss, session_id);
        }
        if i == self.sessions.len() {
            return Err(SessionError::InvalidToken);
        }
        match self.sessions[i].state {
            SessionState::Connected => {
                return Err(SessionError::InvalidToken);
            },
            SessionState::Disconnected { .. } => {},
            SessionState::Idle { .. } | SessionState::Reaping => {
                return Err(SessionError::SessionExpired);
            },
        }
        if !same_chars(self.sessions[i].reconnect_token.as_str(), token) {
            return Err(SessionError::InvalidToken);
        }
        if self.is_spent(i, token) {
            return Err(SessionError::InvalidToken);
        }
        let issued = self.sessions[i].token_issued_at;
        if issued <= now && now - issued > self.config.token_ttl_ms {
            return Err(SessionError::InvalidToken);
        }
        if self.sessions[i].client_ip != client_ip {
            return Err(SessionError::IpMismatch);
        }
        let returned = owned(fresh.as_str());
        let mut s = self.sessions.remove(i);
        let ghost before = s;
        let used = owned(token);
        s.spent_tokens.push(used);
        s.reconnect_token = fresh;
        s.token_issued_at = now;
        s.last_seen = now;
        s.state = SessionState::Connected;
        proof {
            assert(token_views(s.spent_tokens@) =~= token_views(before.spent_tokens@).push(token@));
        }
        self.sessions.insert(i, s);
        assert(self.sessions@ =~= ss.update(i as int, s));
        Ok(returned)
    }

    /// Whether `token` already resumed the session at index `i`.
    fn is_spent(&self, i: usize, token: &str) -> (r: bool)
        requires
            i < self.sessions().len(),
        ensures
            r == token_spent(self.sessions()[i as int], token@),
    {
        let spent = &self.sessions[i].spent_tokens;
        assert(spent@ == self.sessions()[i as int].spent_tokens@);
        let ghost views = token_views(spent@);
        let mut j: usize = 0;
        while j < spent.len()
            invariant
                views == token_views(spent@),
                i < self.sessions().len(),
                spent@ == self.sessions()[i as int].spent_tokens@,
                j <= spent@.len(),
                forall|k: int| 0 <= k < j ==> views[k] != token@,
            decreases spent@.len() - j,
        {
            assert(views[j as int] == spent@[j as int]@);
            if same_chars(spent[j].as_str(), token) {
                assert(views[j as int] == token@);
                assert(views.contains(token@));
                return true;
            }
            j = j + 1;
        }
        assert(!views.contains(token@));
        false
    }

    /// Marks a connected session as disconnected now; other sessions and
    /// states are left alone.
    pub fn disconnect_session(&mut self, session_id: u128)
        requires
            old(self).wf(),
        ensures
            final(self).wf(),
            final(self).config() == old(self).config(),
            exists|now: u64|
                final(self).sessions() == Self::disconnected(old(self).sessions(), session_id, now),
    {
        let now = self.now();
        self.disconnect_session_at(session_id, now);
    }

    /// The table after the client of session `id` went away at `now`.
    pub open spec fn disconnected(ss: Seq<PtySession>, id: u128, now: u64) -> Seq<PtySession> {
        let i = find_session(ss, id) as int;
        if i < ss.len() && ss[i].state == SessionState::Connected {
            ss.update(i, PtySession { state: SessionState::Disconnected { since: now }, ..ss[i] })
        } else {
            ss
        }
    }

    /// Marks a connected session as disconnected at `now`.
    pub fn disconnect_session_at(&mut self, session_id: u128, now: u64)
        requires
            old(self).wf(),
        ensures
            final(self).wf(),
            final(self).config() == old(self).config(),
            final(self).sessions() == Self::disconnected(old(self).sessions(), session_id, now),
    {
        let ghost ss = self.sessions@;
        let i = self.position(session_id);
        proof {
            lemma_find_session(ss, session_id);
        }
        if i < self.sessions.len() && self.sessions[i].state == SessionState::Connected {
            let mut s = self.sessions.remove(i);
            s.state = SessionState::Disconnected { since: now };
            self.sessions.insert(i, s);
            assert(self.sessions@ =~= ss.update(i as int, s));
        }
    }

    /// Records activity of the client of session `id` at `now`.
    pub fn touch_at(&mut self, session_id: u128, now: u64)
        requires
            old(self).wf(),
        ensures
            final(self).wf(),
            final(self).config() == old(self).config(),
            ({
                let ss = old(self).sessions();
                let i = find_session(ss, session_id) as int;
                final(self).sessions() == if i < ss.len() {
                    ss.update(i, PtySession { last_seen: now, ..ss[i] })
                } else {
                    ss
                }
            }),
    {
        let ghost ss = self.sessions@;
        let i = self.position(session_id);
        proof {
            lemma_find_session(ss, session_id);
        }
        if i < self.sessions.len() {
            let mut s = self.sessions.remove(i);
            s.last_seen = now;
            self.sessions.insert(i, s);
            assert(self.sessions@ =~= ss.update(i as int, s));
        }
    }

    /// The session with id `id`, if any.
    pub fn get_session(&self, session_id: u128) -> (r: Option<&PtySession>)
        ensures
            ({
                let ss = self.sessions();
                let i = find_session(ss, session_id) as int;
                if i < ss.len() {
                    r == Some(&ss[i])
                } else {
                    r.is_none()
                }
            }),
    {
        let i = self.position(session_id);
        proof {
            lemma_find_session(self.sessions@, session_id);
        }
        if i < self.sessions.len() {
            Some(&self.sessions[i])
        } else {
            None
        }
    }

    /// Whether a read-only notice of `input_class` is due now for session
    /// `id`; one that is due is recorded. `false` for an unknown session.
    pub fn should_show_notice(&mut self, session_id: u128, input_class: &str) -> (r: bool)
        requires
            old(self).wf(),
        ensures
            final(self).wf(),
            final(self).config() == old(self).config(),
            exists|now: u64|
                Self::notice_checked(old(self).sessions(), session_id, input_class@, now, final(self).sessions(), r),
    {
        let now = self.now();
        self.should_show_notice_at(session_id, input_class, now)
    }

    /// `after` and `r` are what checking for a notice of `class` at `now`
    /// does to `before`.
    pub open spec fn notice_checked(
        before: Seq<PtySession>,
        id: u128,
        class: Seq<char>,
        now: u64,
        after: Seq<PtySession>,
        r: bool,
    ) -> bool {
        let i = find_session(before, id) as int;
        if i < before.len() {
            &&& r == notice_due_at(before[i].notice_times@, class, now)
            &&& after.len() == before.len()
            &&& after == before.update(i, after[i])
            &&& after[i] == (PtySession { notice_times: after[i].notice_times, ..before[i] })
            &&& r ==> notice_time(after[i].notice_times@, class) == Some(now)
            &&& !r ==> after == before
        } else {
            !r && after == before
        }
    }

    /// Whether a read-only notice of `input_class` is due at `now` for
    /// session `id`; one that is due is recorded.
    pub fn should_show_notice_at(&mut self, session_id: u128, input_class: &str, now: u64) -> (r: bool)
        requires
            old(self).wf(),
        ensures
            final(self).wf(),
            final(self).config() == old(self).config(),
            Self::notice_checked(old(self).sessions(), session_id, input_class@, now, final(self).sessions(), r),
    {
        let ghost ss = self.sessions@;
        let i = self.position(session_id);
        proof {
            lemma_find_session(ss, session_id);
        }
        if i < self.sessions.len() {
            let mut s = self.sessions.remove(i);
            let ghost before = s;
            let due = s.should_show_notice_at(input_class, now);
            self.sessions.insert(i, s);
            assert(self.sessions@ =~= ss.update(i as int, s));
            proof {
                if !due {
                    assert(ss.update(i as int, s) =~= ss);
                }
            }
            due
        } else {
            false
        }
    }

    /// Queues output for session `id`, dropping its oldest chunks beyond the
    /// configured byte cap. Nothing happens for an unknown session, or when
    /// the session's drop counter could overflow.
    pub fn queue_session_output(&mut self, session_id: u128, data: Vec<u8>)
        requires
            old(self).wf(),
        ensures
            final(self).wf(),
            final(self).config() == old(self).config(),
            ({
                let ss = old(self).sessions();
                let i = find_session(ss, session_id) as int;
                if i < ss.len() && ss[i].output_drops + ss[i].output_queue@.len() < u64::MAX {
                    let s = ss[i];
                    let k = queue_evictions(s.output_queue@, data@.len(), old(self).config().max_output_queue_bytes as nat);
                    let after = final(self).sessions()[i];
                    &&& final(self).sessions() == ss.update(i, after)
                    &&& after.output_queue@ == s.output_queue@.skip(k as int).push(data)
                    &&& after.output_drops == s.output_drops + k
                    &&& after == (PtySession {
                        output_queue: after.output_queue,
                        output_queue_bytes: after.output_queue_bytes,
                        output_drops: after.output_drops,
                        ..s
                    })
                } else {
                    final(self).sessions() == ss
                }
            }),
    {
        let ghost ss = self.sessions@;
        let i = self.position(session_id);
        proof {
            lemma_find_session(ss, session_id);
        }
        if i < self.sessions.len() {
            if self.sessions[i].output_drops < u64::MAX - self.sessions[i].output_queue.len() as u64 {
                let mut s = self.sessions.remove(i);
                assert(s == ss[i as int]);
                s.queue_output(data, self.config.max_output_queue_bytes);
                self.sessions.insert(i, s);
                assert(self.sessions@ =~= ss.update(i as int, s));
            }
        }
    }

    /// One sweep of the state machine, at the manager's clock.
    pub fn cleanup(&mut self) -> (r: CleanupStats)
        requires
            old(self).wf(),
        ensures
            final(self).wf(),
            final(self).config() == old(self).config(),
            exists|now: u64| Self::cleaned(old(self).sessions(), old(self).config(), now, final(self).sessions(), r),
    {
        let now = self.now();
        self.cleanup_at(now)
    }

    /// `after` and the stats are what a sweep at `now` does to `before`.
    pub open spec fn cleaned(
        before: Seq<PtySession>,
        config: Config,
        now: u64,
        after: Seq<PtySession>,
        r: CleanupStats,
    ) -> bool {
        &&& after == swept(before, config, now)
        &&& r.removed == reaping_count(before)
        &&& r.active == after.len()
    }

    /// One sweep of the state machine at `now`: sessions that were reaping
    /// are removed, and every other session makes at most one transition —
    /// connected and inactive for longer than the idle timeout to reaping,
    /// disconnected for longer than the grace period to idle, idle for longer
    /// than the idle timeout to reaping.
    pub fn cleanup_at(&mut self, now: u64) -> (r: CleanupStats)
        requires
            old(self).wf(),
        ensures
            final(self).wf(),
            final(self).config() == old(self).config(),
            Self::cleaned(old(self).sessions(), old(self).config(), now, final(self).sessions(), r),
    {
        let ghost ss = self.sessions@;
        let mut pending: Vec<PtySession> = Vec::new();
        std::mem::swap(&mut self.sessions, &mut pending);
        let mut removed: usize = 0;
        let mut k: usize = 0;
        let total = pending.len();
        assert(ss.skip(0) =~= ss);
        assert(ss.take(0) =~= Seq::<PtySession>::empty());
        while pending.len() > 0
            invariant
                total == ss.len(),
                k <= total,
                pending@ == ss.skip(k as int),
                self.sessions@ == swept(ss.take(k as int), self.config, now),
                removed == reaping_count(ss.take(k as int)),
                removed <= k,
                self.config == old(self).config,
                all_consistent(ss),
                all_consistent(self.sessions@),
            decreases pending@.len(),
        {
            let mut s = pending.remove(0);
            proof {
                assert(s == ss[k as int]);
                assert(pending@ =~= ss.skip(k + 1));
                assert(ss.take(k + 1).drop_last() =~= ss.take(k as int));
                assert(ss.take(k + 1).last() == ss[k as int]);
            }
            match s.state {
                SessionState::Reaping => {
                    removed = removed + 1;
                },
                SessionState::Connected => {
                    if s.last_seen <= now && now - s.last_seen > self.config.idle_timeout_ms {
                        s.state = SessionState::Reaping;
                    }
                    self.sessions.push(s);
                },
                SessionState::Disconnected { since } => {
                    if since <= now && now - since > self.config.disconnect_grace_ms {
                        s.state = SessionState::Idle { since: now };
                    }
                    self.sessions.push(s);
                },
                SessionState::Idle { since } => {
                    if since <= now && now - since > self.config.idle_timeout_ms {
                        s.state = SessionState::Reaping;
                    }
                    self.sessions.push(s);
                },
            }
            k = k + 1;
        }
        proof {
            assert(ss.take(k as int) =~= ss);
        }
        CleanupStats { removed, active: self.sessions.len() }
    }

    /// Counters for monitoring: sessions in all and by state, and the
    /// queued bytes and drops of all sessions (each sum saturating).
    pub fn get_metrics(&self) -> (r: SessionMetrics)
        ensures
            r.active_sessions == self.sessions().len(),
            r.connected_count == state_count(self.sessions(), SessionState::Connected),
            r.disconnected_count == disconnected_count(self.sessions()),
            r.idle_count == idle_count(self.sessions()),
            r.reaping_count == state_count(self.sessions(), SessionState::Reaping),
            r.total_output_queue_bytes == queued_total(self.sessions()),
            r.total_output_drops == drops_total(self.sessions()),
    {
        let ghost ss = self.sessions@;
        let mut m = SessionMetrics {
            active_sessions: self.sessions.len(),
            total_output_queue_bytes: 0,
            total_output_drops: 0,
            connected_count: 0,
            disconnected_count: 0,
            idle_count: 0,
            reaping_count: 0,
        };
        let mut i: usize = 0;
        while i < self.sessions.len()
            invariant
                ss == self.sessions@,
                i <= ss.len(),
                m.active_sessions == ss.len(),
                m.connected_count == state_count(ss.take(i as int), SessionState::Connected),
                m.disconnected_count == disconnected_count(ss.take(i as int)),
                m.idle_count == idle_count(ss.take(i as int)),
                m.reaping_count == state_count(ss.take(i as int), SessionState::Reaping),
                m.connected_count + m.disconnected_count + m.idle_count + m.reaping_count == i,
                m.total_output_queue_bytes == queued_total(ss.take(i as int)),
                m.total_output_drops == drops_total(ss.take(i as int)),
            decreases ss.len() - i,
        {
            let s = &self.sessions[i];
            proof {
                assert(ss.take(i + 1).drop_last() =~= ss.take(i as int));
                assert(ss.take(i + 1).last() == ss[i as int]);
            }
            m.total_output_queue_bytes = m.total_output_queue_bytes.saturating_add(s.output_queue_bytes);
            m.total_output_drops = m.total_output_drops.saturating_add(s.output_drops);
            match s.state {
                SessionState::Connected => m.connected_count = m.connected_count + 1,
                SessionState::Disconnected { .. } => m.disconnected_count = m.disconnected_count + 1,
                SessionState::Idle { .. } => m.idle_count = m.idle_count + 1,
                SessionState::Reaping => m.reaping_count = m.reaping_count + 1,
            }
            i = i + 1;
        }
        assert(ss.take(i as int) =~= ss);
        m
    }
}

proof fn lemma_ip_count_all(ss: Seq<PtySession>, ip: ClientIp)
    ensures
        (forall|i: int| 0 <= i < ss.len() ==> (#[trigger] ss[i]).client_ip == ip) ==> ip_count(
            ss,
            ip,
        ) == ss.len(),
        (forall|i: int| 0 <= i < ss.len() ==> (#[trigger] ss[i]).client_ip != ip) ==> ip_count(
            ss,
            ip,
        ) == 0,
    decreases ss.len(),
{
    if ss.len() > 0 {
        let p = ss.drop_last();
        lemma_ip_count_all(p, ip);
        if forall|i: int| 0 <= i < ss.len() ==> (#[trigger] ss[i]).client_ip == ip {
            assert forall|i: int| 0 <= i < p.len() implies (#[trigger] p[i]).client_ip == ip by {
                assert(p[i] == ss[i]);
            }
            assert(ss.last() == ss[ss.len() - 1]);
        }
        if forall|i: int| 0 <= i < ss.len() ==> (#[trigger] ss[i]).client_ip != ip {
            assert forall|i: int| 0 <= i < p.len() implies (#[trigger] p[i]).client_ip != ip by {
                assert(p[i] == ss[i]);
            }
            assert(ss.last() == ss[ss.len() - 1]);
        }
    }
}

/// Sessions from one address: while fewer than `per_ip_cap` of them stand,
/// admission succeeds; at `per_ip_cap` it fails with `PerIpCapReached`
/// (the global cap, checked first, is larger).
pub proof fn lemma_per_ip_admission(ss: Seq<PtySession>, config: Config, ip: ClientIp)
    requires
        forall|i: int| 0 <= i < ss.len() ==> (#[trigger] ss[i]).client_ip == ip,
        ss.len() <= config.per_ip_cap,
        config.per_ip_cap < config.global_cap,
    ensures
        admission(ss, config, ip) == if ss.len() < config.per_ip_cap {
            Ok::<(), SessionError>(())
        } else {
            Err(SessionError::PerIpCapReached)
        },
{
    lemma_ip_count_all(ss, ip);
}

/// Sessions from other addresses than `ip`: while fewer than `global_cap`
/// stand, admission of `ip` succeeds; at `global_cap` it fails with
/// `GlobalCapReached`.
pub proof fn lemma_global_admission(ss: Seq<PtySession>, config: Config, ip: ClientIp)
    requires
        forall|i: int| 0 <= i < ss.len() ==> (#[trigger] ss[i]).client_ip != ip,
        ss.len() <= config.global_cap,
        config.per_ip_cap >= 1,
    ensures
        admission(ss, config, ip) == if ss.len() < config.global_cap {
            Ok::<(), SessionError>(())
        } else {
            Err(SessionError::GlobalCapReached)
        },
{
    lemma_ip_count_all(ss, ip);
}

/// A reconnect succeeds only for a disconnected session; a connected one
/// refuses it as an invalid token, an idle or reaping one as expired.
pub proof fn lemma_reconnect_only_when_disconnected(
    ss: Seq<PtySession>,
    config: Config,
    id: u128,
    token: Seq<char>,
    ip: ClientIp,
    now: u64,
)
    requires
        find_session(ss, id) < ss.len(),
    ensures
        ({
            let s = ss[find_session(ss, id) as int];
            let r = reconnect_check(ss, config, id, token, ip, now);
            &&& r is Ok ==> s.state is Disconnected
            &&& s.state is Connected ==> r == Err::<(), SessionError>(SessionError::InvalidToken)
            &&& (s.state is Idle || s.state is Reaping) ==> r == Err::<(), SessionError>(
                SessionError::SessionExpired,
            )
        }),
{
}

/// A token that has resumed a session is refused by every reconnect to it.
pub proof fn lemma_spent_token_refused(
    ss: Seq<PtySession>,
    config: Config,
    id: u128,
    token: Seq<char>,
    ip: ClientIp,
    now: u64,
)
    requires
        find_session(ss, id) < ss.len(),
        token_spent(ss[find_session(ss, id) as int], token),
    ensures
        reconnect_check(ss, config, id, token, ip, now) is Err,
{
}

proof fn lemma_find_session_update(ss: Seq<PtySession>, i: int, s: PtySession, id: u128)
    requires
        find_session(ss, id) == i,
        0 <= i < ss.len(),
        s.session_id == id,
    ensures
        find_session(ss.update(i, s), id) == i,
    decreases ss.len(),
{
    let u = ss.update(i, s);
    if i > 0 {
        assert(u[0] == ss[0]);
        assert(u.skip(1) =~= ss.skip(1).update(i - 1, s));
        lemma_find_session_update(ss.skip(1), i - 1, s, id);
    } else {
        assert(u[0] == s);
    }
}

/// Single use: once a reconnect with `token` succeeded, the token is spent,
/// and a later reconnect with it fails, at any time and from any address.
pub proof fn lemma_token_single_use(
    before: SessionManager,
    after: SessionManager,
    id: u128,
    token: Seq<char>,
    ip: ClientIp,
    now: u64,
    r: Result<String, SessionError>,
    later_ip: ClientIp,
    later: u64,
)
    requires
        after.config() == before.config(),
        SessionManager::reconnected(before, after, id, token, ip, now, r),
        r is Ok,
    ensures
        find_session(after.sessions(), id) < after.sessions().len(),
        token_spent(after.sessions()[find_session(after.sessions(), id) as int], token),
        reconnect_check(after.sessions(), after.config(), id, token, later_ip, later) is Err,
{
    let ss = before.sessions();
    let i = find_session(ss, id) as int;
    lemma_find_session(ss, id);
    let s = after.sessions()[i];
    lemma_find_session_update(ss, i, s, id);
    assert(token_views(s.spent_tokens@)[token_views(s.spent_tokens@).len() - 1] == token);
    lemma_spent_token_refused(after.sessions(), after.config(), id, token, later_ip, later);
}

/// A sweep removes exactly the sessions that were reaping and keeps every
/// other one, in order, with its id and address: so the sessions of an
/// address drop by the number of its reaping sessions.
pub proof fn lemma_sweep_removes_reaping(ss: Seq<PtySession>, config: Config, now: u64, ip: ClientIp)
    ensures
        swept(ss, config, now).len() + reaping_count(ss) == ss.len(),
        ip_count(swept(ss, config, now), ip) + reaping_ip_count(ss, ip) == ip_count(ss, ip),
    decreases ss.len(),
{
    if ss.len() > 0 {
        lemma_sweep_removes_reaping(ss.drop_last(), config, now, ip);
        let rest = swept(ss.drop_last(), config, now);
        let s = ss.last();
        if !(s.state is Reaping) {
            let n = PtySession { state: swept_state(s, config, now), ..s };
            assert(rest.push(n).drop_last() =~= rest);
        }
    }
}

/// Number of reaping sessions of address `ip`.
pub open spec fn reaping_ip_count(ss: Seq<PtySession>, ip: ClientIp) -> nat
    decreases ss.len(),
{
    if ss.len() == 0 {
        0
    } else {
        reaping_ip_count(ss.drop_last(), ip) + (if ss.last().state is Reaping && ss.last().client_ip
            == ip {
            1nat
        } else {
            0nat
        })
    }
}

} // verus!
