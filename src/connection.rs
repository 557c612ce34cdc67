//! Decisions of the per-connection loop: what to do with client input in
//! read-only mode, which error frame a failed setup sends, batching of
//! terminal output, and the keepalive deadline. The loop itself, with its
//! socket, channels and timers, is the caller's.

use vstd::prelude::*;

use crate::auth::AuthError;
use crate::error_codes;
use crate::protocol::{
    action_label, blocked_action_label, classify_input, input_class_of, ServerMessage, READ_ONLY_PREFIX,
    READ_ONLY_SUFFIX,
};
use crate::session::{SessionError, SessionManager};

verus! {

/// Interval between keepalive pings.
pub const PING_INTERVAL_MS: u64 = 30_000;

/// Silence after which a client that answers no ping is dropped.
pub const PONG_TIMEOUT_MS: u64 = 60_000;

/// Interval at which batched terminal output is sent.
pub const COALESCE_INTERVAL_MS: u64 = 16;

/// What to do with keyboard input of a client.
#[derive(Debug, Clone)]
pub enum InputAction {
    /// Send it to the terminal.
    Forward,
    /// Hold it back and tell the user, with this notice.
    Notice(ServerMessage),
    /// Hold it back silently; a notice was shown a moment ago.
    Suppress,
}

/// Decides what happens to `data` typed by the client of session
/// `session_id`. Outside read-only mode, and for keystrokes that change
/// nothing, the input goes to the terminal. Otherwise it is held back, with
/// a notice at most once per quiet time and input class.
pub fn filter_input(manager: &mut SessionManager, session_id: u128, read_only: bool, data: &str) -> (r:
    InputAction)
    requires
        old(manager).wf(),
    ensures
        final(manager).wf(),
        final(manager).config() == old(manager).config(),
        final(manager).sessions().len() == old(manager).sessions().len(),
        (!read_only || input_class_of(data@).is_none()) ==> r is Forward
            && final(manager).sessions() == old(manager).sessions(),
        (read_only && input_class_of(data@).is_some()) ==> !(r is Forward),
        r is Notice ==> (r->Notice_0 matches ServerMessage::Notice { message } && message@
            == READ_ONLY_PREFIX@ + action_label(input_class_of(data@)->Some_0)
            + READ_ONLY_SUFFIX@),
{
    if !read_only {
        return InputAction::Forward;
    }
    match classify_input(data) {
        None => InputAction::Forward,
        Some(class) => {
            if manager.should_show_notice(session_id, class) {
                let label = blocked_action_label(class);
                InputAction::Notice(ServerMessage::read_only_notice(label))
            } else {
                InputAction::Suppress
            }
        },
    }
}

/// The error frame that ends a connection whose authentication failed.
pub fn auth_failure_frame(e: AuthError) -> (r: ServerMessage)
    ensures
        e == AuthError::MissingToken ==> (r matches ServerMessage::Error { message, code } && message@
            == "Authorization required"@ && code@ == error_codes::AUTH_REQUIRED@),
        e == AuthError::InvalidToken ==> (r matches ServerMessage::Error { message, code } && message@
            == "Invalid token"@ && code@ == error_codes::AUTH_FAILED@),
{
    match e {
        AuthError::MissingToken => ServerMessage::error("Authorization required", error_codes::AUTH_REQUIRED),
        AuthError::InvalidToken => ServerMessage::error("Invalid token", error_codes::AUTH_FAILED),
    }
}

/// The code of the error frame sent when a new session is refused.
pub fn admission_error_code(e: &SessionError) -> (r: &'static str)
    ensures
        *e == SessionError::GlobalCapReached ==> r@ == error_codes::GLOBAL_CAP@,
        *e == SessionError::PerIpCapReached ==> r@ == error_codes::PER_IP_CAP@,
        *e != SessionError::GlobalCapReached && *e != SessionError::PerIpCapReached ==> r@
            == error_codes::INTERNAL_ERROR@,
{
    match e {
        SessionError::GlobalCapReached => error_codes::GLOBAL_CAP,
        SessionError::PerIpCapReached => error_codes::PER_IP_CAP,
        _ => error_codes::INTERNAL_ERROR,
    }
}

/// Whether a client that last answered a ping at `last_pong` is gone at `now`.
pub fn pong_overdue(last_pong: u64, now: u64) -> (r: bool)
    ensures
        r == (last_pong <= now && now - last_pong > PONG_TIMEOUT_MS),
{
    last_pong <= now && now - last_pong > PONG_TIMEOUT_MS
}

/// Terminal output gathered between two flushes, so that bursts of small
/// writes leave as one frame.
pub struct OutputCoalescer {
    buffer: Vec<u8>,
}

impl OutputCoalescer {
    /// The bytes gathered since the last flush.
    pub closed spec fn pending(&self) -> Seq<u8> {
        self.buffer@
    }

    pub fn new() -> (r: OutputCoalescer)
        ensures
            r.pending() == Seq::<u8>::empty(),
    {
        OutputCoalescer { buffer: Vec::new() }
    }

    /// Adds output at the end.
    pub fn append(&mut self, data: &[u8])
        ensures
            final(self).pending() == old(self).pending() + data@,
    {
        let mut i: usize = 0;
        let ghost start = self.buffer@;
        while i < data.len()
            invariant
                i <= data@.len(),
                self.buffer@ == start + data@.take(i as int),
            decreases data@.len() - i,
        {
            self.buffer.push(data[i]);
            i = i + 1;
            assert(self.buffer@ =~= start + data@.take(i as int));
        }
        assert(data@.take(i as int) =~= data@);
    }

    /// Takes what was gathered, if anything.
    pub fn flush(&mut self) -> (r: Option<Vec<u8>>)
        ensures
            final(self).pending() == Seq::<u8>::empty(),
            old(self).pending().len() == 0 ==> r.is_none(),
            old(self).pending().len() > 0 ==> r is Some && r->Some_0@ == old(self).pending(),
    {
        if self.buffer.len() == 0 {
            return None;
        }
        let mut out: Vec<u8> = Vec::new();
        std::mem::swap(&mut out, &mut self.buffer);
        Some(out)
    }
}

} // verus!
