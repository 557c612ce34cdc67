//! Messages exchanged with browser clients, and the keystroke classifier of
//! read-only mode.

use vstd::prelude::*;
use vstd::string::*;

use crate::input_class;
use crate::text::{owned, same_chars};

verus! {

/// Terminal size, restored on reconnect.
#[derive(Debug, Clone, Copy, PartialEq, Eq, Structural)]
pub struct TerminalSize {
    pub cols: u16,
    pub rows: u16,
}

/// Messages from a client.
#[derive(Debug, Clone)]
pub enum ClientMessage {
    /// Keyboard input for the terminal.
    Input { data: String },
    /// The client's terminal changed size.
    Resize { cols: u16, rows: u16 },
    /// Keepalive.
    Ping,
    /// Resume an existing session.
    Reconnect {
        session: String,
        token: String,
        /// Last sequence number the client saw, for replay.
        last_seq: Option<u64>,
    },
}

/// Messages to a client.
#[derive(Debug, Clone)]
pub enum ServerMessage {
    /// A new session and its reconnect token.
    Session { session_id: String, reconnect_token: String },
    /// A resumed session and its fresh reconnect token.
    Reconnected {
        session_id: String,
        reconnect_token: String,
        restore_size: Option<TerminalSize>,
    },
    /// Terminal output.
    Output { data: String, seq: Option<u64> },
    /// A failure, with a code from `error_codes`.
    Error { message: String, code: String },
    /// Answer to a ping.
    Pong,
    /// Information for the user, such as a read-only notice.
    Notice { message: String },
    /// Replay of buffered output starts at this sequence number.
    ReplayBegin { from_seq: u64 },
    /// Replay ended at this sequence number; live output follows.
    ReplayEnd { last_seq: u64 },
    /// Output was lost from the replay buffer.
    BufferTruncated { frames_dropped: u64 },
}

pub const READ_ONLY_PREFIX: &'static str = "\u{26a0} Read-only mode: ";
pub const READ_ONLY_SUFFIX: &'static str = " disabled";

impl ServerMessage {
    /// An error frame with the given text and code.
    pub fn error(message: &str, code: &str) -> (r: ServerMessage)
        ensures
            r matches ServerMessage::Error { message: m, code: c } && m@ == message@ && c@
                == code@,
    {
        ServerMessage::Error { message: owned(message), code: owned(code) }
    }

    /// The notice telling the user that `action` is disabled in read-only mode.
    pub fn read_only_notice(action: &str) -> (r: ServerMessage)
        ensures
            r matches ServerMessage::Notice { message: m } && m@ == READ_ONLY_PREFIX@ + action@
                + READ_ONLY_SUFFIX@,
    {
        let mut message = owned(READ_ONLY_PREFIX);
        message.append(action);
        message.append(READ_ONLY_SUFFIX);
        ServerMessage::Notice { message }
    }
}

/// The class of a keystroke that changes state: `n`/`N` create a task,
/// `l`/`L` launch the cluster, Enter submits a dialog.
pub open spec fn input_class_of(input: Seq<char>) -> Option<Seq<char>> {
    if input == seq!['n'] || input == seq!['N'] {
        Some(input_class::NEW_TASK@)
    } else if input == seq!['l'] || input == seq!['L'] {
        Some(input_class::LAUNCH@)
    } else if input == seq!['\r'] || input == seq!['\n'] {
        Some(input_class::MODAL_INPUT@)
    } else {
        None
    }
}

/// Whether `s` is the one character `c`.
fn is_single(s: &str, c: char) -> (r: bool)
    ensures
        r == (s@ == seq![c]),
{
    if s.unicode_len() == 1 {
        let d = s.get_char(0);
        if d == c {
            assert(s@ =~= seq![c]);
            true
        } else {
            false
        }
    } else {
        false
    }
}

/// The class of a keystroke that changes state, or `None` for one that does
/// not. A heuristic on single keystrokes of the dashboard program.
pub fn classify_input(input: &str) -> (r: Option<&'static str>)
    ensures
        match r {
            Some(c) => input_class_of(input@) == Some(c@),
            None => input_class_of(input@).is_none(),
        },
{
    if is_single(input, 'n') || is_single(input, 'N') {
        Some(input_class::NEW_TASK)
    } else if is_single(input, 'l') || is_single(input, 'L') {
        Some(input_class::LAUNCH)
    } else if is_single(input, '\r') || is_single(input, '\n') {
        Some(input_class::MODAL_INPUT)
    } else {
        None
    }
}

/// Whether read-only mode holds `input` back.
pub fn is_blocked_in_read_only(input: &str) -> (r: bool)
    ensures
        r == input_class_of(input@).is_some(),
{
    classify_input(input).is_some()
}

/// The action that the read-only notice names for an input class.
pub open spec fn action_label(class: Seq<char>) -> Seq<char> {
    if class == input_class::NEW_TASK@ {
        "Task creation"@
    } else if class == input_class::LAUNCH@ {
        "Cluster launch"@
    } else if class == input_class::INSTALL@ {
        "Installation"@
    } else {
        "This action"@
    }
}

/// The action named in the read-only notice for an input class.
pub fn blocked_action_label(class: &str) -> (r: &'static str)
    ensures
        r@ == action_label(class@),
{
    proof {
        reveal_strlit("new_task");
        reveal_strlit("launch");
        reveal_strlit("install");
        assert(input_class::NEW_TASK@[0] == 'n');
        assert(input_class::LAUNCH@[0] == 'l');
        assert(input_class::INSTALL@[0] == 'i');
    }
    if same_chars(class, input_class::NEW_TASK) {
        "Task creation"
    } else if same_chars(class, input_class::LAUNCH) {
        "Cluster launch"
    } else if same_chars(class, input_class::INSTALL) {
        "Installation"
    } else {
        "This action"
    }
}

} // verus!
