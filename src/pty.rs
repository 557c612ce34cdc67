//! Failures of starting a terminal program in a pseudo-terminal, and the
//! environment it is started with. Opening the terminal and running its
//! reader, writer and waiter threads is the caller's part.

use vstd::prelude::*;
use vstd::string::*;

use crate::config::Config;
use crate::text::{joined, owned};

verus! {

/// Why a terminal could not be started; each ends that attempt.
#[derive(Debug, Clone, PartialEq, Eq)]
pub enum PtySpawnError {
    /// The pseudo-terminal pair could not be opened.
    OpenFailed(String),
    /// The program could not be started in it.
    SpawnFailed(String),
    /// Its input or output could not be attached.
    IoSetupFailed(String),
}

/// The same failures, for a terminal owned by a session.
pub type PtyTaskError = PtySpawnError;

impl PtySpawnError {
    /// Text for the user.
    pub fn to_message(&self) -> (r: String)
        ensures
            r@ == match self {
                PtySpawnError::OpenFailed(e) => "Failed to open PTY: "@ + e@,
                PtySpawnError::SpawnFailed(e) => "Failed to spawn command: "@ + e@,
                PtySpawnError::IoSetupFailed(e) => "Failed to setup I/O: "@ + e@,
            },
    {
        match self {
            PtySpawnError::OpenFailed(e) => joined("Failed to open PTY: ", e.as_str()),
            PtySpawnError::SpawnFailed(e) => joined("Failed to spawn command: ", e.as_str()),
            PtySpawnError::IoSetupFailed(e) => joined("Failed to setup I/O: ", e.as_str()),
        }
    }
}

/// One environment variable for the terminal program.
#[derive(Debug, Clone)]
pub struct EnvVar {
    pub name: String,
    pub value: String,
}

pub open spec fn env_pairs(v: Seq<EnvVar>) -> Seq<(Seq<char>, Seq<char>)> {
    v.map_values(|e: EnvVar| (e.name@, e.value@))
}

fn env_var(name: &str, value: &str) -> (r: EnvVar)
    ensures
        r.name@ == name@,
        r.value@ == value@,
{
    EnvVar { name: owned(name), value: owned(value) }
}

/// The environment the terminal program runs with: a pinned terminal type,
/// a UTF-8 locale and a true-colour hint, so that its output renders the
/// same on every host; the flag that tells it to skip interactive checks;
/// and the service addresses it needs.
pub fn pty_environment(config: &Config) -> (r: Vec<EnvVar>)
    ensures
        env_pairs(r@) == seq![
            ("TERM"@, "xterm-256color"@),
            ("LANG"@, "en_US.UTF-8"@),
            ("LC_ALL"@, "en_US.UTF-8"@),
            ("COLORTERM"@, "truecolor"@),
            ("ODD_DASHBOARD_SERVER_MODE"@, "1"@),
            ("READ_MODEL_URL"@, config.read_model_url@),
            ("GATEWAY_URL"@, config.gateway_url@),
        ],
{
    let mut v: Vec<EnvVar> = Vec::new();
    v.push(env_var("TERM", "xterm-256color"));
    v.push(env_var("LANG", "en_US.UTF-8"));
    v.push(env_var("LC_ALL", "en_US.UTF-8"));
    v.push(env_var("COLORTERM", "truecolor"));
    v.push(env_var("ODD_DASHBOARD_SERVER_MODE", "1"));
    v.push(env_var("READ_MODEL_URL", config.read_model_url.as_str()));
    v.push(env_var("GATEWAY_URL", config.gateway_url.as_str()));
    assert(env_pairs(v@) =~= seq![
        ("TERM"@, "xterm-256color"@),
        ("LANG"@, "en_US.UTF-8"@),
        ("LC_ALL"@, "en_US.UTF-8"@),
        ("COLORTERM"@, "truecolor"@),
        ("ODD_DASHBOARD_SERVER_MODE"@, "1"@),
        ("READ_MODEL_URL"@, config.read_model_url@),
        ("GATEWAY_URL"@, config.gateway_url@),
    ]);
    v
}

} // verus!
