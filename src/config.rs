//! Settings of the broker, read once at start and not changed afterwards.

use vstd::prelude::*;

use vstd::string::*;

use crate::text::{decimal, decimal_string, lowercase, lowercase_of, owned, same_chars, strip_prefix_chars, views_of};

verus! {

/// Failure injection for end-to-end tests of clients.
#[derive(Debug, Clone, PartialEq, Eq, Structural)]
pub enum TestMode {
    /// Normal operation.
    Disabled,
    /// Every new connection is refused.
    FailConnection,
    /// Every new connection is delayed by this many milliseconds.
    DelayConnection(u64),
}

impl Default for TestMode {
    fn default() -> (r: TestMode)
        ensures
            r == TestMode::Disabled,
    {
        TestMode::Disabled
    }
}

/// Broker settings. Durations are in milliseconds.
#[derive(Debug, Clone)]
pub struct Config {
    /// Port of the WebSocket listener.
    pub ws_port: u16,
    /// Port of the health and metrics listener.
    pub metrics_port: u16,
    /// Program started in each terminal.
    pub tui_binary_path: String,
    /// Secret that clients must present; `None` turns authentication off.
    pub auth_token: Option<String>,
    /// Whether inputs that change state are held back.
    pub read_only: bool,
    /// Inactivity after which a session is reaped.
    pub idle_timeout_ms: u64,
    /// Most live sessions from one client address.
    pub per_ip_cap: usize,
    /// Most live sessions in all.
    pub global_cap: usize,
    /// Time a disconnected session waits for its client before it goes idle.
    pub disconnect_grace_ms: u64,
    /// Byte cap of a session's output queue.
    pub max_output_queue_bytes: usize,
    /// Service address handed to the terminal program.
    pub read_model_url: String,
    /// Service address handed to the terminal program.
    pub gateway_url: String,
    /// Lifetime of a reconnect token.
    pub token_ttl_ms: u64,
    /// Byte cap of a replay buffer.
    pub ring_max_bytes: usize,
    /// Frame cap of a replay buffer.
    pub ring_max_frames: usize,
    /// Failure injection.
    pub test_mode: TestMode,
}

pub const DEFAULT_WS_PORT: u16 = 9000;
pub const DEFAULT_METRICS_PORT: u16 = 9001;
pub const DEFAULT_IDLE_TIMEOUT_MS: u64 = 1_800_000;
pub const DEFAULT_PER_IP_CAP: usize = 5;
pub const DEFAULT_GLOBAL_CAP: usize = 50;
pub const DEFAULT_DISCONNECT_GRACE_MS: u64 = 30_000;
pub const DEFAULT_MAX_OUTPUT_QUEUE_BYTES: usize = 1_048_576;
pub const DEFAULT_TOKEN_TTL_MS: u64 = 300_000;
pub const DEFAULT_RING_MAX_BYTES: usize = 1_048_576;
pub const DEFAULT_RING_MAX_FRAMES: usize = 1000;
pub const DEFAULT_TUI_BINARY: &'static str = "odd-dashboard";
pub const DEFAULT_READ_MODEL_URL: &'static str = "http://read-model:8080";
pub const DEFAULT_GATEWAY_URL: &'static str = "http://gateway:3000";

impl Default for Config {
    /// The documented defaults, with authentication off.
    fn default() -> (r: Config)
        ensures
            r.ws_port == DEFAULT_WS_PORT,
            r.metrics_port == DEFAULT_METRICS_PORT,
            r.tui_binary_path@ == DEFAULT_TUI_BINARY@,
            r.auth_token.is_none(),
            !r.read_only,
            r.idle_timeout_ms == DEFAULT_IDLE_TIMEOUT_MS,
            r.per_ip_cap == DEFAULT_PER_IP_CAP,
            r.global_cap == DEFAULT_GLOBAL_CAP,
            r.disconnect_grace_ms == DEFAULT_DISCONNECT_GRACE_MS,
            r.max_output_queue_bytes == DEFAULT_MAX_OUTPUT_QUEUE_BYTES,
            r.read_model_url@ == DEFAULT_READ_MODEL_URL@,
            r.gateway_url@ == DEFAULT_GATEWAY_URL@,
            r.token_ttl_ms == DEFAULT_TOKEN_TTL_MS,
            r.ring_max_bytes == DEFAULT_RING_MAX_BYTES,
            r.ring_max_frames == DEFAULT_RING_MAX_FRAMES,
            r.test_mode == TestMode::Disabled,
    {
        Config {
            ws_port: DEFAULT_WS_PORT,
            metrics_port: DEFAULT_METRICS_PORT,
            tui_binary_path: owned(DEFAULT_TUI_BINARY),
            auth_token: None,
            read_only: false,
            idle_timeout_ms: DEFAULT_IDLE_TIMEOUT_MS,
            per_ip_cap: DEFAULT_PER_IP_CAP,
            global_cap: DEFAULT_GLOBAL_CAP,
            disconnect_grace_ms: DEFAULT_DISCONNECT_GRACE_MS,
            max_output_queue_bytes: DEFAULT_MAX_OUTPUT_QUEUE_BYTES,
            read_model_url: owned(DEFAULT_READ_MODEL_URL),
            gateway_url: owned(DEFAULT_GATEWAY_URL),
            token_ttl_ms: DEFAULT_TOKEN_TTL_MS,
            ring_max_bytes: DEFAULT_RING_MAX_BYTES,
            ring_max_frames: DEFAULT_RING_MAX_FRAMES,
            test_mode: TestMode::Disabled,
        }
    }
}

pub open spec fn is_digit(c: char) -> bool {
    '0' <= c <= '9'
}

pub open spec fn digit_value(c: char) -> nat {
    if is_digit(c) {
        (c as u32 - '0' as u32) as nat
    } else {
        0
    }
}

/// The number that the decimal digits `s` spell.
pub open spec fn digits_value(s: Seq<char>) -> nat
    decreases s.len(),
{
    if s.len() == 0 {
        0
    } else {
        digits_value(s.drop_last()) * 10 + digit_value(s.last())
    }
}

/// `s` without a leading `+`.
pub open spec fn digits_part(s: Seq<char>) -> Seq<char> {
    if s.len() > 0 && s[0] == '+' {
        s.skip(1)
    } else {
        s
    }
}

pub open spec fn all_digits(d: Seq<char>) -> bool {
    forall|i: int| 0 <= i < d.len() ==> is_digit(#[trigger] d[i])
}

/// The number an unsigned integer of Rust parses from `s`, before its range
/// is checked: an optional `+` and one or more decimal digits.
pub open spec fn unsigned_value(s: Seq<char>) -> Option<nat> {
    let d = digits_part(s);
    if d.len() > 0 && all_digits(d) {
        Some(digits_value(d))
    } else {
        None
    }
}

/// The number `s` spells when it is at most `max`.
pub open spec fn bounded_value(s: Seq<char>, max: nat) -> Option<nat> {
    match unsigned_value(s) {
        Some(v) => if v <= max {
            Some(v)
        } else {
            None
        },
        None => None,
    }
}

proof fn lemma_digits_value_grows(s: Seq<char>, i: int)
    requires
        0 <= i <= s.len(),
    ensures
        digits_value(s.take(i)) <= digits_value(s),
    decreases s.len() - i,
{
    if i < s.len() {
        lemma_digits_value_grows(s, i + 1);
        assert(s.take(i + 1).drop_last() =~= s.take(i));
    } else {
        assert(s.take(i) =~= s);
    }
}

/// Parses an unsigned decimal number no larger than `max`, as `str::parse`
/// does for unsigned integers.
pub fn parse_bounded(s: &str, max: u64) -> (r: Option<u64>)
    ensures
        match bounded_value(s@, max as nat) {
            Some(v) => r == Some(v as u64),
            None => r.is_none(),
        },
{
    let n = s.unicode_len();
    let mut start: usize = 0;
    if n > 0 && s.get_char(0) == '+' {
        start = 1;
    }
    let ghost d = if s@.len() > 0 && s@[0] == '+' {
        s@.skip(1)
    } else {
        s@
    };
    assert(d =~= s@.skip(start as int));
    if start == n {
        return None;
    }
    let mut value: u64 = 0;
    let mut i: usize = start;
    while i < n
        invariant
            n == s@.len(),
            start <= i <= n,
            d == s@.skip(start as int),
            d == digits_part(s@),
            forall|j: int| 0 <= j < i - start ==> is_digit(#[trigger] d[j]),
            value == digits_value(d.take(i - start)),
            value <= max,
        decreases n - i,
    {
        let c = s.get_char(i);
        assert(d[i - start] == c);
        if c < '0' || c > '9' {
            assert(!is_digit(d[i - start]));
            return None;
        }
        let digit = (c as u32 - '0' as u32) as u64;
        proof {
            assert(d.take(i - start + 1).drop_last() =~= d.take(i - start));
            assert(d.take(i - start + 1).last() == c);
        }
        if digit > max || value > (max - digit) / 10 {
            proof {
                if digit <= max {
                    assert(value * 10 + digit > max) by (nonlinear_arith)
                        requires
                            value > (max - digit) / 10,
                            digit <= max,
                    ;
                }
                assert(digits_value(d.take(i - start + 1)) > max);
                lemma_digits_value_grows(d, i - start + 1);
            }
            return None;
        }
        proof {
            assert(value * 10 + digit <= max) by (nonlinear_arith)
                requires
                    value <= (max - digit) / 10,
                    digit <= max,
            ;
        }
        value = value * 10 + digit;
        i = i + 1;
    }
    assert(d.take(n - start) =~= d);
    Some(value)
}

/// The setting `raw` as a number no larger than `max`, or `default` when it
/// is absent or does not parse.
pub open spec fn number_setting(raw: Option<Seq<char>>, max: nat, default: nat) -> nat {
    match raw {
        Some(s) => match bounded_value(s, max) {
            Some(v) => v,
            None => default,
        },
        None => default,
    }
}

pub open spec fn opt_view(s: Option<String>) -> Option<Seq<char>> {
    match s {
        Some(v) => Some(v@),
        None => None,
    }
}

fn number_or(raw: &Option<String>, max: u64, default: u64) -> (r: u64)
    requires
        default <= max,
    ensures
        r == number_setting(opt_view(*raw), max as nat, default as nat),
        r <= max,
{
    match raw {
        Some(s) => match parse_bounded(s.as_str(), max) {
            Some(v) => v,
            None => default,
        },
        None => default,
    }
}

/// A duration setting given in seconds, in milliseconds (saturating).
pub open spec fn millis_setting(raw: Option<Seq<char>>, default_ms: nat) -> nat {
    match raw {
        Some(s) => match bounded_value(s, u64::MAX as nat) {
            Some(v) => if v * 1000 <= u64::MAX {
                v * 1000
            } else {
                u64::MAX as nat
            },
            None => default_ms,
        },
        None => default_ms,
    }
}

fn millis_or(raw: &Option<String>, default_ms: u64) -> (r: u64)
    ensures
        r == millis_setting(opt_view(*raw), default_ms as nat),
{
    match raw {
        Some(s) => match parse_bounded(s.as_str(), u64::MAX) {
            Some(v) => if v <= u64::MAX / 1000 {
                v * 1000
            } else {
                u64::MAX
            },
            None => default_ms,
        },
        None => default_ms,
    }
}

/// Read-only mode is on for `true` and `1`.
pub open spec fn read_only_setting(raw: Option<Seq<char>>) -> bool {
    match raw {
        Some(s) => s == "true"@ || s == "1"@,
        None => false,
    }
}

/// `s` without every leading repetition of `p`.
pub open spec fn strip_repeated(s: Seq<char>, p: Seq<char>) -> Seq<char>
    decreases s.len(),
{
    if p.len() > 0 && p.is_prefix_of(s) {
        strip_repeated(s.skip(p.len() as int), p)
    } else {
        s
    }
}

/// Delay used when the delay of the test mode does not parse.
pub const DEFAULT_TEST_DELAY_MS: u64 = 1000;

/// The test mode that a setting selects, read in lower case: `fail`, or
/// `delay:` followed by milliseconds.
pub open spec fn test_mode_setting(raw: Option<Seq<char>>) -> TestMode {
    match raw {
        None => TestMode::Disabled,
        Some(s) => {
            let l = lowercase_of(s);
            if l == "fail"@ {
                TestMode::FailConnection
            } else if "delay:"@.is_prefix_of(l) {
                match bounded_value(strip_repeated(l, "delay:"@), u64::MAX as nat) {
                    Some(v) => TestMode::DelayConnection(v as u64),
                    None => TestMode::DelayConnection(DEFAULT_TEST_DELAY_MS),
                }
            } else {
                TestMode::Disabled
            }
        },
    }
}

fn strip_repeated_str<'a>(s: &'a str, p: &str) -> (r: &'a str)
    requires
        p@.len() > 0,
    ensures
        r@ == strip_repeated(s@, p@),
    decreases s@.len(),
{
    match strip_prefix_chars(s, p) {
        Some(rest) => strip_repeated_str(rest, p),
        None => s,
    }
}

/// Settings as read from the environment; `None` for an unset variable.
#[derive(Debug, Clone, Default)]
pub struct RawSettings {
    pub ws_port: Option<String>,
    pub metrics_port: Option<String>,
    pub tui_binary: Option<String>,
    pub auth_token: Option<String>,
    pub read_only: Option<String>,
    pub idle_timeout_secs: Option<String>,
    pub per_ip_cap: Option<String>,
    pub global_cap: Option<String>,
    pub disconnect_grace_secs: Option<String>,
    pub max_output_queue_bytes: Option<String>,
    pub read_model_url: Option<String>,
    pub gateway_url: Option<String>,
    pub token_ttl_secs: Option<String>,
    pub ring_max_bytes: Option<String>,
    pub ring_max_frames: Option<String>,
    pub test_mode: Option<String>,
}

fn text_or(raw: &Option<String>, default: &str) -> (r: String)
    ensures
        r@ == match opt_view(*raw) {
            Some(s) => s,
            None => default@,
        },
{
    match raw {
        Some(s) => owned(s.as_str()),
        None => owned(default),
    }
}

impl Config {
    /// The configuration that the settings give: each setting that is
    /// absent or does not parse takes its default. Durations are given in
    /// seconds.
    pub fn from_settings(raw: &RawSettings) -> (r: Config)
        ensures
            r.ws_port == number_setting(opt_view(raw.ws_port), u16::MAX as nat, DEFAULT_WS_PORT as nat),
            r.metrics_port == number_setting(opt_view(raw.metrics_port), u16::MAX as nat, DEFAULT_METRICS_PORT as nat),
            r.tui_binary_path@ == (match opt_view(raw.tui_binary) { Some(s) => s, None => DEFAULT_TUI_BINARY@ }),
            opt_view(r.auth_token) == opt_view(raw.auth_token),
            r.read_only == read_only_setting(opt_view(raw.read_only)),
            r.idle_timeout_ms == millis_setting(opt_view(raw.idle_timeout_secs), DEFAULT_IDLE_TIMEOUT_MS as nat),
            r.per_ip_cap == number_setting(opt_view(raw.per_ip_cap), usize::MAX as nat, DEFAULT_PER_IP_CAP as nat),
            r.global_cap == number_setting(opt_view(raw.global_cap), usize::MAX as nat, DEFAULT_GLOBAL_CAP as nat),
            r.disconnect_grace_ms == millis_setting(opt_view(raw.disconnect_grace_secs), DEFAULT_DISCONNECT_GRACE_MS as nat),
            r.max_output_queue_bytes == number_setting(opt_view(raw.max_output_queue_bytes), usize::MAX as nat, DEFAULT_MAX_OUTPUT_QUEUE_BYTES as nat),
            r.read_model_url@ == (match opt_view(raw.read_model_url) { Some(s) => s, None => DEFAULT_READ_MODEL_URL@ }),
            r.gateway_url@ == (match opt_view(raw.gateway_url) { Some(s) => s, None => DEFAULT_GATEWAY_URL@ }),
            r.token_ttl_ms == millis_setting(opt_view(raw.token_ttl_secs), DEFAULT_TOKEN_TTL_MS as nat),
            r.ring_max_bytes == number_setting(opt_view(raw.ring_max_bytes), usize::MAX as nat, DEFAULT_RING_MAX_BYTES as nat),
            r.ring_max_frames == number_setting(opt_view(raw.ring_max_frames), usize::MAX as nat, DEFAULT_RING_MAX_FRAMES as nat),
            r.test_mode == test_mode_setting(opt_view(raw.test_mode)),
    {
        let auth_token = match &raw.auth_token {
            Some(t) => Some(owned(t.as_str())),
            None => None,
        };
        Config {
            ws_port: number_or(&raw.ws_port, u16::MAX as u64, DEFAULT_WS_PORT as u64) as u16,
            metrics_port: number_or(&raw.metrics_port, u16::MAX as u64, DEFAULT_METRICS_PORT as u64) as u16,
            tui_binary_path: text_or(&raw.tui_binary, DEFAULT_TUI_BINARY),
            auth_token,
            read_only: read_only_flag(&raw.read_only),
            idle_timeout_ms: millis_or(&raw.idle_timeout_secs, DEFAULT_IDLE_TIMEOUT_MS),
            per_ip_cap: number_or(&raw.per_ip_cap, usize::MAX as u64, DEFAULT_PER_IP_CAP as u64) as usize,
            global_cap: number_or(&raw.global_cap, usize::MAX as u64, DEFAULT_GLOBAL_CAP as u64) as usize,
            disconnect_grace_ms: millis_or(&raw.disconnect_grace_secs, DEFAULT_DISCONNECT_GRACE_MS),
            max_output_queue_bytes: number_or(&raw.max_output_queue_bytes, usize::MAX as u64, DEFAULT_MAX_OUTPUT_QUEUE_BYTES as u64) as usize,
            read_model_url: text_or(&raw.read_model_url, DEFAULT_READ_MODEL_URL),
            gateway_url: text_or(&raw.gateway_url, DEFAULT_GATEWAY_URL),
            token_ttl_ms: millis_or(&raw.token_ttl_secs, DEFAULT_TOKEN_TTL_MS),
            ring_max_bytes: number_or(&raw.ring_max_bytes, usize::MAX as u64, DEFAULT_RING_MAX_BYTES as u64) as usize,
            ring_max_frames: number_or(&raw.ring_max_frames, usize::MAX as u64, DEFAULT_RING_MAX_FRAMES as u64) as usize,
            test_mode: test_mode_from(&raw.test_mode),
        }
    }
}

fn read_only_flag(raw: &Option<String>) -> (r: bool)
    ensures
        r == read_only_setting(opt_view(*raw)),
{
    match raw {
        Some(s) => same_chars(s.as_str(), "true") || same_chars(s.as_str(), "1"),
        None => false,
    }
}

fn test_mode_from(raw: &Option<String>) -> (r: TestMode)
    ensures
        r == test_mode_setting(opt_view(*raw)),
{
    match raw {
        None => TestMode::Disabled,
        Some(s) => {
            let lower = lowercase(s.as_str());
            let l = lower.as_str();
            proof {
                reveal_strlit("delay:");
            }
            if same_chars(l, "fail") {
                TestMode::FailConnection
            } else {
                match strip_prefix_chars(l, "delay:") {
                    Some(_) => {
                        let rest = strip_repeated_str(l, "delay:");
                        match parse_bounded(rest, u64::MAX) {
                            Some(v) => TestMode::DelayConnection(v),
                            None => TestMode::DelayConnection(DEFAULT_TEST_DELAY_MS),
                        }
                    },
                    None => TestMode::Disabled,
                }
            }
        },
    }
}

pub open spec fn flag_text(b: bool) -> Seq<char> {
    if b {
        "true"@
    } else {
        "false"@
    }
}

/// The lines logged at startup. They show every setting but the secret, of
/// which they tell only whether one is configured.
pub open spec fn startup_lines(c: Config) -> Seq<Seq<char>> {
    let settings = "PTY config: ws_port="@ + decimal(c.ws_port as nat) + ", metrics_port="@ + decimal(
        c.metrics_port as nat,
    ) + ", idle="@ + decimal((c.idle_timeout_ms / 1000) as nat) + "s, per_ip="@ + decimal(
        c.per_ip_cap as nat,
    ) + ", global="@ + decimal(c.global_cap as nat) + ", grace="@ + decimal(
        (c.disconnect_grace_ms / 1000) as nat,
    ) + "s, queue="@ + decimal(c.max_output_queue_bytes as nat) + "B, read_only="@ + flag_text(
        c.read_only,
    );
    let ring = "PTY ring: token_ttl="@ + decimal((c.token_ttl_ms / 1000) as nat) + "s, ring_bytes="@
        + decimal(c.ring_max_bytes as nat) + "B, ring_frames="@ + decimal(c.ring_max_frames as nat);
    let auth = if c.auth_token.is_some() {
        "PTY auth: enabled (token configured)"@
    } else {
        "PTY auth: disabled (no token configured)"@
    };
    let base = seq![settings, ring, auth];
    match c.test_mode {
        TestMode::Disabled => base,
        TestMode::FailConnection => base.push(
            "PTY test mode: FAIL_CONNECTION (all connections will be rejected)"@,
        ),
        TestMode::DelayConnection(ms) => base.push(
            "PTY test mode: DELAY_CONNECTION ("@ + decimal(ms as nat) + "ms delay)"@,
        ),
    }
}

fn append_decimal(s: &mut String, n: u64)
    ensures
        final(s)@ == old(s)@ + decimal(n as nat),
{
    let digits = decimal_string(n);
    s.append(digits.as_str());
}

impl Config {
    /// The lines to log at startup, for operators to confirm the settings.
    /// The secret itself never appears.
    pub fn log_startup(&self) -> (r: Vec<String>)
        ensures
            views_of(r@) == startup_lines(*self),
    {
        let mut settings = owned("PTY config: ws_port=");
        append_decimal(&mut settings, self.ws_port as u64);
        settings.append(", metrics_port=");
        append_decimal(&mut settings, self.metrics_port as u64);
        settings.append(", idle=");
        append_decimal(&mut settings, self.idle_timeout_ms / 1000);
        settings.append("s, per_ip=");
        append_decimal(&mut settings, self.per_ip_cap as u64);
        settings.append(", global=");
        append_decimal(&mut settings, self.global_cap as u64);
        settings.append(", grace=");
        append_decimal(&mut settings, self.disconnect_grace_ms / 1000);
        settings.append("s, queue=");
        append_decimal(&mut settings, self.max_output_queue_bytes as u64);
        settings.append("B, read_only=");
        settings.append(if self.read_only { "true" } else { "false" });
        let mut ring = owned("PTY ring: token_ttl=");
        append_decimal(&mut ring, self.token_ttl_ms / 1000);
        ring.append("s, ring_bytes=");
        append_decimal(&mut ring, self.ring_max_bytes as u64);
        ring.append("B, ring_frames=");
        append_decimal(&mut ring, self.ring_max_frames as u64);
        let auth = if self.auth_token.is_some() {
            owned("PTY auth: enabled (token configured)")
        } else {
            owned("PTY auth: disabled (no token configured)")
        };
        let mut lines: Vec<String> = Vec::new();
        lines.push(settings);
        lines.push(ring);
        lines.push(auth);
        match &self.test_mode {
            TestMode::Disabled => {},
            TestMode::FailConnection => {
                lines.push(owned("PTY test mode: FAIL_CONNECTION (all connections will be rejected)"));
            },
            TestMode::DelayConnection(ms) => {
                let mut line = owned("PTY test mode: DELAY_CONNECTION (");
                append_decimal(&mut line, *ms);
                line.append("ms delay)");
                lines.push(line);
            },
        }
        assert(views_of(lines@) =~= startup_lines(*self));
        lines
    }
}

/// The startup lines do not depend on the secret: two configurations that
/// differ only in the value of a configured secret log the same lines.
pub proof fn lemma_startup_lines_hide_secret(a: Config, b: Config)
    requires
        a.auth_token.is_some() == b.auth_token.is_some(),
        (Config { auth_token: a.auth_token, ..b }) == a,
    ensures
        startup_lines(a) == startup_lines(b),
{
}

} // verus!
