//! State types and constants of the dashboard.

use std::sync::{Arc, Mutex};
use std::time::Instant;
use vstd::prelude::*;

use crate::dashboard::error::{error_hint, get_error_hint, get_remediation_steps, remediation};
use crate::dashboard::install::exit_code_text;
use vstd::string::*;

use crate::text::{decimal, decimal_string, joined, lowercase_of, owned, same_chars, views_of};

verus! {

/// Logo drawn on the loading screen.
pub const LOGO: &'static str = "
            .....        
         .#########.     
       .#####      ##    
      ####+###+    ##+   
    ######  +###+  ###   
  #### -######+######+   
+###.   +####.  +###+    
 ..   -###+########.     
    .###+   .####.       
     -+    +###.         
         -###-           
         -#-             
";

/// Frames of the spinner (Braille dots).
pub const SPINNER_FRAMES: [&'static str; 10] = ["\u{280b}", "\u{2819}", "\u{2839}", "\u{2838}", "\u{283c}", "\u{2834}", "\u{2826}", "\u{2827}", "\u{2807}", "\u{280f}"];

/// Messages that cycle on the loading screen.
pub const LOADING_MESSAGES: [&'static str; 4] = [
    "Connecting to services",
    "Fetching statistics",
    "Loading job data",
    "Checking alerts",
];

/// Version of the dashboard.
pub const APP_VERSION: &'static str = "0.1.0";

/// Attempts at fetching alerts before giving up.
pub const MAX_ALERT_RETRIES: u8 = 3;

/// `std::sync::Mutex`, carried through as an opaque value.
#[verifier::external_type_specification]
#[verifier::external_body]
#[verifier::reject_recursive_types(T)]
pub struct ExMutex<T: ?Sized>(Mutex<T>);

/// Relies on `std::sync::Mutex::new`: a new unlocked mutex holding `t`.
#[verifier::external_body]
fn new_mutex<T>(t: T) -> (r: Mutex<T>) {
    Mutex::new(t)
}

/// Which view the dashboard shows.
#[derive(Debug, Clone, Copy, PartialEq, Eq, Structural)]
pub enum AppMode {
    Loading,
    Launcher,
    SetupProgress,
    Dashboard,
    TaskCreation,
    UiLauncher,
    PrerequisiteSetup,
}

/// State of the cluster after a check.
#[derive(Debug, Clone, PartialEq, Eq)]
pub enum ClusterStatus {
    Ready,
    /// The cluster exists but runs no application pods.
    NoPods,
    NotFound,
    Error(String),
}

/// Progress of the setup script.
#[derive(Debug, Clone)]
pub struct SetupProgress {
    pub current_step: String,
    pub current_status: String,
    pub message: String,
    /// What may fix the error.
    pub error_hint: String,
    /// Commands that may fix the error, one per line.
    pub remediation: Vec<String>,
    pub is_complete: bool,
    pub has_error: bool,
    pub log_lines: Vec<String>,
    /// When setup started, for the elapsed time.
    pub start_time: Option<Instant>,
}

impl Default for SetupProgress {
    fn default() -> (r: SetupProgress)
        ensures
            r.current_step@.len() == 0,
            r.current_status@.len() == 0,
            r.message@.len() == 0,
            r.error_hint@.len() == 0,
            r.remediation@.len() == 0,
            !r.is_complete,
            !r.has_error,
            r.log_lines@.len() == 0,
            r.start_time.is_none(),
    {
        SetupProgress {
            current_step: String::new(),
            current_status: String::new(),
            message: String::new(),
            error_hint: String::new(),
            remediation: Vec::new(),
            is_complete: false,
            has_error: false,
            log_lines: Vec::new(),
            start_time: None,
        }
    }
}

pub open spec fn failed_setup_steps() -> Seq<Seq<char>> {
    seq![
        "Check the log output above for details"@,
        "Try running manually: pwsh ./scripts/start-all.ps1"@,
        "Ensure Docker Desktop is running"@,
    ]
}

impl SetupProgress {
    /// Records one output line of the setup script.
    pub fn record_line(&mut self, line: String)
        ensures
            views_of(final(self).log_lines@) == views_of(old(self).log_lines@).push(line@),
            *final(self) == (SetupProgress { log_lines: final(self).log_lines, ..*old(self) }),
    {
        let ghost v = line@;
        self.log_lines.push(line);
        assert(views_of(self.log_lines@) =~= views_of(old(self).log_lines@).push(v));
    }

    /// Applies a progress event of the setup script: its step, its status
    /// and its message, each when present. An `error` status marks the
    /// setup as failed, with a hint and remediation derived from the
    /// message.
    pub fn apply_event(&mut self, step: Option<&str>, status: Option<&str>, message: Option<&str>)
        ensures
            final(self).current_step@ == (match step {
                Some(s) => s@,
                None => old(self).current_step@,
            }),
            final(self).current_status@ == (match status {
                Some(s) => s@,
                None => old(self).current_status@,
            }),
            final(self).message@ == (match message {
                Some(m) => m@,
                None => old(self).message@,
            }),
            final(self).has_error == (old(self).has_error || (status.is_some() && status.unwrap()@
                == "error"@)),
            (status.is_some() && status.unwrap()@ == "error"@ && message.is_some()) ==> final(self).error_hint@ == error_hint(lowercase_of(message.unwrap()@)) && views_of(
                final(self).remediation@,
            ) == remediation(lowercase_of(message.unwrap()@)),
            !(status.is_some() && status.unwrap()@ == "error"@ && message.is_some()) ==> final(self).error_hint == old(self).error_hint && final(self).remediation == old(self).remediation,
            final(self).is_complete == old(self).is_complete,
            final(self).log_lines == old(self).log_lines,
            final(self).start_time == old(self).start_time,
    {
        if let Some(s) = step {
            self.current_step = owned(s);
        }
        if let Some(s) = status {
            self.current_status = owned(s);
            if same_chars(s, "error") {
                self.has_error = true;
                if let Some(m) = message {
                    self.error_hint = get_error_hint(m);
                    self.remediation = get_remediation_steps(m);
                }
            }
        }
        if let Some(m) = message {
            self.message = owned(m);
        }
    }

    /// Marks the setup as finished. `exit` is whether the script succeeded
    /// and its exit code, when it could be waited for. A failure keeps a
    /// message and hint the script gave, and fills in generic ones otherwise.
    pub fn finish(&mut self, exit: Option<(bool, Option<i32>)>)
        ensures
            final(self).is_complete,
            final(self).has_error == (old(self).has_error || (exit is Some && !exit.unwrap().0)),
            (exit is Some && !exit.unwrap().0 && old(self).message@.len() == 0) ==> final(self).message@ == "Setup failed with exit code: "@ + exit_code_text(exit.unwrap().1),
            !(exit is Some && !exit.unwrap().0 && old(self).message@.len() == 0) ==> final(self).message == old(self).message,
            (exit is Some && !exit.unwrap().0 && old(self).error_hint@.len() == 0) ==> final(self).error_hint@ == "The setup script encountered an error"@ && views_of(
                final(self).remediation@,
            ) == failed_setup_steps(),
            !(exit is Some && !exit.unwrap().0 && old(self).error_hint@.len() == 0) ==> final(self).error_hint == old(self).error_hint && final(self).remediation == old(self).remediation,
            final(self).log_lines == old(self).log_lines,
            final(self).current_step == old(self).current_step,
            final(self).current_status == old(self).current_status,
    {
        self.is_complete = true;
        if let Some((success, code)) = exit {
            if !success {
                self.has_error = true;
                if self.message.as_str().unicode_len() == 0 {
                    let text = crate::dashboard::install::exit_code_string(code);
                    self.message = joined("Setup failed with exit code: ", text.as_str());
                }
                if self.error_hint.as_str().unicode_len() == 0 {
                    self.error_hint = owned("The setup script encountered an error");
                    let mut steps: Vec<String> = Vec::new();
                    steps.push(owned("Check the log output above for details"));
                    steps.push(owned("Try running manually: pwsh ./scripts/start-all.ps1"));
                    steps.push(owned("Ensure Docker Desktop is running"));
                    assert(views_of(steps@) =~= failed_setup_steps());
                    self.remediation = steps;
                }
            }
        }
    }
}

/// Where a task submission stands.
#[derive(Debug, Clone, PartialEq, Eq)]
pub enum TaskCreationStatus {
    Editing,
    Submitting,
    /// Holds the id of the created job.
    Success(String),
    /// Holds the error message.
    Error(String),
}

/// State of the task creation dialog.
#[derive(Debug, Clone)]
pub struct TaskCreationState {
    pub job_type: String,
    pub status: TaskCreationStatus,
}

impl Default for TaskCreationState {
    fn default() -> (r: TaskCreationState)
        ensures
            r.job_type@.len() == 0,
            r.status == TaskCreationStatus::Editing,
    {
        TaskCreationState { job_type: String::new(), status: TaskCreationStatus::Editing }
    }
}

/// A job as submitted to the gateway.
#[derive(Debug, Clone)]
pub struct JobPayload {
    pub id: String,
    pub job_type: String,
    pub status: String,
    pub created_at: String,
}

/// A launchable web UI.
#[derive(Debug, Clone)]
pub struct UiEntry {
    pub id: String,
    pub name: String,
    pub port: u16,
    pub path: String,
    pub emoji: String,
    pub description: String,
}

/// Every launchable web UI.
#[derive(Debug, Clone)]
pub struct UiRegistry {
    pub base_url: String,
    pub entries: Vec<UiEntry>,
}

/// State of the UI launcher.
#[derive(Debug, Clone)]
pub struct UiLauncherState {
    pub selected_index: usize,
    pub registry: Option<UiRegistry>,
    /// A browser or registry error to show.
    pub error: Option<String>,
}

impl Default for UiLauncherState {
    fn default() -> (r: UiLauncherState)
        ensures
            r.selected_index == 0,
            r.registry.is_none(),
            r.error.is_none(),
    {
        UiLauncherState { selected_index: 0, registry: None, error: None }
    }
}

/// Job statistics of the read model.
#[derive(Debug, Clone)]
pub struct Stats {
    pub total_jobs: i64,
    pub completed_jobs: i64,
    pub failed_jobs: i64,
    pub last_event_time: String,
}

impl Default for Stats {
    fn default() -> (r: Stats)
        ensures
            r.total_jobs == 0,
            r.completed_jobs == 0,
            r.failed_jobs == 0,
            r.last_event_time@.len() == 0,
    {
        Stats { total_jobs: 0, completed_jobs: 0, failed_jobs: 0, last_event_time: String::new() }
    }
}

/// A job of the read model.
#[derive(Debug, Clone)]
pub struct Job {
    pub id: String,
    pub job_type: String,
    pub status: String,
    pub created_at: String,
}

/// Labels of an alert; each may be absent.
#[derive(Debug, Clone)]
pub struct AlertLabels {
    pub alertname: Option<String>,
    pub severity: Option<String>,
    pub service: Option<String>,
}

/// A firing alert.
#[derive(Debug, Clone)]
pub struct Alert {
    pub labels: AlertLabels,
}

/// Installation state of a prerequisite.
#[derive(Debug, Clone, PartialEq, Eq)]
pub enum PrereqStatus {
    Installed,
    Missing,
    Installing,
    InstallFailed(String),
}

/// A tool the dashboard needs.
#[derive(Debug, Clone)]
pub struct Prerequisite {
    pub name: String,
    pub status: PrereqStatus,
    pub version: Option<String>,
    /// Install instructions, one per line.
    pub install_cmd: Vec<String>,
}

/// What to do with an install command.
#[derive(Debug, Clone, Copy, PartialEq, Eq, Structural)]
pub enum InstallAction {
    /// Run it.
    Execute,
    /// Copy it to the clipboard.
    CopyToClipboard,
}

/// State of the guided prerequisite installation.
#[derive(Debug, Clone)]
pub struct PrerequisiteSetupState {
    pub prerequisites: Vec<Prerequisite>,
    pub selected_index: usize,
    pub install_action: Option<InstallAction>,
    /// Index of the prerequisite being installed.
    pub current_install: Option<usize>,
    /// Feedback for the user.
    pub message: Option<String>,
    /// Output of the running install.
    pub output_lines: Vec<String>,
    pub is_installing: bool,
}

impl Default for PrerequisiteSetupState {
    fn default() -> (r: PrerequisiteSetupState)
        ensures
            r.prerequisites@.len() == 0,
            r.selected_index == 0,
            r.install_action.is_none(),
            r.current_install.is_none(),
            r.message.is_none(),
            r.output_lines@.len() == 0,
            !r.is_installing,
    {
        PrerequisiteSetupState {
            prerequisites: Vec::new(),
            selected_index: 0,
            install_action: None,
            current_install: None,
            message: None,
            output_lines: Vec::new(),
            is_installing: false,
        }
    }
}

/// State of the whole dashboard.
pub struct App {
    pub mode: AppMode,
    pub stats: Stats,
    pub jobs: Vec<Job>,
    pub alerts: Vec<Alert>,
    pub alerts_error: Option<String>,
    pub api_url: String,
    pub gateway_url: String,
    pub alert_retry_count: u8,
    /// Shared with the thread that runs the setup script.
    pub setup_progress: Arc<Mutex<SetupProgress>>,
    pub task_state: TaskCreationState,
    pub launcher_state: UiLauncherState,
    pub prereq_state: PrerequisiteSetupState,
}

impl App {
    /// A dashboard on the loading screen that talks to the given services.
    pub fn new(api_url: String, gateway_url: String) -> (r: App)
        ensures
            r.mode == AppMode::Loading,
            r.api_url@ == api_url@,
            r.gateway_url@ == gateway_url@,
            r.stats.total_jobs == 0,
            r.jobs@.len() == 0,
            r.alerts@.len() == 0,
            r.alerts_error.is_none(),
            r.alert_retry_count == 0,
            r.task_state.status == TaskCreationStatus::Editing,
            r.launcher_state.selected_index == 0,
            r.prereq_state.prerequisites@.len() == 0,
    {
        App {
            mode: AppMode::Loading,
            stats: Stats::default(),
            jobs: Vec::new(),
            alerts: Vec::new(),
            alerts_error: None,
            api_url,
            gateway_url,
            alert_retry_count: 0,
            setup_progress: Arc::new(new_mutex(SetupProgress::default())),
            task_state: TaskCreationState::default(),
            launcher_state: UiLauncherState::default(),
            prereq_state: PrerequisiteSetupState::default(),
        }
    }
}

pub open spec fn alerts_error_text(count: u8) -> Seq<char> {
    if count >= MAX_ALERT_RETRIES {
        "Prometheus unavailable (retried "@ + decimal(MAX_ALERT_RETRIES as nat) + "x)"@
    } else {
        "Connecting to Prometheus... (attempt "@ + decimal(count as nat) + ")"@
    }
}

impl App {
    /// Records alerts that were fetched: they replace the old ones, and the
    /// retry count starts over.
    pub fn record_alerts(&mut self, alerts: Vec<Alert>)
        ensures
            final(self).alerts == alerts,
            final(self).alerts_error.is_none(),
            final(self).alert_retry_count == 0,
            final(self).mode == old(self).mode,
    {
        self.alerts = alerts;
        self.alerts_error = None;
        self.alert_retry_count = 0;
    }

    /// Records a failed fetch of alerts: the attempt is counted (up to the
    /// largest count) and the message says whether retries go on.
    pub fn record_alerts_failure(&mut self)
        ensures
            final(self).alert_retry_count == (if old(self).alert_retry_count < u8::MAX {
                old(self).alert_retry_count + 1
            } else {
                u8::MAX as int
            }),
            final(self).alerts_error is Some && final(self).alerts_error->Some_0@ == alerts_error_text(
                final(self).alert_retry_count,
            ),
            final(self).alerts == old(self).alerts,
            final(self).mode == old(self).mode,
    {
        self.alert_retry_count = self.alert_retry_count.saturating_add(1);
        let message = if self.alert_retry_count >= MAX_ALERT_RETRIES {
            let mut m = owned("Prometheus unavailable (retried ");
            let digits = decimal_string(MAX_ALERT_RETRIES as u64);
            m.append(digits.as_str());
            m.append("x)");
            m
        } else {
            let mut m = owned("Connecting to Prometheus... (attempt ");
            let digits = decimal_string(self.alert_retry_count as u64);
            m.append(digits.as_str());
            m.append(")");
            m
        };
        self.alerts_error = Some(message);
    }
}

} // verus!
