//! Error categories of the dashboard, and hints and remediation steps derived
//! from error text.

use vstd::prelude::*;
use vstd::string::*;

use crate::text::{
    contains_chars, decimal, decimal_string, joined, lowercase, lowercase_of, occurs_in, owned,
    same_chars, views_of,
};

verus! {

/// Why the UI registry could not be loaded.
#[derive(Debug, Clone, PartialEq, Eq)]
pub enum RegistryError {
    NotFound(String),
    Malformed(String),
    InvalidEntry(String),
}

impl RegistryError {
    /// Text for the user.
    pub fn to_message(&self) -> (r: String)
        ensures
            r@ == match self {
                RegistryError::NotFound(m) => "Registry not found: "@ + m@,
                RegistryError::Malformed(m) => "Registry malformed: "@ + m@,
                RegistryError::InvalidEntry(m) => "Invalid entry: "@ + m@,
            },
    {
        match self {
            RegistryError::NotFound(m) => joined("Registry not found: ", m.as_str()),
            RegistryError::Malformed(m) => joined("Registry malformed: ", m.as_str()),
            RegistryError::InvalidEntry(m) => joined("Invalid entry: ", m.as_str()),
        }
    }
}

/// Why a job submission failed.
#[derive(Debug, Clone, PartialEq, Eq)]
pub enum SubmitError {
    Timeout,
    ConnectionRefused,
    ValidationFailed(String),
    ServerError(u16, String),
    NetworkError(String),
}

impl SubmitError {
    /// Text for the user.
    pub fn to_message(&self) -> (r: String)
        ensures
            r@ == match self {
                SubmitError::Timeout => "Gateway timeout (2s) - cluster may be starting or unavailable"@,
                SubmitError::ConnectionRefused => "Cannot connect to Gateway - ensure cluster is running"@,
                SubmitError::ValidationFailed(m) => "Validation failed: "@ + m@,
                SubmitError::ServerError(code, body) => "Gateway returned "@ + decimal(*code as nat) + ": "@ + body@,
                SubmitError::NetworkError(m) => "Network error: "@ + m@,
            },
    {
        match self {
            SubmitError::Timeout => owned("Gateway timeout (2s) - cluster may be starting or unavailable"),
            SubmitError::ConnectionRefused => owned("Cannot connect to Gateway - ensure cluster is running"),
            SubmitError::ValidationFailed(m) => joined("Validation failed: ", m.as_str()),
            SubmitError::ServerError(code, body) => {
                let mut s = owned("Gateway returned ");
                let digits = decimal_string(*code as u64);
                s.append(digits.as_str());
                s.append(": ");
                s.append(body.as_str());
                s
            },
            SubmitError::NetworkError(m) => joined("Network error: ", m.as_str()),
        }
    }
}

/// Why a browser could not be opened.
#[derive(Debug, Clone, PartialEq, Eq)]
pub enum BrowserError {
    NotAvailable(String),
    EnvironmentRestricted(String),
    LaunchFailed(String),
}

impl BrowserError {
    /// Text for the user.
    pub fn to_message(&self) -> (r: String)
        ensures
            r@ == match self {
                BrowserError::NotAvailable(m) => "No browser available: "@ + m@,
                BrowserError::EnvironmentRestricted(m) => "Environment restriction: "@ + m@,
                BrowserError::LaunchFailed(m) => "Launch failed: "@ + m@,
            },
    {
        match self {
            BrowserError::NotAvailable(m) => joined("No browser available: ", m.as_str()),
            BrowserError::EnvironmentRestricted(m) => joined("Environment restriction: ", m.as_str()),
            BrowserError::LaunchFailed(m) => joined("Launch failed: ", m.as_str()),
        }
    }
}

/// The hint for an error message, chosen by the first keyword that occurs in
/// its lower-case form.
pub open spec fn error_hint(lower: Seq<char>) -> Seq<char> {
    if occurs_in("docker"@, lower) {
        "Docker Desktop may not be running"@
    } else if occurs_in("kind"@, lower) || occurs_in("cluster"@, lower) {
        "Kind cluster tool may need to be installed"@
    } else if occurs_in("kubectl"@, lower) {
        "kubectl may need to be installed"@
    } else if occurs_in("timeout"@, lower) || occurs_in("timed out"@, lower) {
        "Operation timed out - services may be slow to start"@
    } else if occurs_in("port"@, lower) || occurs_in("address already in use"@, lower) {
        "Port conflict detected - another application may be using the port"@
    } else if occurs_in("permission"@, lower) || occurs_in("access denied"@, lower) {
        "Permission issue - may need elevated privileges"@
    } else {
        "An unexpected error occurred"@
    }
}

/// A short hint on what may have caused an error.
pub fn get_error_hint(message: &str) -> (r: String)
    ensures
        r@ == error_hint(lowercase_of(message@)),
{
    let lower = lowercase(message);
    let m = lower.as_str();
    if contains_chars(m, "docker") {
        owned("Docker Desktop may not be running")
    } else if contains_chars(m, "kind") || contains_chars(m, "cluster") {
        owned("Kind cluster tool may need to be installed")
    } else if contains_chars(m, "kubectl") {
        owned("kubectl may need to be installed")
    } else if contains_chars(m, "timeout") || contains_chars(m, "timed out") {
        owned("Operation timed out - services may be slow to start")
    } else if contains_chars(m, "port") || contains_chars(m, "address already in use") {
        owned("Port conflict detected - another application may be using the port")
    } else if contains_chars(m, "permission") || contains_chars(m, "access denied") {
        owned("Permission issue - may need elevated privileges")
    } else {
        owned("An unexpected error occurred")
    }
}

pub open spec fn docker_restart_steps() -> Seq<Seq<char>> {
    seq![
        "1. Open Docker Desktop"@,
        "2. Wait for it to fully start (whale icon stable)"@,
        "3. Press any key, then 'L' to retry"@,
    ]
}

/// The remediation steps for an error message, chosen by the first keyword
/// that occurs in its lower-case form.
pub open spec fn remediation(lower: Seq<char>) -> Seq<Seq<char>> {
    if occurs_in("docker"@, lower) {
        docker_restart_steps()
    } else if occurs_in("kind"@, lower) {
        kind_install_steps()
    } else if occurs_in("kubectl"@, lower) {
        kubectl_install_steps()
    } else if occurs_in("port"@, lower) {
        port_conflict_steps()
    } else {
        generic_error_steps()
    }
}

/// Steps that may fix the cause of an error.
pub fn get_remediation_steps(message: &str) -> (r: Vec<String>)
    ensures
        views_of(r@) == remediation(lowercase_of(message@)),
{
    let lower = lowercase(message);
    let m = lower.as_str();
    if contains_chars(m, "docker") {
        let mut v: Vec<String> = Vec::new();
        v.push(owned("1. Open Docker Desktop"));
        v.push(owned("2. Wait for it to fully start (whale icon stable)"));
        v.push(owned("3. Press any key, then 'L' to retry"));
        assert(views_of(v@) =~= docker_restart_steps());
        v
    } else if contains_chars(m, "kind") {
        get_kind_install_steps()
    } else if contains_chars(m, "kubectl") {
        get_kubectl_install_steps()
    } else if contains_chars(m, "port") {
        get_port_conflict_steps()
    } else {
        get_generic_error_steps()
    }
}

pub open spec fn docker_install_steps() -> Seq<Seq<char>> {
    seq![
        "Install Docker:"@,
        "  Ubuntu/Debian: sudo apt-get install docker.io"@,
        "  Fedora: sudo dnf install docker"@,
        "  Start: sudo systemctl start docker"@,
        "  Add user to docker group: sudo usermod -aG docker $USER"@,
    ]
}

/// How to install Docker on Linux.
pub fn get_docker_install_steps() -> (r: Vec<String>)
    ensures
        views_of(r@) == docker_install_steps(),
{
    let mut v: Vec<String> = Vec::new();
    v.push(owned("Install Docker:"));
    v.push(owned("  Ubuntu/Debian: sudo apt-get install docker.io"));
    v.push(owned("  Fedora: sudo dnf install docker"));
    v.push(owned("  Start: sudo systemctl start docker"));
    v.push(owned("  Add user to docker group: sudo usermod -aG docker $USER"));
    assert(views_of(v@) =~= docker_install_steps());
    v
}

pub open spec fn pwsh_install_steps() -> Seq<Seq<char>> {
    seq![
        "Install PowerShell Core:"@,
        "  Ubuntu/Debian: sudo apt-get install -y powershell"@,
        "  Fedora: sudo dnf install -y powershell"@,
        "  Or: https://aka.ms/install-powershell"@,
        "Then restart your terminal and retry"@,
    ]
}

/// How to install PowerShell Core on Linux.
pub fn get_pwsh_install_steps() -> (r: Vec<String>)
    ensures
        views_of(r@) == pwsh_install_steps(),
{
    let mut v: Vec<String> = Vec::new();
    v.push(owned("Install PowerShell Core:"));
    v.push(owned("  Ubuntu/Debian: sudo apt-get install -y powershell"));
    v.push(owned("  Fedora: sudo dnf install -y powershell"));
    v.push(owned("  Or: https://aka.ms/install-powershell"));
    v.push(owned("Then restart your terminal and retry"));
    assert(views_of(v@) =~= pwsh_install_steps());
    v
}

pub open spec fn kind_install_steps() -> Seq<Seq<char>> {
    seq![
        "Install kind:"@,
        "  curl -Lo ./kind https://kind.sigs.k8s.io/dl/v0.20.0/kind-linux-amd64"@,
        "  chmod +x ./kind && sudo mv ./kind /usr/local/bin/kind"@,
        "  Or: go install sigs.k8s.io/kind@latest"@,
        "Restart terminal and retry"@,
    ]
}

/// How to install kind on Linux.
pub fn get_kind_install_steps() -> (r: Vec<String>)
    ensures
        views_of(r@) == kind_install_steps(),
{
    let mut v: Vec<String> = Vec::new();
    v.push(owned("Install kind:"));
    v.push(owned("  curl -Lo ./kind https://kind.sigs.k8s.io/dl/v0.20.0/kind-linux-amd64"));
    v.push(owned("  chmod +x ./kind && sudo mv ./kind /usr/local/bin/kind"));
    v.push(owned("  Or: go install sigs.k8s.io/kind@latest"));
    v.push(owned("Restart terminal and retry"));
    assert(views_of(v@) =~= kind_install_steps());
    v
}

pub open spec fn kubectl_install_steps() -> Seq<Seq<char>> {
    seq![
        "Install kubectl:"@,
        "  curl -LO \"https://dl.k8s.io/release/$(curl -L -s https://dl.k8s.io/release/stable.txt)/bin/linux/amd64/kubectl\""@,
        "  chmod +x kubectl && sudo mv kubectl /usr/local/bin/"@,
        "  Or via snap: sudo snap install kubectl --classic"@,
        "Restart terminal and retry"@,
    ]
}

/// How to install kubectl on Linux.
pub fn get_kubectl_install_steps() -> (r: Vec<String>)
    ensures
        views_of(r@) == kubectl_install_steps(),
{
    let mut v: Vec<String> = Vec::new();
    v.push(owned("Install kubectl:"));
    v.push(owned("  curl -LO \"https://dl.k8s.io/release/$(curl -L -s https://dl.k8s.io/release/stable.txt)/bin/linux/amd64/kubectl\""));
    v.push(owned("  chmod +x kubectl && sudo mv kubectl /usr/local/bin/"));
    v.push(owned("  Or via snap: sudo snap install kubectl --classic"));
    v.push(owned("Restart terminal and retry"));
    assert(views_of(v@) =~= kubectl_install_steps());
    v
}

pub open spec fn port_conflict_steps() -> Seq<Seq<char>> {
    seq![
        "Check for conflicting applications:"@,
        "  lsof -i :3000"@,
        "  lsof -i :8080"@,
        "Stop the conflicting application and retry"@,
    ]
}

/// How to find what holds the dashboard's ports.
pub fn get_port_conflict_steps() -> (r: Vec<String>)
    ensures
        views_of(r@) == port_conflict_steps(),
{
    let mut v: Vec<String> = Vec::new();
    v.push(owned("Check for conflicting applications:"));
    v.push(owned("  lsof -i :3000"));
    v.push(owned("  lsof -i :8080"));
    v.push(owned("Stop the conflicting application and retry"));
    assert(views_of(v@) =~= port_conflict_steps());
    v
}

pub open spec fn generic_error_steps() -> Seq<Seq<char>> {
    seq![
        "Review the error messages above"@,
        "Try running: pwsh ./scripts/start-all.ps1"@,
        "Check Docker Desktop is running"@,
    ]
}

/// Steps for an error of no known kind.
pub fn get_generic_error_steps() -> (r: Vec<String>)
    ensures
        views_of(r@) == generic_error_steps(),
{
    let mut v: Vec<String> = Vec::new();
    v.push(owned("Review the error messages above"));
    v.push(owned("Try running: pwsh ./scripts/start-all.ps1"));
    v.push(owned("Check Docker Desktop is running"));
    assert(views_of(v@) =~= generic_error_steps());
    v
}

/// The install command of a prerequisite, by its lower-case name.
pub open spec fn install_command(lower: Seq<char>) -> Option<Seq<char>> {
    if lower == "docker"@ || lower == "docker desktop"@ {
        Some("sudo apt-get install -y docker.io"@)
    } else if lower == "powershell"@ || lower == "powershell core"@ || lower == "pwsh"@ {
        Some("sudo apt-get install -y powershell"@)
    } else if lower == "kubectl"@ {
        Some("sudo snap install kubectl --classic"@)
    } else if lower == "kind"@ {
        Some("curl -Lo ./kind https://kind.sigs.k8s.io/dl/v0.20.0/kind-linux-amd64 && chmod +x ./kind && sudo mv ./kind /usr/local/bin/kind"@)
    } else {
        None
    }
}

/// The command that installs a prerequisite, for copying or running.
pub fn get_install_command(prereq_name: &str) -> (r: Option<String>)
    ensures
        match r {
            Some(c) => install_command(lowercase_of(prereq_name@)) == Some(c@),
            None => install_command(lowercase_of(prereq_name@)).is_none(),
        },
{
    let lower = lowercase(prereq_name);
    let n = lower.as_str();
    if same_chars(n, "docker") || same_chars(n, "docker desktop") {
        Some(owned("sudo apt-get install -y docker.io"))
    } else if same_chars(n, "powershell") || same_chars(n, "powershell core") || same_chars(n, "pwsh") {
        Some(owned("sudo apt-get install -y powershell"))
    } else if same_chars(n, "kubectl") {
        Some(owned("sudo snap install kubectl --classic"))
    } else if same_chars(n, "kind") {
        Some(owned("curl -Lo ./kind https://kind.sigs.k8s.io/dl/v0.20.0/kind-linux-amd64 && chmod +x ./kind && sudo mv ./kind /usr/local/bin/kind"))
    } else {
        None
    }
}

} // verus!
