//! Platform support and prerequisite bookkeeping. Running the probe commands
//! is left to the caller; the results come in as plain values.

use vstd::prelude::*;
use vstd::string::*;

use crate::dashboard::error::{
    docker_install_steps, get_docker_install_steps, get_kind_install_steps,
    get_kubectl_install_steps, get_pwsh_install_steps, kind_install_steps, kubectl_install_steps,
    pwsh_install_steps,
};
use crate::dashboard::types::{PrereqStatus, Prerequisite};
use crate::text::{owned, same_chars, views_of};

verus! {

/// Supported platforms, as operating system and architecture names of Rust.
pub const SUPPORT_MATRIX: [(&'static str, &'static str); 5] = [
    ("windows", "x86_64"),
    ("macos", "x86_64"),
    ("macos", "aarch64"),
    ("linux", "x86_64"),
    ("linux", "aarch64"),
];

pub const SUPPORT_MATRIX_URL: &'static str = "https://github.com/oddessentials/odd-demonstration/blob/main/docs/SUPPORT_MATRIX.md";

/// Whether the platform is in the support matrix.
pub open spec fn is_supported(os: Seq<char>, arch: Seq<char>) -> bool {
    ||| os == "windows"@ && arch == "x86_64"@
    ||| os == "macos"@ && arch == "x86_64"@
    ||| os == "macos"@ && arch == "aarch64"@
    ||| os == "linux"@ && arch == "x86_64"@
    ||| os == "linux"@ && arch == "aarch64"@
}

/// `Ok` for a supported platform; otherwise the message that names it and
/// points at the support matrix.
pub fn check_platform_support(os: &str, arch: &str) -> (r: Result<(), String>)
    ensures
        is_supported(os@, arch@) ==> r is Ok,
        !is_supported(os@, arch@) ==> r is Err && r->Err_0@ == "Unsupported platform: "@ + os@
            + "-"@ + arch@ + "\nSee supported configurations: "@ + SUPPORT_MATRIX_URL@,
{
    let supported = (same_chars(os, "windows") && same_chars(arch, "x86_64")) || (same_chars(
        os,
        "macos",
    ) && same_chars(arch, "x86_64")) || (same_chars(os, "macos") && same_chars(arch, "aarch64"))
        || (same_chars(os, "linux") && same_chars(arch, "x86_64")) || (same_chars(os, "linux")
        && same_chars(arch, "aarch64"));
    if supported {
        Ok(())
    } else {
        let mut m = owned("Unsupported platform: ");
        m.append(os);
        m.append("-");
        m.append(arch);
        m.append("\nSee supported configurations: ");
        m.append(SUPPORT_MATRIX_URL);
        Err(m)
    }
}

/// First output line of each probe command, or `None` when the tool could
/// not be run. `kubectl` holds the result of the short form, or else of the
/// plain form of `kubectl version --client`.
#[derive(Debug, Clone)]
pub struct PrerequisiteProbes {
    pub docker: Option<String>,
    pub pwsh: Option<String>,
    pub kubectl: Option<String>,
    pub kind: Option<String>,
}

pub open spec fn opt_view(s: Option<String>) -> Option<Seq<char>> {
    match s {
        Some(v) => Some(v@),
        None => None,
    }
}

/// `p` is the prerequisite `name` as its probe found it.
pub open spec fn is_probed(p: Prerequisite, name: Seq<char>, probe: Option<String>, steps: Seq<Seq<char>>) -> bool {
    &&& p.name@ == name
    &&& p.status == (if probe.is_some() {
        PrereqStatus::Installed
    } else {
        PrereqStatus::Missing
    })
    &&& opt_view(p.version) == opt_view(probe)
    &&& views_of(p.install_cmd@) == steps
}

fn probed(name: &str, probe: &Option<String>, steps: Vec<String>) -> (r: Prerequisite)
    ensures
        is_probed(r, name@, *probe, views_of(steps@)),
{
    match probe {
        Some(v) => Prerequisite {
            name: owned(name),
            status: PrereqStatus::Installed,
            version: Some(owned(v.as_str())),
            install_cmd: steps,
        },
        None => Prerequisite {
            name: owned(name),
            status: PrereqStatus::Missing,
            version: None,
            install_cmd: steps,
        },
    }
}

/// The four prerequisites, Docker, PowerShell Core, kubectl and kind, with
/// their state as the probes found it and their install steps.
pub fn check_all_prerequisites(probes: &PrerequisiteProbes) -> (r: Vec<Prerequisite>)
    ensures
        r@.len() == 4,
        is_probed(r@[0], "Docker"@, probes.docker, docker_install_steps()),
        is_probed(r@[1], "PowerShell Core"@, probes.pwsh, pwsh_install_steps()),
        is_probed(r@[2], "kubectl"@, probes.kubectl, kubectl_install_steps()),
        is_probed(r@[3], "kind"@, probes.kind, kind_install_steps()),
{
    let mut v: Vec<Prerequisite> = Vec::new();
    v.push(probed("Docker", &probes.docker, get_docker_install_steps()));
    v.push(probed("PowerShell Core", &probes.pwsh, get_pwsh_install_steps()));
    v.push(probed("kubectl", &probes.kubectl, get_kubectl_install_steps()));
    v.push(probed("kind", &probes.kind, get_kind_install_steps()));
    v
}

/// Number of missing prerequisites.
pub open spec fn missing_count(ps: Seq<Prerequisite>) -> nat
    decreases ps.len(),
{
    if ps.len() == 0 {
        0
    } else {
        missing_count(ps.drop_last()) + (if ps.last().status == PrereqStatus::Missing {
            1nat
        } else {
            0nat
        })
    }
}

proof fn lemma_missing_count(ps: Seq<Prerequisite>)
    ensures
        missing_count(ps) <= ps.len(),
        missing_count(ps) > 0 <==> exists|i: int|
            0 <= i < ps.len() && (#[trigger] ps[i]).status == PrereqStatus::Missing,
    decreases ps.len(),
{
    if ps.len() > 0 {
        let p = ps.drop_last();
        lemma_missing_count(p);
        if missing_count(p) > 0 {
            let i = choose|i: int| 0 <= i < p.len() && (#[trigger] p[i]).status == PrereqStatus::Missing;
            assert(ps[i] == p[i]);
        }
        if exists|i: int| 0 <= i < ps.len() && (#[trigger] ps[i]).status == PrereqStatus::Missing {
            let i = choose|i: int| 0 <= i < ps.len() && (#[trigger] ps[i]).status == PrereqStatus::Missing;
            if i < p.len() {
                assert(p[i] == ps[i]);
            }
        }
    }
}

/// How many prerequisites are missing.
pub fn missing_prereq_count(prereqs: &Vec<Prerequisite>) -> (r: usize)
    ensures
        r == missing_count(prereqs@),
{
    let ghost ps = prereqs@;
    let mut count: usize = 0;
    let mut i: usize = 0;
    while i < prereqs.len()
        invariant
            ps == prereqs@,
            i <= ps.len(),
            count == missing_count(ps.take(i as int)),
        decreases ps.len() - i,
    {
        proof {
            assert(ps.take(i + 1).drop_last() =~= ps.take(i as int));
            assert(ps.take(i + 1).last() == ps[i as int]);
            lemma_missing_count(ps.take(i as int));
        }
        if let PrereqStatus::Missing = prereqs[i].status {
            count = count + 1;
        }
        i = i + 1;
    }
    assert(ps.take(i as int) =~= ps);
    count
}

/// Whether any prerequisite is missing; exactly when the count is positive.
pub fn has_missing_prerequisites(prereqs: &Vec<Prerequisite>) -> (r: bool)
    ensures
        r == exists|i: int|
            0 <= i < prereqs@.len() && (#[trigger] prereqs@[i]).status == PrereqStatus::Missing,
        r == (missing_count(prereqs@) > 0),
{
    proof {
        lemma_missing_count(prereqs@);
    }
    missing_prereq_count(prereqs) > 0
}

} // verus!
