//! What the guided installation shows: descriptions of prerequisites and the
//! captured output of an install command. Running the command is left to the
//! caller.

use vstd::prelude::*;
use vstd::string::*;

use crate::dashboard::error::{get_install_command, install_command};
use crate::text::{decimal, decimal_string, joined, lowercase, lowercase_of, owned, same_chars, views_of};

verus! {

/// Most output lines kept from an install command.
pub const MAX_INSTALL_LINES: usize = 20;

/// Result of an install attempt, with its captured output.
#[derive(Debug, Clone)]
pub struct InstallOutput {
    pub success: bool,
    pub lines: Vec<String>,
    pub error_message: Option<String>,
}

impl Default for InstallOutput {
    fn default() -> (r: InstallOutput)
        ensures
            !r.success,
            r.lines@.len() == 0,
            r.error_message.is_none(),
    {
        InstallOutput { success: false, lines: Vec::new(), error_message: None }
    }
}

/// The description of a prerequisite, by its lower-case name; `name` as
/// given stands in that of an unknown one.
pub open spec fn install_description(lower: Seq<char>, name: Seq<char>) -> Seq<char> {
    if lower == "docker"@ || lower == "docker desktop"@ {
        "Docker Desktop - container runtime and Kubernetes support"@
    } else if lower == "powershell"@ || lower == "powershell core"@ || lower == "pwsh"@ {
        "PowerShell Core - cross-platform shell for running setup scripts"@
    } else if lower == "kubectl"@ {
        "kubectl - Kubernetes command-line tool"@
    } else if lower == "kind"@ {
        "kind - Kubernetes in Docker for local clusters"@
    } else {
        name + " - required prerequisite"@
    }
}

/// What installing a prerequisite brings, for the user.
pub fn get_install_description(prereq_name: &str) -> (r: String)
    ensures
        r@ == install_description(lowercase_of(prereq_name@), prereq_name@),
{
    let lower = lowercase(prereq_name);
    let n = lower.as_str();
    if same_chars(n, "docker") || same_chars(n, "docker desktop") {
        owned("Docker Desktop - container runtime and Kubernetes support")
    } else if same_chars(n, "powershell") || same_chars(n, "powershell core") || same_chars(n, "pwsh") {
        owned("PowerShell Core - cross-platform shell for running setup scripts")
    } else if same_chars(n, "kubectl") {
        owned("kubectl - Kubernetes command-line tool")
    } else if same_chars(n, "kind") {
        owned("kind - Kubernetes in Docker for local clusters")
    } else {
        joined(prereq_name, " - required prerequisite")
    }
}

/// The command that installs `prereq_name`, or, for an unknown one, the
/// output that reports it.
pub fn install_request(prereq_name: &str) -> (r: Result<String, InstallOutput>)
    ensures
        match install_command(lowercase_of(prereq_name@)) {
            Some(c) => r is Ok && r->Ok_0@ == c,
            None => r is Err && !r->Err_0.success && views_of(r->Err_0.lines@) == seq![
                "No install command for "@ + prereq_name@,
            ] && r->Err_0.error_message is Some && r->Err_0.error_message->Some_0@
                == "Unknown prerequisite: "@ + prereq_name@,
        },
{
    match get_install_command(prereq_name) {
        Some(c) => Ok(c),
        None => {
            let mut lines: Vec<String> = Vec::new();
            lines.push(joined("No install command for ", prereq_name));
            assert(views_of(lines@) =~= seq!["No install command for "@ + prereq_name@]);
            Err(
                InstallOutput {
                    success: false,
                    lines,
                    error_message: Some(joined("Unknown prerequisite: ", prereq_name)),
                },
            )
        },
    }
}

/// The last `MAX_INSTALL_LINES` of `s`.
pub open spec fn last_lines(s: Seq<Seq<char>>) -> Seq<Seq<char>> {
    if s.len() > MAX_INSTALL_LINES {
        s.skip(s.len() - MAX_INSTALL_LINES)
    } else {
        s
    }
}

/// How an exit code prints: `Some(n)`, or `None` when the command was
/// ended by a signal.
pub open spec fn exit_code_text(code: Option<i32>) -> Seq<char> {
    match code {
        Some(c) => if c >= 0 {
            "Some("@ + decimal(c as nat) + ")"@
        } else {
            "Some(-"@ + decimal((-c) as nat) + ")"@
        },
        None => "None"@,
    }
}

pub(crate) fn exit_code_string(code: Option<i32>) -> (r: String)
    ensures
        r@ == exit_code_text(code),
{
    match code {
        Some(c) => {
            let mut s = if c >= 0 {
                owned("Some(")
            } else {
                owned("Some(-")
            };
            let magnitude: u64 = if c >= 0 {
                c as u64
            } else {
                (-(c as i64)) as u64
            };
            let digits = decimal_string(magnitude);
            s.append(digits.as_str());
            s.append(")");
            s
        },
        None => owned("None"),
    }
}

/// The output lines of a finished command: standard output, then standard
/// error marked `ERR: `, of which the last `MAX_INSTALL_LINES` are kept.
pub open spec fn captured_lines(stdout: Seq<Seq<char>>, stderr: Seq<Seq<char>>) -> Seq<Seq<char>> {
    last_lines(stdout + stderr.map_values(|l: Seq<char>| "ERR: "@ + l))
}

/// What a finished install command amounts to.
pub fn install_output_from(
    success: bool,
    stdout_lines: &Vec<String>,
    stderr_lines: &Vec<String>,
    exit_code: Option<i32>,
) -> (r: InstallOutput)
    ensures
        r.success == success,
        views_of(r.lines@) == captured_lines(views_of(stdout_lines@), views_of(stderr_lines@)),
        success ==> r.error_message.is_none(),
        !success ==> r.error_message is Some && r.error_message->Some_0@ == "Exit code: "@
            + exit_code_text(exit_code),
{
    let ghost all = views_of(stdout_lines@) + views_of(stderr_lines@).map_values(
        |l: Seq<char>| "ERR: "@ + l,
    );
    let total = stdout_lines.len() as u128 + stderr_lines.len() as u128;
    let skip: u128 = if total > MAX_INSTALL_LINES as u128 {
        total - MAX_INSTALL_LINES as u128
    } else {
        0
    };
    let mut lines: Vec<String> = Vec::new();
    let mut k: u128 = 0;
    let mut i: usize = 0;
    while i < stdout_lines.len()
        invariant
            all == views_of(stdout_lines@) + views_of(stderr_lines@).map_values(
                |l: Seq<char>| "ERR: "@ + l,
            ),
            total == all.len(),
            skip <= total,
            i <= stdout_lines@.len(),
            k == i,
            views_of(lines@) == all.subrange(if k < skip { k as int } else { skip as int }, k as int),
        decreases stdout_lines@.len() - i,
    {
        let ghost prev = views_of(lines@);
        if k >= skip {
            lines.push(owned(stdout_lines[i].as_str()));
            assert(views_of(lines@) =~= prev.push(stdout_lines@[i as int]@));
        }
        proof {
            assert(all[k as int] == stdout_lines@[i as int]@);
            if k >= skip {
                assert(all.subrange(skip as int, k + 1) =~= all.subrange(skip as int, k as int).push(all[k as int]));
            }
        }
        i = i + 1;
        k = k + 1;
        proof {
            assert(views_of(lines@) =~= all.subrange(if k < skip { k as int } else { skip as int }, k as int));
        }
    }
    let mut j: usize = 0;
    while j < stderr_lines.len()
        invariant
            all == views_of(stdout_lines@) + views_of(stderr_lines@).map_values(
                |l: Seq<char>| "ERR: "@ + l,
            ),
            total == all.len(),
            skip <= total,
            j <= stderr_lines@.len(),
            k == stdout_lines@.len() + j,
            views_of(lines@) == all.subrange(if k < skip { k as int } else { skip as int }, k as int),
        decreases stderr_lines@.len() - j,
    {
        let ghost prev = views_of(lines@);
        if k >= skip {
            lines.push(joined("ERR: ", stderr_lines[j].as_str()));
            assert(views_of(lines@) =~= prev.push("ERR: "@ + stderr_lines@[j as int]@));
        }
        proof {
            assert(all[k as int] == "ERR: "@ + stderr_lines@[j as int]@);
            if k >= skip {
                assert(all.subrange(skip as int, k + 1) =~= all.subrange(skip as int, k as int).push(all[k as int]));
            }
        }
        j = j + 1;
        k = k + 1;
        proof {
            assert(views_of(lines@) =~= all.subrange(if k < skip { k as int } else { skip as int }, k as int));
        }
    }
    proof {
        assert(views_of(lines@) =~= last_lines(all));
    }
    let error_message = if success {
        None
    } else {
        let code = exit_code_string(exit_code);
        Some(joined("Exit code: ", code.as_str()))
    };
    InstallOutput { success, lines, error_message }
}

} // verus!
