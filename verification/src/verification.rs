//! Choosing and judging the command that verifies a task.

use vstd::prelude::*;
use vstd::string::StringExecFns;
use crate::agent::{line_views, lines_of, push_arg, split_lines};
use crate::text::{
    char_is_space, chars_of, join_seq, join_strings, string_texts, trim_start,
};

verus! {

/// The name under which a task's own commands are logged.
pub const TASK_COMMANDS_LABEL: &'static str = "task.verification.commands";

/// How verification ended.
#[derive(Debug, PartialEq, Eq)]
pub struct VerificationResult {
    pub ok: bool,
    pub log_command: Option<String>,
}

impl VerificationResult {
    /// The result of a verification that was not run: it counts as passed.
    pub fn skipped() -> (r: Self)
        ensures
            r.ok,
            r.log_command is None,
    {
        VerificationResult { ok: true, log_command: None }
    }
}

/// What is known of the makefile of the workspace.
#[derive(Debug)]
pub enum MakefileProbe {
    /// There is none.
    Missing,
    /// There is one, and it cannot be read.
    Unreadable,
    /// Its text.
    Text(String),
}

/// What the workspace offers for verification.
#[derive(Debug)]
pub struct Probes {
    /// `scripts/ci.sh` is a file that may be executed.
    pub ci_script: bool,
    pub makefile: MakefileProbe,
    /// `tests/run.sh` is a file that may be executed.
    pub tests_script: bool,
    /// `pytest` can be started.
    pub pytest_available: bool,
    /// The workspace holds tests for `pytest`.
    pub python_tests: bool,
}

/// How a task is verified.
#[derive(Debug)]
pub enum VerificationPlan {
    /// Run the task's own commands as one script of the shell.
    Script { script: String },
    /// Run this command of the workspace.
    Command { argv: Vec<String> },
    /// There is nothing to run: the task counts as verified.
    Nothing,
}

/// Why no plan could be made.
#[derive(Debug, Copy, Clone, PartialEq, Eq, Structural)]
pub enum VerifyError {
    /// The makefile is there and cannot be read.
    MakefileUnreadable,
}

/// The line begins, after white space, with the target `ci:`.
pub open spec fn is_ci_target(line: Seq<char>) -> bool {
    let t = trim_start(line);
    t.len() >= 3 && t[0] == 'c' && t[1] == 'i' && t[2] == ':'
}

/// Some line of the makefile begins with the target `ci:`.
pub open spec fn has_ci_target(text: Seq<char>) -> bool {
    exists|i: int| 0 <= i < lines_of(text).len() && is_ci_target(#[trigger] lines_of(text)[i])
}

/// Whether a line begins with the target `ci:`.
pub fn line_is_ci_target(line: &Vec<char>) -> (r: bool)
    ensures
        r == is_ci_target(line@),
{
    let n = line.len();
    let mut i: usize = 0;
    assert(line@.subrange(0, n as int) =~= line@);
    while i < n && char_is_space(line[i])
        invariant
            i <= n == line.len(),
            trim_start(line@) == trim_start(line@.subrange(i as int, n as int)),
        decreases n - i,
    {
        assert(line@.subrange(i as int, n as int).drop_first() =~= line@.subrange(i + 1, n as int));
        i += 1;
    }
    n - i >= 3 && line[i] == 'c' && line[i + 1] == 'i' && line[i + 2] == ':'
}

/// Whether a makefile has the target `ci`.
pub fn makefile_has_ci(text: &str) -> (r: bool)
    ensures
        r == has_ci_target(text@),
{
    let chars = chars_of(text);
    let lines = split_lines(&chars);
    let mut i: usize = 0;
    while i < lines.len()
        invariant
            i <= lines.len(),
            line_views(lines@) == lines_of(text@),
            forall|k: int| 0 <= k < i ==> !is_ci_target(#[trigger] lines_of(text@)[k]),
        decreases lines.len() - i,
    {
        assert(line_views(lines@)[i as int] == lines@[i as int]@);
        if line_is_ci_target(&lines[i]) {
            return true;
        }
        i += 1;
    }
    false
}

/// The script that runs a task's own commands: the shell is told to stop at
/// the first failure, then the commands follow, one to a line.
pub open spec fn script_text(commands: Seq<Seq<char>>) -> Seq<char> {
    "set -euo pipefail\n"@ + join_seq(commands, "\n"@) + "\n"@
}

/// The script that runs a task's own commands.
pub fn verification_script(commands: &Vec<String>) -> (out: String)
    ensures
        out@ == script_text(string_texts(commands@)),
{
    let mut out = String::from_str("set -euo pipefail\n");
    let body = join_strings(commands, "\n");
    out.append(body.as_str());
    out.append("\n");
    out
}

/// The command of the workspace that verifies it, by what the workspace
/// offers: its CI script, else `make ci`, else its test script, else
/// `pytest`, else none.
pub open spec fn workspace_command(probes: Probes) -> Option<Seq<Seq<char>>> {
    if probes.ci_script {
        Some(seq!["./scripts/ci.sh"@])
    } else if probes.makefile matches MakefileProbe::Text(t) && has_ci_target(t@) {
        Some(seq!["make"@, "ci"@])
    } else if probes.tests_script {
        Some(seq!["./tests/run.sh"@])
    } else if probes.pytest_available && probes.python_tests {
        Some(seq!["pytest"@, "-q"@])
    } else {
        None
    }
}

/// Plans the verification of a task: its own commands where it has any,
/// else the command that the workspace offers, else nothing. A makefile
/// that cannot be read is an error where the choice comes to it.
pub fn plan_verification(commands: &Vec<String>, probes: &Probes) -> (r: Result<
    VerificationPlan,
    VerifyError,
>)
    ensures
        commands@.len() > 0 ==> (r matches Ok(VerificationPlan::Script { script }) && script@
            == script_text(string_texts(commands@))),
        commands@.len() == 0 && !probes.ci_script && probes.makefile is Unreadable ==> (
        r matches Err(e) && e == VerifyError::MakefileUnreadable),
        commands@.len() == 0 && (probes.ci_script || !(probes.makefile is Unreadable))
            ==> match workspace_command(*probes) {
            Some(argv) => r matches Ok(VerificationPlan::Command { argv: a }) && string_texts(a@)
                == argv,
            None => r matches Ok(VerificationPlan::Nothing),
        },
{
    if commands.len() > 0 {
        return Ok(VerificationPlan::Script { script: verification_script(commands) });
    }
    let mut argv: Vec<String> = Vec::new();
    assert(string_texts(argv@) =~= Seq::<Seq<char>>::empty());
    if probes.ci_script {
        push_arg(&mut argv, "./scripts/ci.sh");
        assert(string_texts(argv@) =~= seq!["./scripts/ci.sh"@]);
        return Ok(VerificationPlan::Command { argv });
    }
    let make_ci = match &probes.makefile {
        MakefileProbe::Missing => false,
        MakefileProbe::Unreadable => {
            return Err(VerifyError::MakefileUnreadable);
        },
        MakefileProbe::Text(t) => makefile_has_ci(t.as_str()),
    };
    if make_ci {
        push_arg(&mut argv, "make");
        push_arg(&mut argv, "ci");
        assert(string_texts(argv@) =~= seq!["make"@, "ci"@]);
        Ok(VerificationPlan::Command { argv })
    } else if probes.tests_script {
        push_arg(&mut argv, "./tests/run.sh");
        assert(string_texts(argv@) =~= seq!["./tests/run.sh"@]);
        Ok(VerificationPlan::Command { argv })
    } else if probes.pytest_available && probes.python_tests {
        push_arg(&mut argv, "pytest");
        push_arg(&mut argv, "-q");
        assert(string_texts(argv@) =~= seq!["pytest"@, "-q"@]);
        Ok(VerificationPlan::Command { argv })
    } else {
        Ok(VerificationPlan::Nothing)
    }
}

/// The result of a verification that ran as planned and ended with
/// `success`: what was run is named, and nothing to run counts as passed.
pub fn run_verification(plan: &VerificationPlan, success: bool) -> (r: VerificationResult)
    ensures
        match *plan {
            VerificationPlan::Script { script } => r.ok == success && (
            r.log_command matches Some(c) && c@ == TASK_COMMANDS_LABEL@),
            VerificationPlan::Command { argv } => r.ok == success && (
            r.log_command matches Some(c) && c@ == join_seq(string_texts(argv@), " "@)),
            VerificationPlan::Nothing => r.ok && r.log_command is None,
        },
{
    match plan {
        VerificationPlan::Script { script } => VerificationResult {
            ok: success,
            log_command: Some(String::from_str(TASK_COMMANDS_LABEL)),
        },
        VerificationPlan::Command { argv } => VerificationResult {
            ok: success,
            log_command: Some(join_strings(argv, " ")),
        },
        VerificationPlan::Nothing => VerificationResult::skipped(),
    }
}

/// Whether a file may be executed: it must be a file, and where its mode is
/// known, one of the three execute bits must be set.
pub fn is_executable(is_file: bool, mode: Option<u32>) -> (r: bool)
    ensures
        r == (is_file && match mode {
            Some(m) => m & 0o111 != 0,
            None => true,
        }),
{
    if !is_file {
        return false;
    }
    match mode {
        Some(m) => m & 0o111 != 0,
        None => true,
    }
}

/// Whether the workspace holds tests for `pytest`: a marker file at its
/// root, or a Python file below its `tests` directory. `tests_dir_has_python`
/// is nothing where there is no such directory.
pub fn has_python_tests(root_marker: bool, tests_dir_has_python: Option<bool>) -> (r: bool)
    ensures
        r == (root_marker || tests_dir_has_python == Some(true)),
{
    if root_marker {
        return true;
    }
    match tests_dir_has_python {
        Some(found) => found,
        None => false,
    }
}

/// The position of the last point in `name`, where there is one.
pub open spec fn last_point(name: Seq<char>, n: int) -> Option<int>
    decreases n,
{
    if n <= 0 || n > name.len() {
        None
    } else if name[n - 1] == '.' {
        Some(n - 1)
    } else {
        last_point(name, n - 1)
    }
}

/// The file name ends in `.py`, with something before the point.
pub open spec fn is_python_name(name: Seq<char>) -> bool {
    last_point(name, name.len() as int) matches Some(p) && p > 0 && name.skip(p + 1) == "py"@
}

/// Whether a file name has the extension of a Python file.
pub fn is_python_file(name: &str) -> (r: bool)
    ensures
        r == is_python_name(name@),
{
    let chars = chars_of(name);
    let n = chars.len();
    let mut k: usize = n;
    while k > 0 && chars[k - 1] != '.'
        invariant
            k <= n == chars.len(),
            last_point(chars@, n as int) == last_point(chars@, k as int),
        decreases k,
    {
        k -= 1;
    }
    if k == 0 {
        return false;
    }
    let p = k - 1;
    proof {
        reveal_strlit("py");
    }
    if p == 0 {
        return false;
    }
    if n - p == 3 && chars[p + 1] == 'p' && chars[p + 2] == 'y' {
        assert(chars@.skip(p + 1) =~= "py"@);
        true
    } else {
        proof {
            if chars@.skip(p + 1) == "py"@ {
                assert(chars@.skip(p + 1).len() == 2);
                assert(chars@.skip(p + 1)[0] == 'p');
                assert(chars@.skip(p + 1)[1] == 'y');
            }
        }
        false
    }
}

} // verus!
