//! The command-line contract that the pack builder must offer.

use vstd::prelude::*;
use vstd::string::StringExecFns;
use crate::text::{
    contains, i64_text, join_seq, join_slices, signed_decimal, slice_texts, str_contains, trim_str,
    trimmed,
};

verus! {

/// The version of the contract that is checked.
pub const CONTRACT_VERSION: &'static str = "2026-02-16";

/// Why the pack builder does not meet the contract.
#[derive(Debug)]
pub enum AssemblyContractError {
    MissingDependency { command: String },
    CommandFailed { command: String, status: Option<i32>, output: String },
    MissingBuildFlags { missing: Vec<&'static str> },
}

/// How an attempt to run a command ended.
pub enum CommandOutcome {
    /// The executable was not found.
    NotFound,
    /// The command could not be started for another reason.
    SpawnFailed { reason: String },
    /// The command ran to its end.
    Finished { success: bool, code: Option<i32>, stdout: String, stderr: String },
}

/// The flags that `build --help` must mention, in the order they are checked.
pub open spec fn required_flags() -> Seq<Seq<char>> {
    seq![
        "--repo"@,
        "--task"@,
        "--task-id"@,
        "--out"@,
        "--token-budget"@,
        "--exclude"@,
        "--exclude-runtime"@,
        "--summary-json"@,
    ]
}

/// The flags that `build --help` must mention.
pub fn required_build_flags() -> (flags: Vec<&'static str>)
    ensures
        slice_texts(flags@) == required_flags(),
{
    let mut flags: Vec<&'static str> = Vec::new();
    flags.push("--repo");
    flags.push("--task");
    flags.push("--task-id");
    flags.push("--out");
    flags.push("--token-budget");
    flags.push("--exclude");
    flags.push("--exclude-runtime");
    flags.push("--summary-json");
    assert(slice_texts(flags@) =~= required_flags());
    flags
}

/// Those of `flags` that `help` does not mention, in order.
pub open spec fn missing_from(flags: Seq<Seq<char>>, help: Seq<char>) -> Seq<Seq<char>>
    decreases flags.len(),
{
    if flags.len() == 0 {
        Seq::empty()
    } else if contains(help, flags.last()) {
        missing_from(flags.drop_last(), help)
    } else {
        missing_from(flags.drop_last(), help).push(flags.last())
    }
}

/// A flag is missing exactly if it is required and the help text does not
/// hold it.
pub proof fn lemma_missing_from(flags: Seq<Seq<char>>, help: Seq<char>)
    ensures
        forall|f: Seq<char>| #[trigger]
            missing_from(flags, help).contains(f) <==> flags.contains(f) && !contains(help, f),
        missing_from(flags, help).len() == 0 <==> forall|i: int|
            0 <= i < flags.len() ==> contains(help, #[trigger] flags[i]),
    decreases flags.len(),
{
    if flags.len() > 0 {
        let init = flags.drop_last();
        lemma_missing_from(init, help);
        let m = missing_from(flags, help);
        let mi = missing_from(init, help);
        assert forall|f: Seq<char>| #[trigger] m.contains(f) <==> flags.contains(f) && !contains(
            help,
            f,
        ) by {
            if m.contains(f) {
                let k = choose|k: int| 0 <= k < m.len() && m[k] == f;
                if contains(help, flags.last()) {
                    assert(mi.contains(f));
                    let j = choose|j: int| 0 <= j < init.len() && init[j] == f;
                    assert(flags[j] == f);
                } else if k < mi.len() {
                    assert(mi[k] == f);
                    assert(mi.contains(f));
                    let j = choose|j: int| 0 <= j < init.len() && init[j] == f;
                    assert(flags[j] == f);
                } else {
                    assert(flags[flags.len() - 1] == f);
                }
            }
            if flags.contains(f) && !contains(help, f) {
                let j = choose|j: int| 0 <= j < flags.len() && flags[j] == f;
                if j < init.len() {
                    assert(init[j] == f);
                    assert(mi.contains(f));
                    let k = choose|k: int| 0 <= k < mi.len() && mi[k] == f;
                    assert(m[k] == f);
                } else {
                    assert(m[m.len() - 1] == f);
                }
            }
        }
        if m.len() == 0 {
            assert forall|i: int| 0 <= i < flags.len() implies contains(help, #[trigger] flags[i]) by {
                if i < init.len() {
                    assert(init[i] == flags[i]);
                }
            }
        }
        if forall|i: int| 0 <= i < flags.len() ==> contains(help, #[trigger] flags[i]) {
            assert(contains(help, flags[flags.len() - 1]));
            assert forall|i: int| 0 <= i < init.len() implies contains(help, #[trigger] init[i]) by {
                assert(init[i] == flags[i]);
            }
        }
    }
}

/// Checks that the help text of `build` mentions every required flag. The
/// error lists the flags that it does not mention, in the required order.
pub fn validate_build_help(help_output: &str) -> (r: Result<(), AssemblyContractError>)
    ensures
        r is Ok <==> missing_from(required_flags(), help_output@).len() == 0,
        r is Ok <==> forall|i: int|
            0 <= i < required_flags().len() ==> contains(help_output@, #[trigger] required_flags()[i]),
        r matches Err(e) ==> e matches AssemblyContractError::MissingBuildFlags { missing }
            && slice_texts(missing@) == missing_from(required_flags(), help_output@),
{
    let flags = required_build_flags();
    let mut missing: Vec<&'static str> = Vec::new();
    let mut i: usize = 0;
    while i < flags.len()
        invariant
            i <= flags.len(),
            slice_texts(missing@) == missing_from(slice_texts(flags@).take(i as int), help_output@),
        decreases flags.len() - i,
    {
        let ghost before = slice_texts(flags@).take(i as int);
        let ghost after = slice_texts(flags@).take(i + 1);
        assert(after.drop_last() =~= before);
        assert(after.last() == flags@[i as int]@);
        if !str_contains(help_output, flags[i]) {
            missing.push(flags[i]);
            assert(slice_texts(missing@) =~= missing_from(after, help_output@));
        }
        i += 1;
    }
    assert(slice_texts(flags@).take(flags.len() as int) =~= slice_texts(flags@));
    proof {
        lemma_missing_from(required_flags(), help_output@);
    }
    if missing.len() == 0 {
        Ok(())
    } else {
        Err(AssemblyContractError::MissingBuildFlags { missing })
    }
}

/// The command line `command_path` followed by `args`, as it is reported.
pub open spec fn command_label(command_path: Seq<char>, args: Seq<Seq<char>>) -> Seq<char> {
    command_path + " "@ + join_seq(args, " "@)
}

/// What a probe of the pack builder yields: the text it wrote where it ran
/// and succeeded, else the error that names the command.
pub open spec fn probe_result(
    command_path: Seq<char>,
    args: Seq<Seq<char>>,
    outcome: CommandOutcome,
    r: Result<String, AssemblyContractError>,
) -> bool {
    match outcome {
        CommandOutcome::NotFound => r matches Err(
            AssemblyContractError::MissingDependency { command },
        ) && command@ == command_path,
        CommandOutcome::SpawnFailed { reason } => r matches Err(
            AssemblyContractError::CommandFailed { command, status, output },
        ) && command@ == command_label(command_path, args) && status is None && output@
            == reason@,
        CommandOutcome::Finished { success, code, stdout, stderr } => if success {
            r matches Ok(text) && text@ == stdout@ + stderr@
        } else {
            r matches Err(AssemblyContractError::CommandFailed { command, status, output })
                && command@ == command_label(command_path, args) && status == code && output@
                == trimmed(stdout@ + stderr@)
        },
    }
}

/// Turns the way a probe ended into its text or into the error to report.
pub fn command_result(command_path: &str, args: &Vec<&'static str>, outcome: CommandOutcome) -> (r:
    Result<String, AssemblyContractError>)
    ensures
        probe_result(command_path@, slice_texts(args@), outcome, r),
{
    match outcome {
        CommandOutcome::NotFound => Err(
            AssemblyContractError::MissingDependency { command: String::from_str(command_path) },
        ),
        CommandOutcome::SpawnFailed { reason } => {
            let mut command = String::from_str(command_path);
            command.append(" ");
            let list = join_slices(args, " ");
            command.append(list.as_str());
            Err(AssemblyContractError::CommandFailed { command, status: None, output: reason })
        },
        CommandOutcome::Finished { success, code, stdout, stderr } => {
            let mut combined = stdout;
            combined.append(stderr.as_str());
            if success {
                Ok(combined)
            } else {
                let mut command = String::from_str(command_path);
                command.append(" ");
                let list = join_slices(args, " ");
                command.append(list.as_str());
                let output = trim_str(combined.as_str());
                Err(AssemblyContractError::CommandFailed { command, status: code, output })
            }
        },
    }
}

/// The arguments of the probe that asks for the version.
pub fn version_probe_args() -> (args: Vec<&'static str>)
    ensures
        slice_texts(args@) == seq!["--version"@],
{
    let mut args: Vec<&'static str> = Vec::new();
    args.push("--version");
    assert(slice_texts(args@) =~= seq!["--version"@]);
    args
}

/// The arguments of the probe that asks for the help text of `build`.
pub fn help_probe_args() -> (args: Vec<&'static str>)
    ensures
        slice_texts(args@) == seq!["build"@, "--help"@],
{
    let mut args: Vec<&'static str> = Vec::new();
    args.push("build");
    args.push("--help");
    assert(slice_texts(args@) =~= seq!["build"@, "--help"@]);
    args
}

/// Judges the two probes of the pack builder: the version probe must have
/// succeeded, then the help probe, then the help text must hold every
/// required flag. The first failure is the one reported. The help probe is
/// only looked at where the version probe succeeded.
pub fn validate_assembly_contract(
    version_probe: Result<String, AssemblyContractError>,
    help_probe: Result<String, AssemblyContractError>,
) -> (r: Result<(), AssemblyContractError>)
    ensures
        r is Ok <==> version_probe is Ok && (help_probe matches Ok(help) && missing_from(
            required_flags(),
            help@,
        ).len() == 0),
        version_probe matches Err(e) ==> r == Err::<(), AssemblyContractError>(e),
        version_probe is Ok ==> (help_probe matches Err(e) ==> r == Err::<(), AssemblyContractError>(e)),
        version_probe is Ok ==> (help_probe matches Ok(help) ==> (r matches Err(e) ==> e matches AssemblyContractError::MissingBuildFlags {
            missing,
        } && slice_texts(missing@) == missing_from(required_flags(), help@))),
{
    match version_probe {
        Err(e) => Err(e),
        Ok(_) => match help_probe {
            Err(e) => Err(e),
            Ok(help) => validate_build_help(help.as_str()),
        },
    }
}

/// The text that `{:?}` writes for an optional exit status.
pub open spec fn status_text(status: Option<i32>) -> Seq<char> {
    match status {
        Some(code) => "Some("@ + signed_decimal(code as int) + ")"@,
        None => "None"@,
    }
}

/// The sentence that reports an error.
pub open spec fn contract_message(e: AssemblyContractError) -> Seq<char> {
    match e {
        AssemblyContractError::MissingDependency { command } => "Missing dependency: "@ + command@,
        AssemblyContractError::CommandFailed { command, status, output } =>
            "Assembly contract validation failed (version "@ + CONTRACT_VERSION@ + "): command '"@
                + command@ + "' exited "@ + status_text(status) + ". "@ + output@,
        AssemblyContractError::MissingBuildFlags { missing } =>
            "Assembly CLI contract mismatch (version "@ + CONTRACT_VERSION@
                + "): missing required build flags: "@ + join_seq(slice_texts(missing@), ", "@)
                + ". See docs/assembly-contract.md."@,
    }
}

impl AssemblyContractError {
    /// The sentence that reports this error.
    pub fn message(&self) -> (out: String)
        ensures
            out@ == contract_message(*self),
    {
        match self {
            AssemblyContractError::MissingDependency { command } => {
                let mut out = String::from_str("Missing dependency: ");
                out.append(command.as_str());
                out
            },
            AssemblyContractError::CommandFailed { command, status, output } => {
                let mut out = String::from_str("Assembly contract validation failed (version ");
                out.append(CONTRACT_VERSION);
                out.append("): command '");
                out.append(command.as_str());
                out.append("' exited ");
                match status {
                    Some(code) => {
                        out.append("Some(");
                        let digits = i64_text(*code as i64);
                        out.append(digits.as_str());
                        out.append(")");
                    },
                    None => {
                        out.append("None");
                    },
                }
                out.append(". ");
                out.append(output.as_str());
                assert(out@ =~= contract_message(*self));
                out
            },
            AssemblyContractError::MissingBuildFlags { missing } => {
                let mut out = String::from_str("Assembly CLI contract mismatch (version ");
                out.append(CONTRACT_VERSION);
                out.append("): missing required build flags: ");
                let list = join_slices(missing, ", ");
                out.append(list.as_str());
                out.append(". See docs/assembly-contract.md.");
                out
            },
        }
    }
}

} // verus!
