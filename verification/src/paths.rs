//! Where the driver finds its task list, its prompt and its agent.

use vstd::prelude::*;
use vstd::string::StringExecFns;
use crate::run_paths::{join_path, joined};
use crate::text::{chars_of, matches_at, occurs_at, str_eq};

verus! {

/// The name that stands for the agent built into the driver.
pub const DEFAULT_COMMAND_PATH: &'static str = "internal";

/// The place of the agent script of earlier versions.
pub const LEGACY_TASK_AGENT_PATH: &'static str = "bin/task-agent.sh";

/// The first name under which a task list is looked for.
pub const FIRST_TASKS_FILE: &'static str = "prd.json";

/// The second name under which a task list is looked for.
pub const SECOND_TASKS_FILE: &'static str = "tasks.json";

/// The prompt that is used where none is named, below the workspace.
pub const DEFAULT_PROMPT_FILE: &'static str = "prompts/autonomous-senior-engineer.prompt.md";

/// Why a path cannot be used.
#[derive(Debug)]
pub enum PathError {
    /// The task list that was named is no file.
    TasksFileMissing { named: String },
    /// No task list was named and none lies in the workspace.
    NoTasksFile,
    /// The prompt is no file.
    PromptMissing { candidate: String },
    /// The workspace is no directory.
    WorkspaceMissing { candidate: String },
}

/// A path as the workspace sees it: a path from the root stays, any other
/// is taken below the workspace.
pub fn resolve_relative_to_workspace(path: &str, workspace: &str) -> (out: String)
    ensures
        out@ == joined(workspace@, path@),
{
    join_path(workspace, path)
}

/// The prompt that is used where none is named.
pub fn default_prompt_path(workspace: &str) -> (out: String)
    ensures
        out@ == joined(workspace@, DEFAULT_PROMPT_FILE@),
{
    join_path(workspace, DEFAULT_PROMPT_FILE)
}

/// The workspace that is used: the one named, else the current directory.
pub fn workspace_candidate(workspace_arg: Option<&str>) -> (out: String)
    ensures
        out@ == match workspace_arg {
            Some(w) => w@,
            None => "."@,
        },
{
    match workspace_arg {
        Some(w) => String::from_str(w),
        None => String::from_str("."),
    }
}

/// Accepts the workspace where it is a directory.
pub fn resolve_workspace(candidate: &str, is_dir: bool) -> (r: Result<String, PathError>)
    ensures
        is_dir ==> (r matches Ok(w) && w@ == candidate@),
        !is_dir ==> (r matches Err(PathError::WorkspaceMissing { candidate: c }) && c@
            == candidate@),
{
    if is_dir {
        Ok(String::from_str(candidate))
    } else {
        Err(PathError::WorkspaceMissing { candidate: String::from_str(candidate) })
    }
}

/// The prompt that is looked for: the one named, as the workspace sees it,
/// else the default.
pub fn prompt_candidate(prompt_arg: Option<&str>, workspace: &str) -> (out: String)
    ensures
        out@ == match prompt_arg {
            Some(p) => joined(workspace@, p@),
            None => joined(workspace@, DEFAULT_PROMPT_FILE@),
        },
{
    match prompt_arg {
        Some(p) => resolve_relative_to_workspace(p, workspace),
        None => default_prompt_path(workspace),
    }
}

/// Accepts the prompt where it is a file.
pub fn resolve_prompt_path(candidate: &str, is_file: bool) -> (r: Result<String, PathError>)
    ensures
        is_file ==> (r matches Ok(p) && p@ == candidate@),
        !is_file ==> (r matches Err(PathError::PromptMissing { candidate: c }) && c@
            == candidate@),
{
    if is_file {
        Ok(String::from_str(candidate))
    } else {
        Err(PathError::PromptMissing { candidate: String::from_str(candidate) })
    }
}

/// Chooses the task list. A list that is named must be a file. Where none
/// is named, the first of the two usual names that is a file below the
/// workspace is taken. `named_is_file`, `first_is_file` and `second_is_file`
/// tell which of the candidates are files.
pub fn resolve_tasks_path(
    tasks_arg: Option<&str>,
    workspace: &str,
    named_is_file: bool,
    first_is_file: bool,
    second_is_file: bool,
) -> (r: Result<String, PathError>)
    ensures
        match tasks_arg {
            Some(named) => if named_is_file {
                r matches Ok(p) && p@ == joined(workspace@, named@)
            } else {
                r matches Err(PathError::TasksFileMissing { named: n }) && n@ == named@
            },
            None => if first_is_file {
                r matches Ok(p) && p@ == joined(workspace@, FIRST_TASKS_FILE@)
            } else if second_is_file {
                r matches Ok(p) && p@ == joined(workspace@, SECOND_TASKS_FILE@)
            } else {
                r matches Err(PathError::NoTasksFile)
            },
        },
{
    match tasks_arg {
        Some(named) => {
            if named_is_file {
                Ok(resolve_relative_to_workspace(named, workspace))
            } else {
                Err(PathError::TasksFileMissing { named: String::from_str(named) })
            }
        },
        None => {
            if first_is_file {
                Ok(join_path(workspace, FIRST_TASKS_FILE))
            } else if second_is_file {
                Ok(join_path(workspace, SECOND_TASKS_FILE))
            } else {
                Err(PathError::NoTasksFile)
            }
        },
    }
}

/// The sentence that reports a path that cannot be used. `location` names
/// the workspace.
pub open spec fn path_message(e: PathError, location: Seq<char>) -> Seq<char> {
    match e {
        PathError::TasksFileMissing { named } => "The specified tasks file "@ + named@
            + " does not exist or is not a file"@,
        PathError::NoTasksFile => "No tasks file specified and neither "@ + FIRST_TASKS_FILE@
            + " nor "@ + SECOND_TASKS_FILE@ + " exist in "@ + location,
        PathError::PromptMissing { candidate } => "Prompt file not found: "@ + candidate@,
        PathError::WorkspaceMissing { candidate } => "Workspace not found: "@ + candidate@,
    }
}

impl PathError {
    /// The sentence that reports this error. `location` names the
    /// workspace.
    pub fn message(&self, location: &str) -> (out: String)
        ensures
            out@ == path_message(*self, location@),
    {
        match self {
            PathError::TasksFileMissing { named } => {
                let mut out = String::from_str("The specified tasks file ");
                out.append(named.as_str());
                out.append(" does not exist or is not a file");
                out
            },
            PathError::NoTasksFile => {
                let mut out = String::from_str("No tasks file specified and neither ");
                out.append(FIRST_TASKS_FILE);
                out.append(" nor ");
                out.append(SECOND_TASKS_FILE);
                out.append(" exist in ");
                out.append(location);
                out
            },
            PathError::PromptMissing { candidate } => {
                let mut out = String::from_str("Prompt file not found: ");
                out.append(candidate.as_str());
                out
            },
            PathError::WorkspaceMissing { candidate } => {
                let mut out = String::from_str("Workspace not found: ");
                out.append(candidate.as_str());
                out
            },
        }
    }
}

/// How the workspace is named in a message: as the current directory where
/// it is that.
pub fn workspace_location(workspace: &str, is_current_dir: bool) -> (out: String)
    ensures
        out@ == if is_current_dir {
            "the current directory"@
        } else {
            workspace@
        },
{
    if is_current_dir {
        String::from_str("the current directory")
    } else {
        String::from_str(workspace)
    }
}

/// Whether the agent is the one built into the driver.
pub fn is_internal_task_agent(path: &str) -> (r: bool)
    ensures
        r == (path@ == DEFAULT_COMMAND_PATH@),
{
    str_eq(path, DEFAULT_COMMAND_PATH)
}

/// `s` with every backslash turned into a slash.
pub open spec fn with_slashes(s: Seq<char>) -> Seq<char> {
    Seq::new(
        s.len(),
        |i: int| if s[i] == '\\' {
            '/'
        } else {
            s[i]
        },
    )
}

/// `s` ends in `suffix`.
pub open spec fn ends_with(s: Seq<char>, suffix: Seq<char>) -> bool {
    occurs_at(s, suffix, s.len() - suffix.len())
}

/// The path is that of the agent script of earlier versions, written with
/// slashes or backslashes: the script's place itself, or a path that ends
/// in it.
pub open spec fn legacy_path(path: Seq<char>) -> bool {
    with_slashes(path) == LEGACY_TASK_AGENT_PATH@ || ends_with(
        with_slashes(path),
        "/bin/task-agent.sh"@,
    )
}

/// Whether a path is that of the agent script of earlier versions.
pub fn is_legacy_task_agent_path(path: &str) -> (r: bool)
    ensures
        r == legacy_path(path@),
{
    let chars = chars_of(path);
    let mut flat: Vec<char> = Vec::new();
    let mut i: usize = 0;
    while i < chars.len()
        invariant
            i <= chars.len(),
            flat@.len() == i,
            forall|k: int| 0 <= k < i ==> flat@[k] == with_slashes(chars@)[k],
        decreases chars.len() - i,
    {
        if chars[i] == '\\' {
            flat.push('/');
        } else {
            flat.push(chars[i]);
        }
        i += 1;
    }
    assert(flat@ =~= with_slashes(path@));
    let legacy = chars_of(LEGACY_TASK_AGENT_PATH);
    if crate::text::chars_eq(&flat, &legacy) {
        return true;
    }
    let suffix = chars_of("/bin/task-agent.sh");
    if flat.len() < suffix.len() {
        return false;
    }
    matches_at(&flat, &suffix, flat.len() - suffix.len())
}

/// How the path of the agent is resolved.
#[derive(Debug)]
pub enum CommandPathPlan {
    /// The name is looked up when the agent is started.
    Keep { path: String },
    /// The candidate is resolved in the file system.
    Resolve { candidate: String },
}

/// A slash or a backslash.
pub open spec fn is_separator(c: char) -> bool {
    c == '/' || c == '\\'
}

/// `s` holds a slash or a backslash.
pub open spec fn has_separator(s: Seq<char>) -> bool {
    exists|i: int| 0 <= i < s.len() && is_separator(#[trigger] s[i])
}

/// Plans how the path of the agent is resolved: a path from the root is
/// resolved as it is, a path with a separator is resolved below the
/// workspace, and a bare name is kept.
pub fn resolve_command_path(path: &str, workspace: &str) -> (plan: CommandPathPlan)
    ensures
        match plan {
            CommandPathPlan::Keep { path: p } => !has_separator(path@) && p@ == path@,
            CommandPathPlan::Resolve { candidate } => has_separator(path@) && candidate@ == joined(
                workspace@,
                path@,
            ),
        },
{
    let chars = chars_of(path);
    let mut i: usize = 0;
    while i < chars.len()
        invariant
            i <= chars.len(),
            chars@ == path@,
            forall|k: int| 0 <= k < i ==> !is_separator(#[trigger] chars@[k]),
        decreases chars.len() - i,
    {
        if chars[i] == '/' || chars[i] == '\\' {
            assert(is_separator(chars@[i as int]));
            return CommandPathPlan::Resolve { candidate: join_path(workspace, path) };
        }
        i += 1;
    }
    CommandPathPlan::Keep { path: String::from_str(path) }
}

/// What comes of resolving the path of the agent.
#[derive(Debug)]
pub enum CommandPath {
    /// The agent at this path.
    Found { path: String },
    /// The agent script of earlier versions was asked for and is gone: the
    /// built-in agent takes its place.
    LegacyFallback,
    /// The path cannot be resolved.
    Missing { candidate: String },
}

/// Judges the attempt to resolve the path of the agent. `resolved` is the
/// path that the file system gave for `candidate`, or nothing where it gave
/// none; `asked` is the path as it was given on the command line.
pub fn canonicalize_or_fallback(candidate: &str, asked: &str, resolved: Option<&str>) -> (r:
    CommandPath)
    ensures
        match resolved {
            Some(p) => r matches CommandPath::Found { path } && path@ == p@,
            None => if legacy_path(asked@) {
                r is LegacyFallback
            } else {
                r matches CommandPath::Missing { candidate: c } && c@ == candidate@
            },
        },
{
    match resolved {
        Some(p) => CommandPath::Found { path: String::from_str(p) },
        None => {
            if is_legacy_task_agent_path(asked) {
                CommandPath::LegacyFallback
            } else {
                CommandPath::Missing { candidate: String::from_str(candidate) }
            }
        },
    }
}

} // verus!
