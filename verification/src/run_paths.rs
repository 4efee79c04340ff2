//! Where the files of one run live: a function of workspace, task and run.

use vstd::prelude::*;
use vstd::string::StringExecFns;
use crate::text::chars_of;

verus! {

/// `part` appended to the path `base`: a `part` that starts at the root
/// stands alone; otherwise one separator is put between the two unless `base`
/// is empty or already ends in one.
pub open spec fn joined(base: Seq<char>, part: Seq<char>) -> Seq<char> {
    if part.len() > 0 && part[0] == '/' {
        part
    } else if base.len() > 0 && base.last() != '/' {
        base + seq!['/'] + part
    } else {
        base + part
    }
}

/// Appends `part` to the path `base`.
pub fn join_path(base: &str, part: &str) -> (out: String)
    ensures
        out@ == joined(base@, part@),
{
    let b = chars_of(base);
    let p = chars_of(part);
    if p.len() > 0 && p[0] == '/' {
        return String::from_str(part);
    }
    let mut out = String::from_str(base);
    if b.len() > 0 && b[b.len() - 1] != '/' {
        out.push('/');
    }
    out.append(part);
    out
}

/// The files and directories of one run.
#[derive(Debug, Clone, PartialEq, Eq)]
pub struct RunPaths {
    pub run_dir_rel: String,
    pub run_dir_abs: String,
    pub pack_dir_rel: String,
    pub pack_dir_abs: String,
    pub prompt_path: String,
    pub result_path_rel: String,
    pub result_path_abs: String,
    pub codex_log_rel: String,
    pub codex_log_abs: String,
    pub task_snapshot_path: String,
    pub assembly_task_path: String,
    pub assembly_summary_path: String,
    pub assembly_stdout_path: String,
    pub assembly_stderr_path: String,
    pub context_compile_path: String,
}

/// View of [`RunPaths`]: each path as its characters.
pub struct RunPathsView {
    pub run_dir_rel: Seq<char>,
    pub run_dir_abs: Seq<char>,
    pub pack_dir_rel: Seq<char>,
    pub pack_dir_abs: Seq<char>,
    pub prompt_path: Seq<char>,
    pub result_path_rel: Seq<char>,
    pub result_path_abs: Seq<char>,
    pub codex_log_rel: Seq<char>,
    pub codex_log_abs: Seq<char>,
    pub task_snapshot_path: Seq<char>,
    pub assembly_task_path: Seq<char>,
    pub assembly_summary_path: Seq<char>,
    pub assembly_stdout_path: Seq<char>,
    pub assembly_stderr_path: Seq<char>,
    pub context_compile_path: Seq<char>,
}

impl View for RunPaths {
    type V = RunPathsView;

    open spec fn view(&self) -> RunPathsView {
        RunPathsView {
            run_dir_rel: self.run_dir_rel@,
            run_dir_abs: self.run_dir_abs@,
            pack_dir_rel: self.pack_dir_rel@,
            pack_dir_abs: self.pack_dir_abs@,
            prompt_path: self.prompt_path@,
            result_path_rel: self.result_path_rel@,
            result_path_abs: self.result_path_abs@,
            codex_log_rel: self.codex_log_rel@,
            codex_log_abs: self.codex_log_abs@,
            task_snapshot_path: self.task_snapshot_path@,
            assembly_task_path: self.assembly_task_path@,
            assembly_summary_path: self.assembly_summary_path@,
            assembly_stdout_path: self.assembly_stdout_path@,
            assembly_stderr_path: self.assembly_stderr_path@,
            context_compile_path: self.context_compile_path@,
        }
    }
}

/// The run directory below the workspace: `.ralph/runs/<task>/<run>`.
pub open spec fn run_dir(task_id: Seq<char>, run_id: Seq<char>) -> Seq<char> {
    joined(joined(joined(".ralph"@, "runs"@), task_id), run_id)
}

/// The layout of the run `run_id` of the task `task_id` in `workspace`.
pub open spec fn layout(workspace: Seq<char>, task_id: Seq<char>, run_id: Seq<char>) -> RunPathsView {
    let rel = run_dir(task_id, run_id);
    let abs = joined(workspace, rel);
    RunPathsView {
        run_dir_rel: rel,
        run_dir_abs: abs,
        pack_dir_rel: joined(rel, "pack"@),
        pack_dir_abs: joined(abs, "pack"@),
        prompt_path: joined(abs, "prompt.md"@),
        result_path_rel: joined(rel, "result.json"@),
        result_path_abs: joined(workspace, joined(rel, "result.json"@)),
        codex_log_rel: joined(rel, "codex.jsonl"@),
        codex_log_abs: joined(workspace, joined(rel, "codex.jsonl"@)),
        task_snapshot_path: joined(abs, "task.json"@),
        assembly_task_path: joined(abs, "assembly-task.json"@),
        assembly_summary_path: joined(abs, "assembly-summary.json"@),
        assembly_stdout_path: joined(abs, "assembly.stdout.log"@),
        assembly_stderr_path: joined(abs, "assembly.stderr.log"@),
        context_compile_path: joined(abs, "context-compile.json"@),
    }
}

/// The layout of a run. Nothing is read or created.
pub fn run_paths(workspace: &str, task_id: &str, run_id: &str) -> (paths: RunPaths)
    ensures
        paths@ == layout(workspace@, task_id@, run_id@),
{
    let runs = join_path(".ralph", "runs");
    let task_dir = join_path(runs.as_str(), task_id);
    let run_dir_rel = join_path(task_dir.as_str(), run_id);
    let run_dir_abs = join_path(workspace, run_dir_rel.as_str());
    let pack_dir_rel = join_path(run_dir_rel.as_str(), "pack");
    let pack_dir_abs = join_path(run_dir_abs.as_str(), "pack");
    let prompt_path = join_path(run_dir_abs.as_str(), "prompt.md");
    let result_path_rel = join_path(run_dir_rel.as_str(), "result.json");
    let result_path_abs = join_path(workspace, result_path_rel.as_str());
    let codex_log_rel = join_path(run_dir_rel.as_str(), "codex.jsonl");
    let codex_log_abs = join_path(workspace, codex_log_rel.as_str());
    let task_snapshot_path = join_path(run_dir_abs.as_str(), "task.json");
    let assembly_task_path = join_path(run_dir_abs.as_str(), "assembly-task.json");
    let assembly_summary_path = join_path(run_dir_abs.as_str(), "assembly-summary.json");
    let assembly_stdout_path = join_path(run_dir_abs.as_str(), "assembly.stdout.log");
    let assembly_stderr_path = join_path(run_dir_abs.as_str(), "assembly.stderr.log");
    let context_compile_path = join_path(run_dir_abs.as_str(), "context-compile.json");
    RunPaths {
        run_dir_rel,
        run_dir_abs,
        pack_dir_rel,
        pack_dir_abs,
        prompt_path,
        result_path_rel,
        result_path_abs,
        codex_log_rel,
        codex_log_abs,
        task_snapshot_path,
        assembly_task_path,
        assembly_summary_path,
        assembly_stdout_path,
        assembly_stderr_path,
        context_compile_path,
    }
}

/// The layout is a function of its three inputs: two calls on equal
/// workspace, task and run give layouts that are equal path by path.
pub proof fn lemma_run_paths_pure(
    first: RunPaths,
    second: RunPaths,
    workspace: Seq<char>,
    task_id: Seq<char>,
    run_id: Seq<char>,
)
    requires
        first@ == layout(workspace, task_id, run_id),
        second@ == layout(workspace, task_id, run_id),
    ensures
        first@ == second@,
        first.pack_dir_abs@ == second.pack_dir_abs@,
        first.result_path_abs@ == second.result_path_abs@,
{
}

} // verus!
