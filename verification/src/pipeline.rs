//! One run of one task: admission, attempt accounting, the decisions
//! between the steps of the run, and how the run ends.
//!
//! The functions here decide; the caller reads files, starts processes and
//! sleeps, and reports back what happened.

use vstd::prelude::*;
use vstd::string::StringExecFns;
use crate::context_compile::{ContextCompileConfig, ContextFailurePolicy};
use crate::json::{Json, JsonView};
use crate::select::{
    admission, select_task, selects, SelectedTask, EXIT_CONTRACT,
};
use crate::json_text::compact;
use crate::task_metadata::{
    dod_valid, recommended_valid, title_valid, validate_task_metadata, TaskMetadataError,
};
use crate::task_store::{
    attempts_of, has_task, increment_attempt_count, lemma_has_task_first, lemma_task_incremented,
    lemma_task_index,
    lemma_task_with_status, lemma_with_task, next_attempt, task_incremented, task_index,
    task_with_status, tasks_of, update_task_status, with_task, StoreError,
};
use crate::text::{decimal, i64_text, signed_decimal, str_eq, u64_text};

verus! {

/// How often a task may be run before it is blocked.
pub const MAX_RUN_ATTEMPTS: u64 = 3;

/// How often the agent is started in one run.
pub const MAX_AGENT_ATTEMPTS: u64 = 3;

/// The window of the rate limit, in seconds.
pub const RATE_LIMIT_WINDOW_SECONDS: u64 = 60;

/// Where the ledger of the rate limit lies in the workspace.
pub const RATE_LIMIT_FILE: &'static str = ".ralph/rate_limit.json";

/// Where the schema of the agent's result lies in the workspace.
pub const SCHEMA_PATH: &'static str = ".ralph/task_result.schema.json";

/// Exit code: the run completed the task.
pub const EXIT_COMPLETED: i32 = 0;

/// Exit code: the agent left no result.
pub const EXIT_MISSING_RESULT: i32 = 10;

/// Exit code: the task has used up its attempts.
pub const EXIT_ATTEMPT_LIMIT: i32 = 11;

/// Exit code: the run made progress without completing the task.
pub const EXIT_PROGRESS: i32 = 12;

/// Exit code: the context pack was required and could not be built.
pub const EXIT_CONTEXT_FAILED: i32 = 13;

/// Exit code: the run was cancelled.
pub const EXIT_CANCELLED: i32 = 130;

/// What a run of a task needs to know.
#[derive(Debug)]
pub struct TaskAgentConfig {
    pub tasks_path: String,
    pub prompt_path: String,
    pub workspace: String,
    pub reset_task: bool,
    pub explicit_task_id: Option<String>,
    pub context_compile: ContextCompileConfig,
}

/// The model is one that the agent can be run with.
pub open spec fn supported(model: Seq<char>) -> bool {
    model == "gpt-5.1-codex-mini"@ || model == "gpt-5.1-codex"@ || model == "gpt-5.2-codex"@
}

/// Whether the agent can be run with the model.
pub fn model_supported(model: &str) -> (r: bool)
    ensures
        r == supported(model@),
{
    str_eq(model, "gpt-5.1-codex-mini") || str_eq(model, "gpt-5.1-codex") || str_eq(
        model,
        "gpt-5.2-codex",
    )
}

/// Whether a request is admitted to a run.
#[derive(Debug)]
pub enum Admission {
    /// The request is turned down with this exit code.
    Rejected { exit_code: i32 },
    /// The task lacks required fields.
    BadMetadata { error: TaskMetadataError },
    /// The task names a model that the agent cannot be run with.
    UnsupportedModel { task_id: String, model: String },
    /// The task is admitted.
    Admitted { task: SelectedTask },
}

/// How a request is judged, with the place of the task in the list.
pub enum Judgement {
    Rejected { exit_code: i32 },
    BadMetadata { index: int },
    UnsupportedModel { index: int },
    Admitted { index: int },
}

/// How a request is judged. `root` is the task document, or nothing where it
/// could not be read: then the request is turned down as unusable. Else the
/// task is chosen, which may turn the request down; the chosen task must
/// have its required fields; and, having those, it must name a supported
/// model.
pub open spec fn judgement(root: Option<JsonView>, requested: Option<Seq<char>>, allow_next: bool) -> Judgement {
    match root {
        None => Judgement::Rejected { exit_code: EXIT_CONTRACT },
        Some(doc) => match admission(doc, requested, allow_next) {
            Err(code) => Judgement::Rejected { exit_code: code },
            Ok(i) => {
                let task = tasks_of(doc)->0[i];
                if !(title_valid(task) && dod_valid(task) && recommended_valid(task)) {
                    Judgement::BadMetadata { index: i }
                } else if !supported(crate::select::text_field(task, "model"@, Seq::empty())) {
                    Judgement::UnsupportedModel { index: i }
                } else {
                    Judgement::Admitted { index: i }
                }
            },
        },
    }
}

/// The exit code with which a request ends before a run begins, or nothing
/// where the request is admitted. Missing fields and an unsupported model
/// end it as a request that cannot be used.
pub open spec fn rejection_code(
    root: Option<JsonView>,
    requested: Option<Seq<char>>,
    allow_next: bool,
) -> Option<i32> {
    match judgement(root, requested, allow_next) {
        Judgement::Rejected { exit_code } => Some(exit_code),
        Judgement::BadMetadata { .. } => Some(EXIT_CONTRACT),
        Judgement::UnsupportedModel { .. } => Some(EXIT_CONTRACT),
        Judgement::Admitted { .. } => None,
    }
}

/// The exit code that an admission ends the run with, where it does.
pub open spec fn admission_exit(a: Admission) -> Option<i32> {
    match a {
        Admission::Rejected { exit_code } => Some(exit_code),
        Admission::BadMetadata { error } => Some(EXIT_CONTRACT),
        Admission::UnsupportedModel { task_id, model } => Some(EXIT_CONTRACT),
        Admission::Admitted { task } => None,
    }
}

/// The view of an optional slice.
pub open spec fn slice_text(s: Option<&str>) -> Option<Seq<char>> {
    match s {
        Some(t) => Some(t@),
        None => None,
    }
}

/// The view of an optional document.
pub open spec fn doc_view(root: Option<&Json>) -> Option<JsonView> {
    match root {
        Some(j) => Some(j@),
        None => None,
    }
}

/// `a` is the admission that the judgement `j` of a request on the task
/// list `tasks` asks for, with the fields of the task it speaks of.
pub open spec fn admission_is(a: Admission, j: Judgement, tasks: Seq<JsonView>) -> bool {
    match j {
        Judgement::Rejected { exit_code } => a matches Admission::Rejected { exit_code: c } && c
            == exit_code,
        Judgement::BadMetadata { index } => a matches Admission::BadMetadata { error }
            && error.task_id@ == crate::select::text_field(tasks[index], "task_id"@, Seq::empty())
            && crate::text::slice_texts(error.missing@) == crate::task_metadata::missing_fields(
            tasks[index],
        ),
        Judgement::UnsupportedModel { index } => a matches Admission::UnsupportedModel {
            task_id,
            model,
        } && task_id@ == crate::select::text_field(tasks[index], "task_id"@, Seq::empty())
            && model@ == crate::select::text_field(tasks[index], "model"@, Seq::empty()),
        Judgement::Admitted { index } => a matches Admission::Admitted { task } && selects(
            task,
            tasks[index],
            compact(tasks[index]),
        ),
    }
}

/// Decides whether a request is admitted to a run. The task document must
/// be readable and hold a task that is not completed; the first such task
/// must not be for a human; a task asked for by name must be that one, and
/// without a name the next task must have been asked for; the task must
/// have its required fields; and, having those, it must name a supported
/// model. The first of these that fails decides.
pub fn admit_request(root: Option<&Json>, requested_task_id: Option<&str>, allow_next: bool) -> (a: Admission)
    ensures
        admission_is(
            a,
            judgement(doc_view(root), slice_text(requested_task_id), allow_next),
            match root {
                Some(doc) => tasks_of(doc@)->0,
                None => Seq::empty(),
            },
        ),
        admission_exit(a) == rejection_code(doc_view(root), slice_text(requested_task_id), allow_next),
{
    let doc = match root {
        Some(doc) => doc,
        None => {
            return Admission::Rejected { exit_code: EXIT_CONTRACT };
        },
    };
    let task = match select_task(doc, requested_task_id, allow_next) {
        Ok(task) => task,
        Err(code) => {
            return Admission::Rejected { exit_code: code };
        },
    };
    proof {
        crate::select::lemma_empty_text();
    }
    match validate_task_metadata(task.task_id.as_str(), &task.raw) {
        Ok(()) => {},
        Err(error) => {
            return Admission::BadMetadata { error };
        },
    }
    if !model_supported(task.model.as_str()) {
        return Admission::UnsupportedModel {
            task_id: crate::json::copy_string(&task.task_id),
            model: crate::json::copy_string(&task.model),
        };
    }
    Admission::Admitted { task }
}

/// What the attempt counter allows.
#[derive(Debug, Copy, Clone, PartialEq, Eq, Structural)]
pub enum AttemptPlan {
    /// The task has used up its attempts and is blocked.
    Blocked { attempts: u64 },
    /// The run goes ahead as the attempt with this number.
    Proceed { run_attempt: u64 },
}

/// Decides from the attempt counter whether the run goes ahead.
pub fn plan_attempts(current_attempts: u64) -> (plan: AttemptPlan)
    ensures
        plan == if current_attempts >= MAX_RUN_ATTEMPTS {
            AttemptPlan::Blocked { attempts: current_attempts }
        } else {
            AttemptPlan::Proceed { run_attempt: (current_attempts + 1) as u64 }
        },
{
    if current_attempts >= MAX_RUN_ATTEMPTS {
        AttemptPlan::Blocked { attempts: current_attempts }
    } else {
        AttemptPlan::Proceed { run_attempt: current_attempts + 1 }
    }
}

/// How the build of the context pack ended.
#[derive(Debug)]
pub enum AssemblyOutcome {
    Success,
    Failed { code: Option<i32>, message: String },
    Interrupted,
}

/// What follows the build of the context pack.
#[derive(Debug, Copy, Clone, PartialEq, Eq, Structural)]
pub enum ContextDecision {
    /// Go on with the run.
    Continue,
    /// Go on with the run and warn that no pack was built.
    Warn,
    /// Take the path of a cancelled run.
    Interrupt,
    /// Block the task: the pack was required.
    Block,
}

/// What follows the build of the context pack: a pack that was built lets
/// the run go on; an interrupted build cancels the run; a failed build
/// blocks the task where the pack is required and else only warns.
pub fn context_decision(outcome: &AssemblyOutcome, policy: ContextFailurePolicy) -> (d:
    ContextDecision)
    ensures
        d == match *outcome {
            AssemblyOutcome::Success => ContextDecision::Continue,
            AssemblyOutcome::Interrupted => ContextDecision::Interrupt,
            AssemblyOutcome::Failed { code, message } => if policy
                == ContextFailurePolicy::Required {
                ContextDecision::Block
            } else {
                ContextDecision::Warn
            },
        },
{
    match outcome {
        AssemblyOutcome::Success => ContextDecision::Continue,
        AssemblyOutcome::Interrupted => ContextDecision::Interrupt,
        AssemblyOutcome::Failed { code, message } => {
            if policy == ContextFailurePolicy::Required {
                ContextDecision::Block
            } else {
                ContextDecision::Warn
            }
        },
    }
}

/// What follows one start of the agent.
#[derive(Debug, Copy, Clone, PartialEq, Eq, Structural)]
pub enum AgentDecision {
    /// Take the path of a cancelled run.
    Interrupt,
    /// Stop starting the agent and look at what it left.
    Finish,
    /// Sleep this many seconds, then start the agent again.
    Retry { sleep_seconds: u64 },
}

/// What follows the start number `attempt` of the agent, which ended with
/// `exit_code`. A cancelled agent or a requested shutdown cancels the run. A
/// result ends the attempts. Without a result, a rate-limit hint in the log
/// asks for another start after the delay it names, as long as starts are
/// left; without a hint the attempts end.
pub open spec fn agent_decision(
    attempt: u64,
    exit_code: i32,
    shutdown: bool,
    result_present: bool,
    retry_delay: Option<u64>,
) -> AgentDecision {
    if exit_code == EXIT_CANCELLED || shutdown {
        AgentDecision::Interrupt
    } else if result_present {
        AgentDecision::Finish
    } else {
        match retry_delay {
            Some(delay) => if attempt < MAX_AGENT_ATTEMPTS {
                AgentDecision::Retry { sleep_seconds: delay }
            } else {
                AgentDecision::Finish
            },
            None => AgentDecision::Finish,
        }
    }
}

/// Decides what follows one start of the agent.
pub fn decide_after_agent(
    attempt: u64,
    exit_code: i32,
    shutdown: bool,
    result_present: bool,
    retry_delay: Option<u64>,
) -> (d: AgentDecision)
    ensures
        d == agent_decision(attempt, exit_code, shutdown, result_present, retry_delay),
{
    if exit_code == EXIT_CANCELLED || shutdown {
        AgentDecision::Interrupt
    } else if result_present {
        AgentDecision::Finish
    } else {
        match retry_delay {
            Some(delay) => {
                if attempt < MAX_AGENT_ATTEMPTS {
                    AgentDecision::Retry { sleep_seconds: delay }
                } else {
                    AgentDecision::Finish
                }
            },
            None => AgentDecision::Finish,
        }
    }
}

/// The tokens to record for a run: what the agent reported, else the
/// estimate.
pub fn tokens_to_record(reported: Option<u64>, estimated: u64) -> (tokens: u64)
    ensures
        tokens == match reported {
            Some(t) => t,
            None => estimated,
        },
{
    match reported {
        Some(t) => t,
        None => estimated,
    }
}

/// The length of the next nap of a throttle sleep of which `remaining`
/// seconds are left: one second at a time, so that a shutdown is noticed.
pub fn throttle_nap(remaining: u64) -> (nap: u64)
    ensures
        nap == if remaining >= 1 {
            1u64
        } else {
            0u64
        },
        nap <= remaining,
{
    if remaining >= 1 {
        1
    } else {
        0
    }
}

/// How a run ends.
#[derive(Debug)]
pub enum Ending {
    /// The task had used up its attempts before the run began.
    AttemptLimit { attempts: u64 },
    /// The context pack was required and could not be built.
    ContextFailed { note: String },
    /// The agent left no result.
    MissingResult { codex_exit: i32, log_path: String },
    /// The task is done and verified.
    Completed,
    /// The agent reported, but the task is not done or not verified.
    Progress { outcome: String, dod_met: bool, verify_ok: bool, result_path: String },
    /// The run was cancelled.
    Interrupted { run_attempt: u64 },
}

/// The exit code of a run that ends this way.
pub open spec fn ending_exit(e: Ending) -> i32 {
    match e {
        Ending::AttemptLimit { .. } => EXIT_ATTEMPT_LIMIT,
        Ending::ContextFailed { .. } => EXIT_CONTEXT_FAILED,
        Ending::MissingResult { .. } => EXIT_MISSING_RESULT,
        Ending::Completed => EXIT_COMPLETED,
        Ending::Progress { .. } => EXIT_PROGRESS,
        Ending::Interrupted { .. } => EXIT_CANCELLED,
    }
}

/// The status that a task has after a run that ends this way.
pub open spec fn ending_status(e: Ending) -> Seq<char> {
    match e {
        Ending::AttemptLimit { .. } => "blocked"@,
        Ending::ContextFailed { .. } => "blocked"@,
        Ending::MissingResult { .. } => "blocked"@,
        Ending::Completed => "completed"@,
        Ending::Progress { .. } => "started"@,
        Ending::Interrupted { .. } => "started"@,
    }
}

/// Whether a run that ends this way counts as an attempt. A task that was
/// blocked before the run began has not been run.
pub open spec fn ending_counts(e: Ending) -> bool {
    !(e is AttemptLimit)
}

/// The word for a truth value.
pub open spec fn bool_text(b: bool) -> Seq<char> {
    if b {
        "true"@
    } else {
        "false"@
    }
}

/// The note that is left on a task after a run that ends this way.
pub open spec fn ending_note(run_id: Seq<char>, e: Ending) -> Seq<char> {
    match e {
        Ending::AttemptLimit { attempts } => "Attempt limit reached ("@ + decimal(attempts as nat)
            + "/"@ + decimal(MAX_RUN_ATTEMPTS as nat)
            + "). Use --reset-task after human intervention."@,
        Ending::ContextFailed { note } => note@,
        Ending::MissingResult { codex_exit, log_path } => "Codex produced no result.json (exit="@
            + signed_decimal(codex_exit as int) + "). See "@ + log_path@,
        Ending::Completed => "Run "@ + run_id + " completed"@,
        Ending::Progress { outcome, dod_met, verify_ok, result_path } => "Run "@ + run_id
            + " progress. reported_outcome="@ + outcome@ + " dod_met="@ + bool_text(dod_met)
            + " verify_ok="@ + bool_text(verify_ok) + ". See "@ + result_path@,
        Ending::Interrupted { run_attempt } => "Run "@ + run_id + " interrupted on attempt "@
            + decimal(run_attempt as nat),
    }
}

/// The word for a truth value.
pub fn bool_word(b: bool) -> (out: &'static str)
    ensures
        out@ == bool_text(b),
{
    if b {
        "true"
    } else {
        "false"
    }
}

impl Ending {
    /// The exit code of a run that ends this way.
    pub fn exit_code(&self) -> (code: i32)
        ensures
            code == ending_exit(*self),
    {
        match self {
            Ending::AttemptLimit { .. } => EXIT_ATTEMPT_LIMIT,
            Ending::ContextFailed { .. } => EXIT_CONTEXT_FAILED,
            Ending::MissingResult { .. } => EXIT_MISSING_RESULT,
            Ending::Completed => EXIT_COMPLETED,
            Ending::Progress { .. } => EXIT_PROGRESS,
            Ending::Interrupted { .. } => EXIT_CANCELLED,
        }
    }

    /// The status that the task gets.
    pub fn status(&self) -> (out: &'static str)
        ensures
            out@ == ending_status(*self),
    {
        match self {
            Ending::AttemptLimit { .. } => "blocked",
            Ending::ContextFailed { .. } => "blocked",
            Ending::MissingResult { .. } => "blocked",
            Ending::Completed => "completed",
            Ending::Progress { .. } => "started",
            Ending::Interrupted { .. } => "started",
        }
    }

    /// Whether the run counts as an attempt.
    pub fn counts(&self) -> (r: bool)
        ensures
            r == ending_counts(*self),
    {
        match self {
            Ending::AttemptLimit { .. } => false,
            _ => true,
        }
    }

    /// Whether the task's branch is merged after the run.
    pub fn finalizes(&self) -> (r: bool)
        ensures
            r == (*self is Completed),
    {
        match self {
            Ending::Completed => true,
            _ => false,
        }
    }

    /// The note that is left on the task.
    pub fn note(&self, run_id: &str) -> (out: String)
        ensures
            out@ == ending_note(run_id@, *self),
    {
        match self {
            Ending::AttemptLimit { attempts } => {
                let mut out = String::from_str("Attempt limit reached (");
                let a = u64_text(*attempts);
                out.append(a.as_str());
                out.append("/");
                let m = u64_text(MAX_RUN_ATTEMPTS);
                out.append(m.as_str());
                out.append("). Use --reset-task after human intervention.");
                out
            },
            Ending::ContextFailed { note } => crate::json::copy_string(note),
            Ending::MissingResult { codex_exit, log_path } => {
                let mut out = String::from_str("Codex produced no result.json (exit=");
                let c = i64_text(*codex_exit as i64);
                out.append(c.as_str());
                out.append("). See ");
                out.append(log_path.as_str());
                out
            },
            Ending::Completed => {
                let mut out = String::from_str("Run ");
                out.append(run_id);
                out.append(" completed");
                out
            },
            Ending::Progress { outcome, dod_met, verify_ok, result_path } => {
                let mut out = String::from_str("Run ");
                out.append(run_id);
                out.append(" progress. reported_outcome=");
                out.append(outcome.as_str());
                out.append(" dod_met=");
                out.append(bool_word(*dod_met));
                out.append(" verify_ok=");
                out.append(bool_word(*verify_ok));
                out.append(". See ");
                out.append(result_path.as_str());
                out
            },
            Ending::Interrupted { run_attempt } => {
                let mut out = String::from_str("Run ");
                out.append(run_id);
                out.append(" interrupted on attempt ");
                let a = u64_text(*run_attempt);
                out.append(a.as_str());
                out
            },
        }
    }
}

/// The note for a task that is blocked because its context pack could not
/// be built.
pub open spec fn context_note(
    code: Option<i32>,
    run_id: Seq<char>,
    message: Seq<char>,
    stdout_path: Seq<char>,
    stderr_path: Seq<char>,
) -> Seq<char> {
    "Assembly failed ("@ + exit_detail(code) + ") for run "@ + run_id + ". "@ + message
        + " See stdout="@ + stdout_path + " stderr="@ + stderr_path
}

/// How a process ended, for a note: its exit code, or that a signal ended
/// it.
pub open spec fn exit_detail(code: Option<i32>) -> Seq<char> {
    match code {
        Some(c) => "exit="@ + signed_decimal(c as int),
        None => "exit=signal"@,
    }
}

/// How a process ended, for a note.
pub fn exit_detail_text(code: Option<i32>) -> (out: String)
    ensures
        out@ == exit_detail(code),
{
    match code {
        Some(c) => {
            let mut out = String::from_str("exit=");
            let digits = i64_text(c as i64);
            out.append(digits.as_str());
            out
        },
        None => String::from_str("exit=signal"),
    }
}

/// The note for a failed build of the context pack.
pub fn context_failure_note(
    code: Option<i32>,
    run_id: &str,
    message: &str,
    stdout_path: &str,
    stderr_path: &str,
) -> (out: String)
    ensures
        out@ == context_note(code, run_id@, message@, stdout_path@, stderr_path@),
{
    let mut out = String::from_str("Assembly failed (");
    let detail = exit_detail_text(code);
    out.append(detail.as_str());
    out.append(") for run ");
    out.append(run_id);
    out.append(". ");
    out.append(message);
    out.append(" See stdout=");
    out.append(stdout_path);
    out.append(" stderr=");
    out.append(stderr_path);
    out
}

/// The document with the attempt counter of the task `id` raised by one.
pub open spec fn doc_incremented(root: JsonView, id: Seq<char>) -> JsonView {
    let tasks = tasks_of(root)->0;
    let i = task_index(tasks, id);
    with_task(root, i, task_incremented(tasks[i]))
}

/// The document with the status of the task `id` set and its bookkeeping
/// stamped.
pub open spec fn doc_with_status(
    root: JsonView,
    id: Seq<char>,
    status: Seq<char>,
    run_id: Seq<char>,
    stamp: Seq<char>,
    note: Seq<char>,
) -> JsonView {
    let tasks = tasks_of(root)->0;
    let i = task_index(tasks, id);
    with_task(root, i, task_with_status(tasks[i], status, run_id, stamp, note))
}

/// The document after a run of the task `id` that ends with `e`: the attempt
/// is counted where it counts, then status and note are set.
pub open spec fn doc_ended(
    root: JsonView,
    id: Seq<char>,
    run_id: Seq<char>,
    stamp: Seq<char>,
    e: Ending,
) -> JsonView {
    let counted = if ending_counts(e) {
        doc_incremented(root, id)
    } else {
        root
    };
    doc_with_status(counted, id, ending_status(e), run_id, stamp, ending_note(run_id, e))
}

/// Counting an attempt keeps the task where it is in the list.
pub proof fn lemma_incremented_keeps_task(root: JsonView, id: Seq<char>)
    requires
        tasks_of(root) matches Some(tasks) && has_task(tasks, id),
    ensures
        tasks_of(doc_incremented(root, id)) matches Some(after) && has_task(after, id)
            && task_index(after, id) == task_index(tasks_of(root)->0, id) && after.len()
            == tasks_of(root)->0.len() && after[task_index(after, id)] == task_incremented(
            tasks_of(root)->0[task_index(after, id)],
        ),
{
    let tasks = tasks_of(root)->0;
    lemma_has_task_first(tasks, id);
    let i = task_index(tasks, id);
    let t = task_incremented(tasks[i]);
    lemma_with_task(root, i, t, "tasks"@);
    let after = tasks.update(i, t);
    assert(tasks[i] is Object);
    reveal_strlit("task_id");
    reveal_strlit("observability");
    assert("task_id"@.len() != "observability"@.len());
    lemma_task_incremented(tasks[i], "task_id"@);
    assert(crate::task_store::is_first_task(after, id, i)) by {
        assert forall|j: int| 0 <= j < i implies !crate::task_store::has_id(#[trigger] after[j], id) by {
            assert(after[j] == tasks[j]);
        }
    }
    lemma_task_index(after, id, i);
}

/// Writes the end of a run into the task document: the attempt is counted
/// where the run counts as one, then the task gets its status and its note.
/// Returns the new document and the exit code of the run.
pub fn apply_ending(root: &Json, task_id: &str, run_id: &str, stamp: &str, ending: &Ending) -> (r:
    Result<(Json, i32), StoreError>)
    ensures
        match tasks_of(root@) {
            Some(tasks) => if has_task(tasks, task_id@) {
                r matches Ok((out, code)) && out@ == doc_ended(
                    root@,
                    task_id@,
                    run_id@,
                    stamp@,
                    *ending,
                ) && code == ending_exit(*ending)
            } else {
                r matches Err(e) && e == StoreError::TaskNotFound
            },
            None => r matches Err(e) && e == StoreError::NotAList,
        },
{
    let note = ending.note(run_id);
    if ending.counts() {
        let counted = match increment_attempt_count(root, task_id) {
            Ok((doc, _)) => doc,
            Err(e) => {
                return Err(e);
            },
        };
        proof {
            lemma_incremented_keeps_task(root@, task_id@);
        }
        match update_task_status(&counted, task_id, ending.status(), run_id, note.as_str(), stamp) {
            Ok(doc) => Ok((doc, ending.exit_code())),
            Err(e) => Err(e),
        }
    } else {
        match update_task_status(root, task_id, ending.status(), run_id, note.as_str(), stamp) {
            Ok(doc) => Ok((doc, ending.exit_code())),
            Err(e) => Err(e),
        }
    }
}

/// The attempt counter of the task `id` in a document that holds it.
pub open spec fn doc_attempts(root: JsonView, id: Seq<char>) -> u64 {
    let tasks = tasks_of(root)->0;
    attempts_of(tasks[task_index(tasks, id)])
}

/// A run never lowers the attempt counter of its task: a run that counts as
/// an attempt raises it by one (the largest counter stays), and a run that
/// ends at the attempt limit leaves it as it was. The task keeps its place,
/// and its new status is the one that the ending names.
pub proof fn lemma_ending_attempts(
    root: JsonView,
    id: Seq<char>,
    run_id: Seq<char>,
    stamp: Seq<char>,
    e: Ending,
)
    requires
        tasks_of(root) matches Some(tasks) && has_task(tasks, id),
    ensures
        ({
            let after = doc_ended(root, id, run_id, stamp, e);
            &&& tasks_of(after) matches Some(tasks) && has_task(tasks, id)
            &&& doc_attempts(after, id) >= doc_attempts(root, id)
            &&& ending_counts(e) ==> doc_attempts(after, id) == next_attempt(doc_attempts(root, id))
            &&& !ending_counts(e) ==> doc_attempts(after, id) == doc_attempts(root, id)
            &&& tasks_of(after)->0[task_index(tasks_of(after)->0, id)].get("status"@) == Some(
                JsonView::String(ending_status(e)),
            )
        }),
{
    let counted = if ending_counts(e) {
        doc_incremented(root, id)
    } else {
        root
    };
    if ending_counts(e) {
        lemma_incremented_keeps_task(root, id);
        let tasks0 = tasks_of(root)->0;
        lemma_has_task_first(tasks0, id);
        lemma_task_incremented(tasks0[task_index(tasks0, id)], "task_id"@);
    }
    let tasks = tasks_of(counted)->0;
    lemma_has_task_first(tasks, id);
    let i = task_index(tasks, id);
    let status = ending_status(e);
    let note = ending_note(run_id, e);
    let t = task_with_status(tasks[i], status, run_id, stamp, note);
    lemma_with_task(counted, i, t, "tasks"@);
    reveal_strlit("task_id");
    reveal_strlit("observability");
    reveal_strlit("status");
    assert("task_id"@.len() != "observability"@.len());
    assert("task_id"@.len() != "status"@.len());
    lemma_task_with_status(tasks[i], status, run_id, stamp, note, "task_id"@);
    let after = tasks.update(i, t);
    assert(crate::task_store::is_first_task(after, id, i)) by {
        assert forall|j: int| 0 <= j < i implies !crate::task_store::has_id(#[trigger] after[j], id) by {
            assert(after[j] == tasks[j]);
        }
    }
    lemma_task_index(after, id, i);
}

/// The end of a run changes the task that was run and nothing else: the
/// list keeps its length and its other tasks, the task keeps every field
/// but its status and its bookkeeping, and a document that is an object
/// keeps its other members.
pub proof fn lemma_ending_keeps_the_rest(
    root: JsonView,
    id: Seq<char>,
    run_id: Seq<char>,
    stamp: Seq<char>,
    e: Ending,
    field: Seq<char>,
    member: Seq<char>,
)
    requires
        tasks_of(root) matches Some(tasks) && has_task(tasks, id),
    ensures
        ({
            let after = doc_ended(root, id, run_id, stamp, e);
            let tasks = tasks_of(root)->0;
            let i = task_index(tasks, id);
            &&& tasks_of(after) matches Some(later) && later.len() == tasks.len()
            &&& forall|j: int|
                0 <= j < tasks.len() && j != i ==> (#[trigger] tasks_of(after)->0[j]) == tasks[j]
            &&& field != "status"@ && field != "observability"@ ==> tasks_of(after)->0[i].get(field)
                == tasks[i].get(field)
            &&& member != "tasks"@ ==> after.get(member) == root.get(member)
            &&& root is Array <==> after is Array
        }),
{
    let tasks = tasks_of(root)->0;
    lemma_has_task_first(tasks, id);
    let i = task_index(tasks, id);
    assert(tasks[i] is Object);
    let counted = if ending_counts(e) {
        doc_incremented(root, id)
    } else {
        root
    };
    if ending_counts(e) {
        lemma_incremented_keeps_task(root, id);
        lemma_with_task(root, i, task_incremented(tasks[i]), member);
        lemma_task_incremented(tasks[i], field);
    }
    let middle = tasks_of(counted)->0;
    assert(task_index(middle, id) == i);
    assert(middle[i] is Object);
    let status = ending_status(e);
    let note = ending_note(run_id, e);
    let t = task_with_status(middle[i], status, run_id, stamp, note);
    lemma_with_task(counted, i, t, member);
    lemma_task_with_status(middle[i], status, run_id, stamp, note, field);
    let later = tasks_of(doc_ended(root, id, run_id, stamp, e))->0;
    assert forall|j: int| 0 <= j < tasks.len() && j != i implies (#[trigger] later[j]) == tasks[j] by {
        assert(later[j] == middle[j]);
    }
}

/// What the agent reported.
#[derive(Debug)]
pub struct RunReport {
    pub outcome: String,
    pub dod_met: bool,
    pub summary: Option<String>,
    pub notes: String,
    pub tests_ran: bool,
    pub tests_passed: bool,
}

/// The truth value of the member `key` where it is one, else false.
pub open spec fn bool_field(value: JsonView, key: Seq<char>) -> bool {
    match value.get(key) {
        Some(JsonView::Bool(b)) => b,
        _ => false,
    }
}

/// The truth value of the member `key` of the member `tests`.
pub open spec fn tests_field(result: JsonView, key: Seq<char>) -> bool {
    match result.get("tests"@) {
        Some(tests) => bool_field(tests, key),
        None => false,
    }
}

/// `report` is what the result says.
pub open spec fn reports(report: RunReport, result: JsonView) -> bool {
    &&& report.outcome@ == crate::select::text_field(result, "outcome"@, Seq::empty())
    &&& report.dod_met == bool_field(result, "dod_met"@)
    &&& crate::driver::opt_text(report.summary) == crate::driver::string_member(result, "summary"@)
    &&& report.notes@ == crate::select::text_field(result, "notes"@, Seq::empty())
    &&& report.tests_ran == tests_field(result, "ran"@)
    &&& report.tests_passed == tests_field(result, "passed"@)
}

/// The truth value of the member `key` where it is one, else false.
pub fn read_bool_field(value: &Json, key: &str) -> (b: bool)
    ensures
        b == bool_field(value@, key@),
{
    match value.get(key) {
        Some(Json::Bool(b)) => *b,
        _ => false,
    }
}

/// Reads what the agent reported from its result.
pub fn read_result(result: &Json) -> (report: RunReport)
    ensures
        reports(report, result@),
{
    proof {
        crate::select::lemma_empty_text();
    }
    let (tests_ran, tests_passed) = match result.get("tests") {
        Some(tests) => (read_bool_field(tests, "ran"), read_bool_field(tests, "passed")),
        None => (false, false),
    };
    RunReport {
        outcome: crate::select::read_text_field(result, "outcome", ""),
        dod_met: read_bool_field(result, "dod_met"),
        summary: crate::driver::read_string_member(result, "summary"),
        notes: crate::select::read_text_field(result, "notes", ""),
        tests_ran,
        tests_passed,
    }
}

/// How a run ends once the agent has reported and, where the task was
/// reported done, verification has run: completed where the task is done
/// and verified, else progress.
pub fn conclude(report: &RunReport, verify_ok: bool, result_path: &str) -> (e: Ending)
    ensures
        report.dod_met && verify_ok ==> e is Completed,
        !(report.dod_met && verify_ok) ==> (e matches Ending::Progress {
            outcome,
            dod_met,
            verify_ok: v,
            result_path: p,
        } && outcome@ == report.outcome@ && dod_met == report.dod_met && v == verify_ok && p@
            == result_path@),
{
    if report.dod_met && verify_ok {
        Ending::Completed
    } else {
        Ending::Progress {
            outcome: crate::json::copy_string(&report.outcome),
            dod_met: report.dod_met,
            verify_ok,
            result_path: String::from_str(result_path),
        }
    }
}

/// Where a run stands.
#[derive(Debug, Copy, Clone, PartialEq, Eq, Structural)]
pub enum Phase {
    /// Nothing has happened yet.
    Start,
    /// The task is admitted; the run has no identifier yet.
    Admitted,
    /// The run is opened as the attempt `run_attempt`; its directory is
    /// being written.
    Opened { run_attempt: u64 },
    /// The context pack is being built.
    Compiling { run_attempt: u64 },
    /// The schema of the result is being put in place.
    Preparing { run_attempt: u64 },
    /// The prompt is being written and the rate limit waited for.
    Throttling { run_attempt: u64 },
    /// The agent runs for the time number `attempt`.
    Running { run_attempt: u64, attempt: u64 },
    /// The agent is done with `codex_exit`; its usage is being recorded.
    Recording { codex_exit: i32 },
    /// The result is being read.
    Reading,
    /// Verification runs.
    Verifying,
    /// The run is over.
    Finished,
}

/// What the caller reports back.
#[derive(Debug, Copy, Clone, PartialEq, Eq, Structural)]
pub enum Event {
    /// The request was judged: it is turned down with an exit code, or
    /// admitted.
    Judged { rejection: Option<i32> },
    /// The run has its identifier, the task was reset where that was asked
    /// for, and its attempt counter was read.
    RunOpened { attempts: u64 },
    /// The run directory and the snapshots of the task are written.
    WorkspaceReady { shutdown: bool },
    /// The build of the context pack ended and was judged.
    ContextBuilt { decision: ContextDecision },
    /// The schema of the result is in place.
    SchemaReady { shutdown: bool },
    /// The prompt is written and the rate limit has been waited for.
    Throttled { shutdown: bool },
    /// The agent ended.
    AgentExited { exit_code: i32, shutdown: bool, result_present: bool, retry_delay: Option<u64> },
    /// The usage is recorded; the result is there or not.
    UsageRecorded { result_present: bool },
    /// The result was read.
    ResultRead { dod_met: bool },
    /// Verification ended.
    Verified { ok: bool },
}

/// How a run ends, without the texts that the note quotes.
#[derive(Debug, Copy, Clone, PartialEq, Eq, Structural)]
pub enum EndKind {
    AttemptLimit { attempts: u64 },
    ContextFailed,
    MissingResult { codex_exit: i32 },
    Completed,
    Progress { dod_met: bool, verify_ok: bool },
    Interrupted { run_attempt: u64 },
}

/// What the caller does next.
#[derive(Debug, Copy, Clone, PartialEq, Eq, Structural)]
pub enum Step {
    /// Give up: the report does not fit where the run stands.
    Fatal,
    /// Leave with this exit code; the task is not touched.
    Exit { code: i32 },
    /// Make the run's identifier, reset the task where `reset` holds, and
    /// read its attempt counter.
    OpenRun { reset: bool },
    /// Create the run directory and write the snapshots of the task.
    PrepareWorkspace,
    /// Build the context pack.
    BuildContext,
    /// Put the schema of the result in place.
    EnsureSchema,
    /// Write the prompt and wait for the rate limit.
    Throttle,
    /// Sleep `sleep_seconds`, then start the agent for the time number
    /// `attempt`.
    StartAgent { attempt: u64, sleep_seconds: u64 },
    /// Record the usage of the run.
    RecordUsage,
    /// Read the result.
    ReadResult,
    /// Run verification.
    Verify,
    /// End the run: write status and note, commit, and leave with the exit
    /// code of the ending.
    End { kind: EndKind },
}

/// The next phase and step of a run, from where it stands and what was
/// reported. A report that does not fit the phase is fatal.
pub open spec fn transition(phase: Phase, event: Event, reset_task: bool, context_enabled: bool) -> (
    Phase,
    Step,
) {
    match (phase, event) {
        (Phase::Start, Event::Judged { rejection }) => match rejection {
            Some(code) => (Phase::Finished, Step::Exit { code }),
            None => (Phase::Admitted, Step::OpenRun { reset: reset_task }),
        },
        (Phase::Admitted, Event::RunOpened { attempts }) => if attempts >= MAX_RUN_ATTEMPTS {
            (Phase::Finished, Step::End { kind: EndKind::AttemptLimit { attempts } })
        } else {
            (Phase::Opened { run_attempt: (attempts + 1) as u64 }, Step::PrepareWorkspace)
        },
        (Phase::Opened { run_attempt }, Event::WorkspaceReady { shutdown }) => if !context_enabled {
            (Phase::Preparing { run_attempt }, Step::EnsureSchema)
        } else if shutdown {
            (Phase::Finished, Step::End { kind: EndKind::Interrupted { run_attempt } })
        } else {
            (Phase::Compiling { run_attempt }, Step::BuildContext)
        },
        (Phase::Compiling { run_attempt }, Event::ContextBuilt { decision }) => match decision {
            ContextDecision::Continue => (Phase::Preparing { run_attempt }, Step::EnsureSchema),
            ContextDecision::Warn => (Phase::Preparing { run_attempt }, Step::EnsureSchema),
            ContextDecision::Interrupt => (
                Phase::Finished,
                Step::End { kind: EndKind::Interrupted { run_attempt } },
            ),
            ContextDecision::Block => (Phase::Finished, Step::End { kind: EndKind::ContextFailed }),
        },
        (Phase::Preparing { run_attempt }, Event::SchemaReady { shutdown }) => if shutdown {
            (Phase::Finished, Step::End { kind: EndKind::Interrupted { run_attempt } })
        } else {
            (Phase::Throttling { run_attempt }, Step::Throttle)
        },
        (Phase::Throttling { run_attempt }, Event::Throttled { shutdown }) => if shutdown {
            (Phase::Finished, Step::End { kind: EndKind::Interrupted { run_attempt } })
        } else {
            (
                Phase::Running { run_attempt, attempt: 1 },
                Step::StartAgent { attempt: 1, sleep_seconds: 0 },
            )
        },
        (
            Phase::Running { run_attempt, attempt },
            Event::AgentExited { exit_code, shutdown, result_present, retry_delay },
        ) => match agent_decision(attempt, exit_code, shutdown, result_present, retry_delay) {
            AgentDecision::Interrupt => (
                Phase::Finished,
                Step::End { kind: EndKind::Interrupted { run_attempt } },
            ),
            AgentDecision::Finish => (Phase::Recording { codex_exit: exit_code }, Step::RecordUsage),
            AgentDecision::Retry { sleep_seconds } => (
                Phase::Running { run_attempt, attempt: (attempt + 1) as u64 },
                Step::StartAgent { attempt: (attempt + 1) as u64, sleep_seconds },
            ),
        },
        (Phase::Recording { codex_exit }, Event::UsageRecorded { result_present }) => if result_present {
            (Phase::Reading, Step::ReadResult)
        } else {
            (Phase::Finished, Step::End { kind: EndKind::MissingResult { codex_exit } })
        },
        (Phase::Reading, Event::ResultRead { dod_met }) => if dod_met {
            (Phase::Verifying, Step::Verify)
        } else {
            (
                Phase::Finished,
                Step::End { kind: EndKind::Progress { dod_met: false, verify_ok: true } },
            )
        },
        (Phase::Verifying, Event::Verified { ok }) => if ok {
            (Phase::Finished, Step::End { kind: EndKind::Completed })
        } else {
            (
                Phase::Finished,
                Step::End { kind: EndKind::Progress { dod_met: true, verify_ok: false } },
            )
        },
        _ => (Phase::Finished, Step::Fatal),
    }
}

/// The counters of a phase are within their limits.
pub open spec fn phase_valid(phase: Phase) -> bool {
    match phase {
        Phase::Opened { run_attempt } => 1 <= run_attempt <= MAX_RUN_ATTEMPTS,
        Phase::Compiling { run_attempt } => 1 <= run_attempt <= MAX_RUN_ATTEMPTS,
        Phase::Preparing { run_attempt } => 1 <= run_attempt <= MAX_RUN_ATTEMPTS,
        Phase::Throttling { run_attempt } => 1 <= run_attempt <= MAX_RUN_ATTEMPTS,
        Phase::Running { run_attempt, attempt } => 1 <= run_attempt <= MAX_RUN_ATTEMPTS && 1
            <= attempt <= MAX_AGENT_ATTEMPTS,
        _ => true,
    }
}

/// Decides the next step of a run from where it stands and what the caller
/// reports. `reset_task` and `context_enabled` are the run's settings.
pub fn advance(phase: Phase, event: Event, reset_task: bool, context_enabled: bool) -> (next: (
    Phase,
    Step,
))
    ensures
        next == transition(phase, event, reset_task, context_enabled),
        phase_valid(phase) ==> phase_valid(next.0),
{
    match (phase, event) {
        (Phase::Start, Event::Judged { rejection }) => {
            match rejection {
                Some(code) => (Phase::Finished, Step::Exit { code }),
                None => (Phase::Admitted, Step::OpenRun { reset: reset_task }),
            }
        },
        (Phase::Admitted, Event::RunOpened { attempts }) => {
            match plan_attempts(attempts) {
                AttemptPlan::Blocked { attempts } => (
                    Phase::Finished,
                    Step::End { kind: EndKind::AttemptLimit { attempts } },
                ),
                AttemptPlan::Proceed { run_attempt } => (
                    Phase::Opened { run_attempt },
                    Step::PrepareWorkspace,
                ),
            }
        },
        (Phase::Opened { run_attempt }, Event::WorkspaceReady { shutdown }) => {
            if !context_enabled {
                (Phase::Preparing { run_attempt }, Step::EnsureSchema)
            } else if shutdown {
                (Phase::Finished, Step::End { kind: EndKind::Interrupted { run_attempt } })
            } else {
                (Phase::Compiling { run_attempt }, Step::BuildContext)
            }
        },
        (Phase::Compiling { run_attempt }, Event::ContextBuilt { decision }) => {
            match decision {
                ContextDecision::Continue => (Phase::Preparing { run_attempt }, Step::EnsureSchema),
                ContextDecision::Warn => (Phase::Preparing { run_attempt }, Step::EnsureSchema),
                ContextDecision::Interrupt => (
                    Phase::Finished,
                    Step::End { kind: EndKind::Interrupted { run_attempt } },
                ),
                ContextDecision::Block => (
                    Phase::Finished,
                    Step::End { kind: EndKind::ContextFailed },
                ),
            }
        },
        (Phase::Preparing { run_attempt }, Event::SchemaReady { shutdown }) => {
            if shutdown {
                (Phase::Finished, Step::End { kind: EndKind::Interrupted { run_attempt } })
            } else {
                (Phase::Throttling { run_attempt }, Step::Throttle)
            }
        },
        (Phase::Throttling { run_attempt }, Event::Throttled { shutdown }) => {
            if shutdown {
                (Phase::Finished, Step::End { kind: EndKind::Interrupted { run_attempt } })
            } else {
                (
                    Phase::Running { run_attempt, attempt: 1 },
                    Step::StartAgent { attempt: 1, sleep_seconds: 0 },
                )
            }
        },
        (
            Phase::Running { run_attempt, attempt },
            Event::AgentExited { exit_code, shutdown, result_present, retry_delay },
        ) => {
            match decide_after_agent(attempt, exit_code, shutdown, result_present, retry_delay) {
                AgentDecision::Interrupt => (
                    Phase::Finished,
                    Step::End { kind: EndKind::Interrupted { run_attempt } },
                ),
                AgentDecision::Finish => (
                    Phase::Recording { codex_exit: exit_code },
                    Step::RecordUsage,
                ),
                AgentDecision::Retry { sleep_seconds } => (
                    Phase::Running { run_attempt, attempt: attempt + 1 },
                    Step::StartAgent { attempt: attempt + 1, sleep_seconds },
                ),
            }
        },
        (Phase::Recording { codex_exit }, Event::UsageRecorded { result_present }) => {
            if result_present {
                (Phase::Reading, Step::ReadResult)
            } else {
                (Phase::Finished, Step::End { kind: EndKind::MissingResult { codex_exit } })
            }
        },
        (Phase::Reading, Event::ResultRead { dod_met }) => {
            if dod_met {
                (Phase::Verifying, Step::Verify)
            } else {
                (
                    Phase::Finished,
                    Step::End { kind: EndKind::Progress { dod_met: false, verify_ok: true } },
                )
            }
        },
        (Phase::Verifying, Event::Verified { ok }) => {
            if ok {
                (Phase::Finished, Step::End { kind: EndKind::Completed })
            } else {
                (
                    Phase::Finished,
                    Step::End { kind: EndKind::Progress { dod_met: true, verify_ok: false } },
                )
            }
        },
        _ => (Phase::Finished, Step::Fatal),
    }
}

/// What holds of every step of a run: a step that ends the run leaves it
/// finished; the agent is started at most as often as allowed, with starts
/// numbered in order; a task at its attempt limit is blocked without a
/// start of the agent; a required context pack that fails blocks the task
/// without a start of the agent; a run is completed only after verification
/// succeeded; and a shutdown or a cancelled agent leads to the cancelled
/// ending with the number of the attempt.
pub proof fn lemma_transition(phase: Phase, event: Event, reset_task: bool, context_enabled: bool)
    requires
        phase_valid(phase),
    ensures
        ({
            let (next, step) = transition(phase, event, reset_task, context_enabled);
            &&& phase_valid(next)
            &&& (step is End || step is Exit || step is Fatal) ==> next is Finished
            &&& step matches Step::StartAgent { attempt, sleep_seconds } ==> 1 <= attempt
                <= MAX_AGENT_ATTEMPTS && (phase is Throttling ==> attempt == 1 && sleep_seconds == 0)
                && (phase is Running ==> attempt == phase->Running_attempt + 1)
            &&& (phase is Admitted && event is RunOpened && event->RunOpened_attempts
                >= MAX_RUN_ATTEMPTS) ==> step == (Step::End {
                kind: EndKind::AttemptLimit { attempts: event->RunOpened_attempts },
            })
            &&& (phase is Compiling && event == (Event::ContextBuilt {
                decision: ContextDecision::Block,
            })) ==> step == (Step::End { kind: EndKind::ContextFailed })
            &&& step == (Step::End { kind: EndKind::Completed }) ==> phase is Verifying && event == (
            Event::Verified { ok: true })
            &&& (phase is Running && event is AgentExited && (event->AgentExited_shutdown
                || event->AgentExited_exit_code == EXIT_CANCELLED)) ==> step == (Step::End {
                kind: EndKind::Interrupted { run_attempt: phase->Running_run_attempt },
            })
        }),
{
}

/// The ending of a run with the texts that its note quotes.
pub fn ending_of(
    kind: EndKind,
    context_note: &str,
    log_path: &str,
    outcome: &str,
    result_path: &str,
) -> (e: Ending)
    ensures
        match kind {
            EndKind::AttemptLimit { attempts } => e matches Ending::AttemptLimit { attempts: a }
                && a == attempts,
            EndKind::ContextFailed => e matches Ending::ContextFailed { note } && note@
                == context_note@,
            EndKind::MissingResult { codex_exit } => e matches Ending::MissingResult {
                codex_exit: c,
                log_path: p,
            } && c == codex_exit && p@ == log_path@,
            EndKind::Completed => e is Completed,
            EndKind::Progress { dod_met, verify_ok } => e matches Ending::Progress {
                outcome: o,
                dod_met: d,
                verify_ok: v,
                result_path: p,
            } && o@ == outcome@ && d == dod_met && v == verify_ok && p@ == result_path@,
            EndKind::Interrupted { run_attempt } => e matches Ending::Interrupted { run_attempt: r }
                && r == run_attempt,
        },
{
    match kind {
        EndKind::AttemptLimit { attempts } => Ending::AttemptLimit { attempts },
        EndKind::ContextFailed => Ending::ContextFailed { note: String::from_str(context_note) },
        EndKind::MissingResult { codex_exit } => Ending::MissingResult {
            codex_exit,
            log_path: String::from_str(log_path),
        },
        EndKind::Completed => Ending::Completed,
        EndKind::Progress { dod_met, verify_ok } => Ending::Progress {
            outcome: String::from_str(outcome),
            dod_met,
            verify_ok,
            result_path: String::from_str(result_path),
        },
        EndKind::Interrupted { run_attempt } => Ending::Interrupted { run_attempt },
    }
}

/// Whether a shutdown was requested; without a flag none was.
pub fn is_shutdown(flag: Option<bool>) -> (r: bool)
    ensures
        r == (flag == Some(true)),
{
    match flag {
        Some(set) => set,
        None => false,
    }
}

/// Writes the end of a cancelled run into the task document: the attempt
/// is counted, the task stays started with a note that names the run and
/// the attempt, and the run leaves with the exit code of a cancelled run.
pub fn handle_interrupt(root: &Json, task_id: &str, run_id: &str, stamp: &str, run_attempt: u64) -> (r:
    Result<(Json, i32), StoreError>)
    ensures
        match tasks_of(root@) {
            Some(tasks) => if has_task(tasks, task_id@) {
                r matches Ok((out, code)) && out@ == doc_ended(
                    root@,
                    task_id@,
                    run_id@,
                    stamp@,
                    Ending::Interrupted { run_attempt },
                ) && code == EXIT_CANCELLED
            } else {
                r matches Err(e) && e == StoreError::TaskNotFound
            },
            None => r matches Err(e) && e == StoreError::NotAList,
        },
{
    let ending = Ending::Interrupted { run_attempt };
    apply_ending(root, task_id, run_id, stamp, &ending)
}

} // verus!
