//! The outer loop: how often to run, what an exit code of a run means for
//! the loop, and when the loop ends.

use vstd::prelude::*;
use vstd::string::StringExecFns;
use crate::json::{copy_json, copy_string, item_views, lemma_array_view, Json, JsonView};
use crate::task_metadata::{
    dod_valid, missing_fields, recommended_valid, title_valid, validate_task_metadata,
    TaskMetadataError,
};
use crate::text::{decimal, i64_text, signed_decimal, slice_texts, str_eq, u64_text};

verus! {

/// How often the driver runs a task.
#[derive(Debug, Copy, Clone, PartialEq, Eq, Structural)]
pub enum LoopMode {
    /// Once.
    Single,
    /// Until it is told to stop or no task is left.
    Continuous,
    /// The given number of times, unless it stops earlier.
    Count(u64),
}

impl LoopMode {
    /// Whether the driver runs more than one iteration.
    pub fn is_looping(self) -> (r: bool)
        ensures
            r == !(self is Single),
    {
        match self {
            LoopMode::Single => false,
            _ => true,
        }
    }
}

/// The mode that a loop count asks for: none is a single run, zero is a
/// loop without end, any other count is that many iterations.
pub open spec fn loop_mode_of(loop_count: Option<u64>) -> LoopMode {
    match loop_count {
        None => LoopMode::Single,
        Some(n) => if n == 0 {
            LoopMode::Continuous
        } else {
            LoopMode::Count(n)
        },
    }
}

/// The mode that a loop count asks for.
pub fn resolve_loop_mode(loop_count: Option<u64>) -> (mode: LoopMode)
    ensures
        mode == loop_mode_of(loop_count),
        loop_count is None <==> mode is Single,
        loop_count == Some(0u64) <==> mode is Continuous,
        forall|n: u64| n > 0 ==> (loop_count == Some(n) <==> mode == LoopMode::Count(n)),
{
    match loop_count {
        None => LoopMode::Single,
        Some(n) => if n == 0 {
            LoopMode::Continuous
        } else {
            LoopMode::Count(n)
        },
    }
}

/// Why the driver stops before its tasks are done.
#[derive(Debug, Clone)]
pub enum StopReason {
    Human { task_id: String, is_next: bool },
    Dependencies { task_id: String },
    Blocked { task_id: String },
}

/// The sentence that tells why the driver stopped.
pub open spec fn stop_message(reason: StopReason) -> Seq<char> {
    match reason {
        StopReason::Human { task_id, is_next } => if is_next {
            "Next task "@ + task_id@ + " requires human input."@
        } else {
            "Task "@ + task_id@ + " requires human input."@
        },
        StopReason::Dependencies { task_id } => "Task "@ + task_id@
            + " cannot start due to unmet dependencies."@,
        StopReason::Blocked { task_id } => "Task "@ + task_id@
            + " blocked; manual intervention required."@,
    }
}

impl StopReason {
    /// The process exit code that stands for this reason.
    pub fn exit_code(&self) -> (code: i32)
        ensures
            code == 1,
    {
        1
    }

    /// The sentence that tells why the driver stopped.
    pub fn message(&self) -> (out: String)
        ensures
            out@ == stop_message(*self),
    {
        match self {
            StopReason::Human { task_id, is_next } => {
                let mut out = if *is_next {
                    String::from_str("Next task ")
                } else {
                    String::from_str("Task ")
                };
                out.append(task_id.as_str());
                out.append(" requires human input.");
                out
            },
            StopReason::Dependencies { task_id } => {
                let mut out = String::from_str("Task ");
                out.append(task_id.as_str());
                out.append(" cannot start due to unmet dependencies.");
                out
            },
            StopReason::Blocked { task_id } => {
                let mut out = String::from_str("Task ");
                out.append(task_id.as_str());
                out.append(" blocked; manual intervention required.");
                out
            },
        }
    }
}

/// A stop of the driver as an error.
#[derive(Debug)]
pub struct StopReasonError {
    pub reason: StopReason,
}

impl StopReasonError {
    /// The process exit code that stands for this error.
    pub fn exit_code(&self) -> (code: i32)
        ensures
            code == 1,
    {
        self.reason.exit_code()
    }
}

/// What the driver does after a run.
#[derive(Debug)]
pub enum Verdict {
    /// Go on with the next iteration.
    Continue,
    /// End the loop without an error.
    Finish,
    /// End the loop because the task cannot go on by itself.
    Stop(StopReason),
    /// End the loop and hand the run's exit code on.
    Fail { code: Option<i32> },
}

/// The kinds of verdict, without what they carry.
#[derive(Debug, Copy, Clone, PartialEq, Eq, Structural)]
pub enum VerdictKind {
    Continue,
    Finish,
    StopHuman,
    StopDependencies,
    StopBlocked,
    Fail,
}

/// What an exit code of a run means for the loop. A requested shutdown ends
/// the loop whatever the code. Otherwise: 0 goes on; 3 ends the loop; 4
/// stops for a human; 5 and 6 stop for dependencies; 10, 11 and 13 stop as
/// blocked; 130 and every other code below 10 fail; every other code goes
/// on; a run that ended without a code fails.
pub open spec fn verdict_kind(code: Option<i32>, shutdown: bool) -> VerdictKind {
    if shutdown {
        VerdictKind::Finish
    } else {
        match code {
            None => VerdictKind::Fail,
            Some(c) => if c == 0 {
                VerdictKind::Continue
            } else if c == 3 {
                VerdictKind::Finish
            } else if c == 4 {
                VerdictKind::StopHuman
            } else if c == 5 || c == 6 {
                VerdictKind::StopDependencies
            } else if c == 10 || c == 11 || c == 13 {
                VerdictKind::StopBlocked
            } else if c == 130 {
                VerdictKind::Fail
            } else if c < 10 {
                VerdictKind::Fail
            } else {
                VerdictKind::Continue
            },
        }
    }
}

/// `verdict` is of the kind `kind`, names the task `task_id` where it stops
/// for it, and carries `code` where it fails.
pub open spec fn verdict_is(
    verdict: Verdict,
    kind: VerdictKind,
    task_id: Seq<char>,
    code: Option<i32>,
) -> bool {
    match kind {
        VerdictKind::Continue => verdict is Continue,
        VerdictKind::Finish => verdict is Finish,
        VerdictKind::StopHuman => verdict matches Verdict::Stop(
            StopReason::Human { task_id: t, is_next },
        ) && t@ == task_id && !is_next,
        VerdictKind::StopDependencies => verdict matches Verdict::Stop(
            StopReason::Dependencies { task_id: t },
        ) && t@ == task_id,
        VerdictKind::StopBlocked => verdict matches Verdict::Stop(
            StopReason::Blocked { task_id: t },
        ) && t@ == task_id,
        VerdictKind::Fail => verdict matches Verdict::Fail { code: c } && c == code,
    }
}

/// The kind of verdict that an exit code of a run leads to.
pub fn judge_kind(code: Option<i32>, shutdown: bool) -> (kind: VerdictKind)
    ensures
        kind == verdict_kind(code, shutdown),
{
    if shutdown {
        return VerdictKind::Finish;
    }
    match code {
        None => VerdictKind::Fail,
        Some(c) => {
            if c == 0 {
                VerdictKind::Continue
            } else if c == 3 {
                VerdictKind::Finish
            } else if c == 4 {
                VerdictKind::StopHuman
            } else if c == 5 || c == 6 {
                VerdictKind::StopDependencies
            } else if c == 10 || c == 11 || c == 13 {
                VerdictKind::StopBlocked
            } else if c == 130 || c < 10 {
                VerdictKind::Fail
            } else {
                VerdictKind::Continue
            }
        },
    }
}

/// What the driver does after a run of the task `task_id` that ended with
/// `code`, `shutdown` telling whether a shutdown was requested meanwhile.
pub fn judge_exit(code: Option<i32>, shutdown: bool, task_id: &str) -> (verdict: Verdict)
    ensures
        verdict_is(verdict, verdict_kind(code, shutdown), task_id@, code),
{
    match judge_kind(code, shutdown) {
        VerdictKind::Continue => Verdict::Continue,
        VerdictKind::Finish => Verdict::Finish,
        VerdictKind::StopHuman => Verdict::Stop(
            StopReason::Human { task_id: String::from_str(task_id), is_next: false },
        ),
        VerdictKind::StopDependencies => Verdict::Stop(
            StopReason::Dependencies { task_id: String::from_str(task_id) },
        ),
        VerdictKind::StopBlocked => Verdict::Stop(
            StopReason::Blocked { task_id: String::from_str(task_id) },
        ),
        VerdictKind::Fail => Verdict::Fail { code },
    }
}

/// The task that a stop names: the one chosen for the iteration, else the
/// one asked for, else `unknown`.
pub open spec fn stop_task_id(selected: Option<Seq<char>>, explicit: Option<Seq<char>>) -> Seq<char> {
    match selected {
        Some(t) => t,
        None => match explicit {
            Some(t) => t,
            None => "unknown"@,
        },
    }
}

/// The task that a stop names.
pub fn resolve_stop_task_id(selected: Option<&str>, explicit: Option<&str>) -> (out: String)
    ensures
        out@ == stop_task_id(
            match selected {
                Some(t) => Some(t@),
                None => None,
            },
            match explicit {
                Some(t) => Some(t@),
                None => None,
            },
        ),
{
    match selected {
        Some(t) => String::from_str(t),
        None => match explicit {
            Some(t) => String::from_str(t),
            None => String::from_str("unknown"),
        },
    }
}

/// Whether a single run ended well: with success, or cancelled after a
/// shutdown was requested. Otherwise its exit code is handed on.
pub open spec fn single_run_ok(code: Option<i32>, shutdown: bool) -> bool {
    (shutdown && code == Some(130i32)) || code == Some(0i32)
}

/// Judges a single run.
pub fn judge_single_run(code: Option<i32>, shutdown: bool) -> (verdict: Verdict)
    ensures
        single_run_ok(code, shutdown) ==> verdict is Finish,
        !single_run_ok(code, shutdown) ==> (verdict matches Verdict::Fail { code: c } && c == code),
{
    match code {
        Some(c) => {
            if (shutdown && c == 130) || c == 0 {
                Verdict::Finish
            } else {
                Verdict::Fail { code }
            }
        },
        None => Verdict::Fail { code },
    }
}

/// The process exit code for a run that failed: its own code, or 1 where it
/// ended without one.
pub fn failure_exit_code(code: Option<i32>) -> (out: i32)
    ensures
        out == match code {
            Some(c) => c,
            None => 1i32,
        },
{
    match code {
        Some(c) => c,
        None => 1,
    }
}

/// Whether the iteration that just ended was the last one allowed.
pub fn limit_reached(iteration: u64, max_iterations: Option<u64>) -> (r: bool)
    ensures
        r == (max_iterations matches Some(limit) && iteration >= limit),
{
    match max_iterations {
        Some(limit) => iteration >= limit,
        None => false,
    }
}

/// The length of the next nap while the driver waits `delay_ms` between two
/// iterations and `elapsed_ms` have passed: what is left of the delay, but
/// no more than a tenth of a second, so that a shutdown is noticed soon.
pub fn next_nap_ms(delay_ms: u64, elapsed_ms: u64) -> (nap: u64)
    ensures
        nap <= 100,
        elapsed_ms >= delay_ms ==> nap == 0,
        elapsed_ms < delay_ms ==> nap == if delay_ms - elapsed_ms < 100 {
            (delay_ms - elapsed_ms) as u64
        } else {
            100u64
        },
{
    if elapsed_ms >= delay_ms {
        0
    } else if delay_ms - elapsed_ms < 100 {
        delay_ms - elapsed_ms
    } else {
        100
    }
}

/// The text that reports a run that failed.
pub open spec fn agent_exit_message(command: Seq<char>, code: Option<i32>) -> Seq<char> {
    "task agent "@ + command + " exited with status "@ + match code {
        Some(c) => "exit status: "@ + signed_decimal(c as int),
        None => "signal"@,
    }
}

/// The text that reports a run that failed.
pub fn task_agent_exit_message(command: &str, code: Option<i32>) -> (out: String)
    ensures
        out@ == agent_exit_message(command@, code),
{
    let mut out = String::from_str("task agent ");
    out.append(command);
    out.append(" exited with status ");
    match code {
        Some(c) => {
            out.append("exit status: ");
            let digits = i64_text(c as i64);
            out.append(digits.as_str());
            assert(out@ =~= agent_exit_message(command@, code));
        },
        None => {
            out.append("signal");
        },
    }
    out
}

/// One task of the list as the driver sees it.
#[derive(Debug, PartialEq, Eq)]
pub struct TaskRecord {
    pub task_id: String,
    pub status: Option<String>,
    pub model: Option<String>,
    pub raw: Json,
}

/// Why the task list cannot be used.
#[derive(Debug, Copy, Clone, PartialEq, Eq, Structural)]
pub enum LoadError {
    /// The task at this position has no identifier.
    MissingTaskId { index: usize },
    /// The document holds no list of tasks.
    NotAnArray,
}

/// Why no task could be chosen.
#[derive(Debug)]
pub enum SelectError {
    /// No task has the identifier asked for.
    NotFound { task_id: String },
    /// No task is left that the driver can run.
    NoRunnable,
}

/// View of an optional string.
pub open spec fn opt_text(s: Option<String>) -> Option<Seq<char>> {
    match s {
        Some(t) => Some(t@),
        None => None,
    }
}

/// The text of a member that is a string.
pub open spec fn string_member(task: JsonView, key: Seq<char>) -> Option<Seq<char>> {
    match task.get(key) {
        Some(JsonView::String(s)) => Some(s),
        _ => None,
    }
}

/// The list that a document holds: its member `tasks` where it has one, else
/// the document itself.
pub open spec fn task_list(root: JsonView) -> JsonView {
    match root.get("tasks"@) {
        Some(list) => list,
        None => root,
    }
}

/// `record` is the task `task` as the driver sees it.
pub open spec fn records(record: TaskRecord, task: JsonView) -> bool {
    &&& Some(record.task_id@) == string_member(task, "task_id"@)
    &&& opt_text(record.status) == string_member(task, "status"@)
    &&& opt_text(record.model) == string_member(task, "model"@)
    &&& record.raw@ == task
}

/// The status counts as completed; a missing status is unstarted.
pub open spec fn completed(status: Option<Seq<char>>) -> bool {
    status == Some("completed"@)
}

/// The model is the one that stands for a human.
pub open spec fn human(model: Option<Seq<char>>) -> bool {
    model == Some("human"@)
}

/// Whether a status counts as completed.
pub fn status_is_completed(status: Option<&str>) -> (r: bool)
    ensures
        r == completed(
            match status {
                Some(s) => Some(s@),
                None => None,
            },
        ),
{
    match status {
        Some(s) => str_eq(s, "completed"),
        None => false,
    }
}

/// Whether a model stands for a human.
pub fn model_is_human(model: Option<&str>) -> (r: bool)
    ensures
        r == human(
            match model {
                Some(s) => Some(s@),
                None => None,
            },
        ),
{
    match model {
        Some(s) => str_eq(s, "human"),
        None => false,
    }
}

/// The text of a member that is a string.
pub fn read_string_member(task: &Json, key: &str) -> (out: Option<String>)
    ensures
        opt_text(out) == string_member(task@, key@),
{
    match task.get(key) {
        Some(Json::String(s)) => Some(copy_string(s)),
        _ => None,
    }
}

/// Reads the tasks of a document as the driver sees them. The document must
/// hold a list, and every item of it must have an identifier that is a
/// string; the error names the first item that has none.
pub fn load_tasks(root: &Json) -> (r: Result<Vec<TaskRecord>, LoadError>)
    ensures
        match task_list(root@) {
            JsonView::Array(items) => match r {
                Ok(tasks) => tasks@.len() == items.len() && forall|i: int|
                    0 <= i < items.len() ==> records(#[trigger] tasks@[i], items[i]),
                Err(e) => e matches LoadError::MissingTaskId { index } && index < items.len()
                    && string_member(items[index as int], "task_id"@) is None && forall|j: int|
                    0 <= j < index ==> string_member(#[trigger] items[j], "task_id"@) is Some,
            },
            _ => r matches Err(e) && e == LoadError::NotAnArray,
        },
{
    let list = match root.get("tasks") {
        Some(list) => list,
        None => root,
    };
    let items = match list {
        Json::Array(items) => items,
        _ => {
            return Err(LoadError::NotAnArray);
        },
    };
    proof {
        lemma_array_view(*items);
    }
    let mut tasks: Vec<TaskRecord> = Vec::new();
    let mut i: usize = 0;
    while i < items.len()
        invariant
            i <= items.len(),
            tasks@.len() == i,
            task_list(root@) == JsonView::Array(item_views(items@)),
            forall|k: int| 0 <= k < i ==> records(#[trigger] tasks@[k], item_views(items@)[k]),
            forall|k: int|
                0 <= k < i ==> string_member(#[trigger] item_views(items@)[k], "task_id"@) is Some,
        decreases items.len() - i,
    {
        let item = &items[i];
        let task_id = match read_string_member(item, "task_id") {
            Some(id) => id,
            None => {
                return Err(LoadError::MissingTaskId { index: i });
            },
        };
        let status = read_string_member(item, "status");
        let model = read_string_member(item, "model");
        tasks.push(TaskRecord { task_id, status, model, raw: copy_json(item) });
        i += 1;
    }
    Ok(tasks)
}

/// The sentence that reports why the task list at `path` cannot be used.
pub open spec fn load_message(e: LoadError, path: Seq<char>) -> Seq<char> {
    match e {
        LoadError::MissingTaskId { index } => "Task at index "@ + decimal(index as nat) + " in "@
            + path + " is missing task_id"@,
        LoadError::NotAnArray => "Tasks file "@ + path + " does not contain an array of tasks"@,
    }
}

impl LoadError {
    /// The sentence that reports this error for the task list at `path`.
    pub fn message(&self, path: &str) -> (out: String)
        ensures
            out@ == load_message(*self, path@),
    {
        match self {
            LoadError::MissingTaskId { index } => {
                let mut out = String::from_str("Task at index ");
                let digits = u64_text(*index as u64);
                out.append(digits.as_str());
                out.append(" in ");
                out.append(path);
                out.append(" is missing task_id");
                out
            },
            LoadError::NotAnArray => {
                let mut out = String::from_str("Tasks file ");
                out.append(path);
                out.append(" does not contain an array of tasks");
                out
            },
        }
    }
}

/// The sentence that reports why no task of the list at `path` was chosen.
pub open spec fn select_message(e: SelectError, path: Seq<char>) -> Seq<char> {
    match e {
        SelectError::NotFound { task_id } => "Task ID '"@ + task_id@ + "' was not found in "@ + path,
        SelectError::NoRunnable => "No runnable task found in "@ + path,
    }
}

impl SelectError {
    /// The sentence that reports this error for the task list at `path`.
    pub fn message(&self, path: &str) -> (out: String)
        ensures
            out@ == select_message(*self, path@),
    {
        match self {
            SelectError::NotFound { task_id } => {
                let mut out = String::from_str("Task ID '");
                out.append(task_id.as_str());
                out.append("' was not found in ");
                out.append(path);
                out
            },
            SelectError::NoRunnable => {
                let mut out = String::from_str("No runnable task found in ");
                out.append(path);
                out
            },
        }
    }
}

/// The task is not completed.
pub open spec fn record_open(task: TaskRecord) -> bool {
    !completed(opt_text(task.status))
}

/// The task is not completed and not for a human.
pub open spec fn record_runnable(task: TaskRecord) -> bool {
    !completed(opt_text(task.status)) && !human(opt_text(task.model))
}

/// The view of an optional string as an optional slice.
pub fn as_opt_str(s: &Option<String>) -> (out: Option<&str>)
    ensures
        match out {
            Some(t) => opt_text(*s) == Some(t@),
            None => *s is None,
        },
{
    match s {
        Some(t) => Some(t.as_str()),
        None => None,
    }
}

/// The position of the first task that is not completed.
pub fn select_next_non_completed(tasks: &Vec<TaskRecord>) -> (r: Option<usize>)
    ensures
        match r {
            Some(i) => i < tasks.len() && record_open(tasks@[i as int]) && forall|j: int|
                0 <= j < i ==> !record_open(#[trigger] tasks@[j]),
            None => forall|j: int| 0 <= j < tasks.len() ==> !record_open(#[trigger] tasks@[j]),
        },
{
    let mut i: usize = 0;
    while i < tasks.len()
        invariant
            i <= tasks.len(),
            forall|j: int| 0 <= j < i ==> !record_open(#[trigger] tasks@[j]),
        decreases tasks.len() - i,
    {
        if !status_is_completed(as_opt_str(&tasks[i].status)) {
            return Some(i);
        }
        i += 1;
    }
    None
}

/// The position of the first task that is not completed and not for a human.
pub fn select_next_runnable(tasks: &Vec<TaskRecord>) -> (r: Option<usize>)
    ensures
        match r {
            Some(i) => i < tasks.len() && record_runnable(tasks@[i as int]) && forall|j: int|
                0 <= j < i ==> !record_runnable(#[trigger] tasks@[j]),
            None => forall|j: int| 0 <= j < tasks.len() ==> !record_runnable(#[trigger] tasks@[j]),
        },
{
    let mut i: usize = 0;
    while i < tasks.len()
        invariant
            i <= tasks.len(),
            forall|j: int| 0 <= j < i ==> !record_runnable(#[trigger] tasks@[j]),
        decreases tasks.len() - i,
    {
        if !status_is_completed(as_opt_str(&tasks[i].status)) && !model_is_human(
            as_opt_str(&tasks[i].model),
        ) {
            return Some(i);
        }
        i += 1;
    }
    None
}

/// The position of the first task with the identifier `task_id`.
pub fn find_record(tasks: &Vec<TaskRecord>, task_id: &str) -> (r: Option<usize>)
    ensures
        match r {
            Some(i) => i < tasks.len() && tasks@[i as int].task_id@ == task_id@ && forall|j: int|
                0 <= j < i ==> (#[trigger] tasks@[j]).task_id@ != task_id@,
            None => forall|j: int| 0 <= j < tasks.len() ==> (#[trigger] tasks@[j]).task_id@ != task_id@,
        },
{
    let mut i: usize = 0;
    while i < tasks.len()
        invariant
            i <= tasks.len(),
            forall|j: int| 0 <= j < i ==> (#[trigger] tasks@[j]).task_id@ != task_id@,
        decreases tasks.len() - i,
    {
        if str_eq(tasks[i].task_id.as_str(), task_id) {
            return Some(i);
        }
        i += 1;
    }
    None
}

/// Two records say the same of a task.
pub open spec fn same_record(a: TaskRecord, b: TaskRecord) -> bool {
    &&& a.task_id@ == b.task_id@
    &&& opt_text(a.status) == opt_text(b.status)
    &&& opt_text(a.model) == opt_text(b.model)
    &&& a.raw@ == b.raw@
}

/// A copy of a task record.
pub fn copy_record(task: &TaskRecord) -> (out: TaskRecord)
    ensures
        same_record(out, *task),
{
    TaskRecord {
        task_id: copy_string(&task.task_id),
        status: match &task.status {
            Some(s) => Some(copy_string(s)),
            None => None,
        },
        model: match &task.model {
            Some(s) => Some(copy_string(s)),
            None => None,
        },
        raw: copy_json(&task.raw),
    }
}

/// Chooses the task that the driver announces before it starts: the task
/// asked for by name, which must exist; else, where the next task is to be
/// chosen, the first that is neither completed nor for a human, which must
/// exist; else none.
pub fn determine_selected_task(
    tasks: &Vec<TaskRecord>,
    explicit_task_id: Option<&str>,
    should_select_next: bool,
) -> (r: Result<Option<TaskRecord>, SelectError>)
    ensures
        match explicit_task_id {
            Some(id) => match r {
                Ok(found) => found matches Some(task) && task.task_id@ == id@ && exists|i: int|
                    0 <= i < tasks.len() && (#[trigger] tasks@[i]).task_id@ == id@ && same_record(
                        task,
                        tasks@[i],
                    ) && (forall|j: int| 0 <= j < i ==> (#[trigger] tasks@[j]).task_id@ != id@),
                Err(e) => e matches SelectError::NotFound { task_id } && task_id@ == id@
                    && forall|j: int|
                    0 <= j < tasks.len() ==> (#[trigger] tasks@[j]).task_id@ != id@,
            },
            None => if should_select_next {
                match r {
                    Ok(found) => found matches Some(task) && exists|i: int|
                        0 <= i < tasks.len() && record_runnable(#[trigger] tasks@[i])
                            && same_record(task, tasks@[i]) && (forall|j: int|
                            0 <= j < i ==> !record_runnable(#[trigger] tasks@[j])),
                    Err(e) => e is NoRunnable && forall|j: int|
                        0 <= j < tasks.len() ==> !record_runnable(#[trigger] tasks@[j]),
                }
            } else {
                r matches Ok(found) && found is None
            },
        },
{
    match explicit_task_id {
        Some(id) => match find_record(tasks, id) {
            Some(i) => Ok(Some(copy_record(&tasks[i]))),
            None => Err(SelectError::NotFound { task_id: String::from_str(id) }),
        },
        None => {
            if should_select_next {
                match select_next_runnable(tasks) {
                    Some(i) => Ok(Some(copy_record(&tasks[i]))),
                    None => Err(SelectError::NoRunnable),
                }
            } else {
                Ok(None)
            }
        },
    }
}

/// The task whose branch a run works on: the one the iteration chose, else
/// the one asked for, else, where the next task may be taken, the first that
/// is neither completed nor for a human, which must exist; else none.
pub fn resolve_task_id_for_git(
    task_id_override: Option<&str>,
    explicit_task_id: Option<&str>,
    allow_next: bool,
    tasks: &Vec<TaskRecord>,
) -> (r: Result<Option<String>, SelectError>)
    ensures
        match task_id_override {
            Some(id) => r matches Ok(Some(t)) && t@ == id@,
            None => match explicit_task_id {
                Some(id) => r matches Ok(Some(t)) && t@ == id@,
                None => if allow_next {
                    match r {
                        Ok(found) => found matches Some(t) && exists|i: int|
                            0 <= i < tasks.len() && record_runnable(#[trigger] tasks@[i]) && t@
                                == tasks@[i].task_id@ && (forall|j: int|
                                0 <= j < i ==> !record_runnable(#[trigger] tasks@[j])),
                        Err(e) => e is NoRunnable && forall|j: int|
                            0 <= j < tasks.len() ==> !record_runnable(#[trigger] tasks@[j]),
                    }
                } else {
                    r matches Ok(found) && found is None
                },
            },
        },
{
    match task_id_override {
        Some(id) => Ok(Some(String::from_str(id))),
        None => match explicit_task_id {
            Some(id) => Ok(Some(String::from_str(id))),
            None => {
                if allow_next {
                    match select_next_runnable(tasks) {
                        Some(i) => Ok(Some(copy_string(&tasks[i].task_id))),
                        None => Err(SelectError::NoRunnable),
                    }
                } else {
                    Ok(None)
                }
            },
        },
    }
}

/// What the driver does at the start of an iteration of its loop.
#[derive(Debug)]
pub enum IterationPlan {
    /// End the loop: a shutdown was requested or no task is left.
    Finish,
    /// Fail: the next task lacks required fields.
    BadMetadata { error: TaskMetadataError },
    /// Stop because the next task needs a human.
    Stop(StopReason),
    /// Run the task at this position of the list, resuming it where it was
    /// blocked.
    RunTask { index: usize, resuming: bool },
    /// Run the task that was asked for by name.
    RunExplicit,
}

/// `i` is the position of the first task that is not completed.
pub open spec fn first_open_record(tasks: Seq<TaskRecord>, i: int) -> bool {
    &&& 0 <= i < tasks.len()
    &&& record_open(tasks[i])
    &&& forall|j: int| 0 <= j < i ==> !record_open(#[trigger] tasks[j])
}

/// The task has the fields that every task must have.
pub open spec fn record_complete(task: TaskRecord) -> bool {
    title_valid(task.raw@) && dod_valid(task.raw@) && recommended_valid(task.raw@)
}

/// `plan` is what the first open task, at `i`, asks for: its required fields
/// are looked at first and their lack is a failure; then a task for a human
/// stops the loop; any other task is run.
pub open spec fn plans_task(plan: IterationPlan, tasks: Seq<TaskRecord>, i: int) -> bool {
    if !record_complete(tasks[i]) {
        plan matches IterationPlan::BadMetadata { error } && error.task_id@ == tasks[i].task_id@
            && slice_texts(error.missing@) == missing_fields(tasks[i].raw@)
    } else if human(opt_text(tasks[i].model)) {
        plan matches IterationPlan::Stop(StopReason::Human { task_id, is_next }) && is_next
            && task_id@ == tasks[i].task_id@
    } else {
        plan matches IterationPlan::RunTask { index, resuming } && index == i && resuming == (
        opt_text(tasks[i].status) == Some("blocked"@))
    }
}

/// Plans an iteration of the loop. After a shutdown request the loop ends.
/// Where a task was asked for by name, that one is run. Otherwise the first
/// task that is not completed is taken: the loop ends where there is none;
/// it fails where the task lacks required fields; it stops where the task
/// is for a human; and else it runs the task.
pub fn plan_iteration(shutdown: bool, has_explicit_task: bool, tasks: &Vec<TaskRecord>) -> (plan:
    IterationPlan)
    ensures
        shutdown ==> plan is Finish,
        !shutdown && has_explicit_task ==> plan is RunExplicit,
        !shutdown && !has_explicit_task ==> if forall|j: int|
            0 <= j < tasks.len() ==> !record_open(#[trigger] tasks@[j]) {
            plan is Finish
        } else {
            exists|i: int| first_open_record(tasks@, i) && plans_task(plan, tasks@, i)
        },
{
    if shutdown {
        return IterationPlan::Finish;
    }
    if has_explicit_task {
        return IterationPlan::RunExplicit;
    }
    match select_next_non_completed(tasks) {
        Some(i) => {
            let task = &tasks[i];
            assert(first_open_record(tasks@, i as int));
            match validate_task_metadata(task.task_id.as_str(), &task.raw) {
                Ok(()) => {},
                Err(error) => {
                    return IterationPlan::BadMetadata { error };
                },
            }
            if model_is_human(as_opt_str(&task.model)) {
                IterationPlan::Stop(
                    StopReason::Human { task_id: copy_string(&task.task_id), is_next: true },
                )
            } else {
                let resuming = match as_opt_str(&task.status) {
                    Some(s) => str_eq(s, "blocked"),
                    None => false,
                };
                IterationPlan::RunTask { index: i, resuming }
            }
        },
        None => IterationPlan::Finish,
    }
}

/// Why the command line is turned down.
#[derive(Debug, Copy, Clone, PartialEq, Eq, Structural)]
pub enum ArgsError {
    /// The next task and a task by name were both asked for.
    NextWithTaskId,
    /// A delay was given for a single run.
    DelayWithoutLoop,
}

impl ArgsError {
    /// The sentence that reports this error.
    pub fn message(&self) -> (out: &'static str)
        ensures
            out@ == match *self {
                ArgsError::NextWithTaskId => "--next cannot be combined with --task-id"@,
                ArgsError::DelayWithoutLoop => "--delay requires --loop"@,
            },
    {
        match self {
            ArgsError::NextWithTaskId => "--next cannot be combined with --task-id",
            ArgsError::DelayWithoutLoop => "--delay requires --loop",
        }
    }
}

/// Checks the options that exclude one another: the next task cannot be
/// asked for together with a task by name, and a delay needs a loop. The
/// first of the two faults is the one reported.
pub fn validate_lever_args(next: bool, has_task_id: bool, has_delay: bool, loop_count: Option<u64>) -> (r:
    Result<(), ArgsError>)
    ensures
        r == if next && has_task_id {
            Err::<(), ArgsError>(ArgsError::NextWithTaskId)
        } else if has_delay && loop_count is None {
            Err::<(), ArgsError>(ArgsError::DelayWithoutLoop)
        } else {
            Ok::<(), ArgsError>(())
        },
{
    let mode = resolve_loop_mode(loop_count);
    if next && has_task_id {
        Err(ArgsError::NextWithTaskId)
    } else if has_delay && !mode.is_looping() {
        Err(ArgsError::DelayWithoutLoop)
    } else {
        Ok(())
    }
}

} // verus!
