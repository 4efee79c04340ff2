//! Choosing the task to run: the first task of the list that is not
//! completed, and the checks that it must pass.

use vstd::prelude::*;
use crate::json::{copy_json, copy_string, item_views, lemma_array_view, Json, JsonView};
use crate::json_text::{compact, to_text};
use crate::task_store::{tasks_array, tasks_of};
use crate::text::{chars_of, str_eq, string_of, string_texts, trim_chars, trimmed};

verus! {

/// Exit code: the request or the task list is not usable.
pub const EXIT_CONTRACT: i32 = 2;

/// Exit code: no task is left to run.
pub const EXIT_NO_TASK: i32 = 3;

/// Exit code: the next task needs a human.
pub const EXIT_HUMAN: i32 = 4;

/// Exit code: the task asked for must wait for an earlier one.
pub const EXIT_DEPENDENCY: i32 = 6;

/// The task that was chosen, with the fields that a run reads.
#[derive(Debug, PartialEq, Eq)]
pub struct SelectedTask {
    pub task_id: String,
    pub status: String,
    pub model: String,
    pub title: String,
    pub definition_of_done: Vec<String>,
    pub recommended_approach: String,
    pub verification_commands: Vec<String>,
    pub raw: Json,
    pub raw_json: String,
}

/// The text of the member `key` of a task where it is a string, else
/// `default`.
pub open spec fn text_field(task: JsonView, key: Seq<char>, default: Seq<char>) -> Seq<char> {
    match task.get(key) {
        Some(JsonView::String(s)) => s,
        _ => default,
    }
}

/// The status of a task; a task without one is unstarted.
pub open spec fn status_of(task: JsonView) -> Seq<char> {
    text_field(task, "status"@, "unstarted"@)
}

/// The task is not completed.
pub open spec fn is_open(task: JsonView) -> bool {
    status_of(task) != "completed"@
}

/// `i` is the position of the first task that is not completed.
pub open spec fn is_first_open(tasks: Seq<JsonView>, i: int) -> bool {
    &&& 0 <= i < tasks.len()
    &&& is_open(tasks[i])
    &&& forall|j: int| 0 <= j < i ==> !is_open(#[trigger] tasks[j])
}

/// Some task is not completed.
pub open spec fn has_open(tasks: Seq<JsonView>) -> bool {
    exists|i: int| 0 <= i < tasks.len() && is_open(#[trigger] tasks[i])
}

/// The position of the first task that is not completed, where there is one.
pub open spec fn first_open(tasks: Seq<JsonView>) -> int {
    choose|i: int| is_first_open(tasks, i)
}

/// A first open position is the one that `first_open` names.
pub proof fn lemma_first_open(tasks: Seq<JsonView>, i: int)
    requires
        is_first_open(tasks, i),
    ensures
        has_open(tasks),
        first_open(tasks) == i,
{
    let k = first_open(tasks);
    assert(is_first_open(tasks, k));
    if k < i {
        assert(!is_open(tasks[k]));
    } else if i < k {
        assert(!is_open(tasks[i]));
    }
}

/// Which task a request admits: the position of the first task that is not
/// completed, or the exit code that turns the request down. The list must
/// exist; a task must be left; it must have a name; it must not be for a
/// human; a task asked for by name must be that one; and without a name the
/// next task must have been asked for.
pub open spec fn admission(root: JsonView, requested: Option<Seq<char>>, allow_next: bool) -> Result<
    int,
    i32,
> {
    match tasks_of(root) {
        None => Err(EXIT_CONTRACT),
        Some(tasks) => if !has_open(tasks) {
            Err(EXIT_NO_TASK)
        } else {
            let i = first_open(tasks);
            let id = text_field(tasks[i], "task_id"@, Seq::empty());
            if id.len() == 0 {
                Err(EXIT_NO_TASK)
            } else if text_field(tasks[i], "model"@, Seq::empty()) == "human"@ {
                Err(EXIT_HUMAN)
            } else {
                match requested {
                    Some(r) => if r != id {
                        Err(EXIT_DEPENDENCY)
                    } else {
                        Ok(i)
                    },
                    None => if allow_next {
                        Ok(i)
                    } else {
                        Err(EXIT_CONTRACT)
                    },
                }
            }
        },
    }
}

/// The strings among `items`, in order.
pub open spec fn strings_of(items: Seq<JsonView>) -> Seq<Seq<char>>
    decreases items.len(),
{
    if items.len() == 0 {
        Seq::empty()
    } else {
        match items.last() {
            JsonView::String(s) => strings_of(items.drop_last()).push(s),
            _ => strings_of(items.drop_last()),
        }
    }
}

/// The strings among `items` without the white space at their ends, those
/// that are then empty left out.
pub open spec fn commands_of(items: Seq<JsonView>) -> Seq<Seq<char>>
    decreases items.len(),
{
    if items.len() == 0 {
        Seq::empty()
    } else {
        match items.last() {
            JsonView::String(s) => if trimmed(s).len() > 0 {
                commands_of(items.drop_last()).push(trimmed(s))
            } else {
                commands_of(items.drop_last())
            },
            _ => commands_of(items.drop_last()),
        }
    }
}

/// The definition of done of a task: the strings of its list.
pub open spec fn dod_of(task: JsonView) -> Seq<Seq<char>> {
    match task.get("definition_of_done"@) {
        Some(JsonView::Array(items)) => strings_of(items),
        _ => Seq::empty(),
    }
}

/// The recommended approach of a task.
pub open spec fn approach_of(task: JsonView) -> Seq<char> {
    match task.get("recommended"@) {
        Some(rec) => text_field(rec, "approach"@, Seq::empty()),
        None => Seq::empty(),
    }
}

/// The verification commands of a task.
pub open spec fn verification_of(task: JsonView) -> Seq<Seq<char>> {
    match task.get("verification"@) {
        Some(v) => match v.get("commands"@) {
            Some(JsonView::Array(items)) => commands_of(items),
            _ => Seq::empty(),
        },
        None => Seq::empty(),
    }
}

/// `selected` holds the fields of `task`, and `raw_json` is its text.
pub open spec fn selects(selected: SelectedTask, task: JsonView, raw_json: Seq<char>) -> bool {
    &&& selected.task_id@ == text_field(task, "task_id"@, Seq::empty())
    &&& selected.status@ == status_of(task)
    &&& selected.model@ == text_field(task, "model"@, Seq::empty())
    &&& selected.title@ == text_field(task, "title"@, Seq::empty())
    &&& string_texts(selected.definition_of_done@) == dod_of(task)
    &&& selected.recommended_approach@ == approach_of(task)
    &&& string_texts(selected.verification_commands@) == verification_of(task)
    &&& selected.raw@ == task
    &&& selected.raw_json@ == raw_json
}

/// The empty string literal holds no character.
pub proof fn lemma_empty_text()
    ensures
        ""@ == Seq::<char>::empty(),
{
    reveal_strlit("");
    assert(""@ =~= Seq::<char>::empty());
}

/// The text of the member `key` of a task where it is a string, else
/// `default`.
pub fn read_text_field(task: &Json, key: &str, default: &str) -> (out: String)
    ensures
        out@ == text_field(task@, key@, default@),
{
    match task.get(key) {
        Some(Json::String(s)) => copy_string(s),
        _ => default.to_owned(),
    }
}

/// Whether a task is not completed.
pub fn task_is_open(task: &Json) -> (r: bool)
    ensures
        r == is_open(task@),
{
    let status = read_text_field(task, "status", "unstarted");
    !str_eq(status.as_str(), "completed")
}

/// The position of the first task that is not completed.
pub fn find_first_open(tasks: &Vec<Json>) -> (r: Option<usize>)
    ensures
        match r {
            Some(i) => is_first_open(item_views(tasks@), i as int),
            None => !has_open(item_views(tasks@)),
        },
{
    let mut i: usize = 0;
    while i < tasks.len()
        invariant
            i <= tasks.len(),
            forall|j: int| 0 <= j < i ==> !is_open(#[trigger] item_views(tasks@)[j]),
        decreases tasks.len() - i,
    {
        if task_is_open(&tasks[i]) {
            return Some(i);
        }
        i += 1;
    }
    None
}

/// The strings among the items of a list.
pub fn read_strings(items: &Vec<Json>) -> (out: Vec<String>)
    ensures
        string_texts(out@) == strings_of(item_views(items@)),
{
    let mut out: Vec<String> = Vec::new();
    let ghost views = item_views(items@);
    let mut i: usize = 0;
    assert(string_texts(out@) =~= strings_of(views.take(0)));
    while i < items.len()
        invariant
            i <= items.len(),
            views == item_views(items@),
            string_texts(out@) == strings_of(views.take(i as int)),
        decreases items.len() - i,
    {
        assert(views.take(i + 1).drop_last() =~= views.take(i as int));
        assert(views.take(i + 1).last() == items@[i as int]@);
        match &items[i] {
            Json::String(s) => {
                let ghost before = string_texts(out@);
                out.push(copy_string(s));
                assert(string_texts(out@) =~= before.push(s@));
            },
            _ => {},
        }
        i += 1;
    }
    assert(views.take(items.len() as int) =~= views);
    out
}

/// The commands among the items of a list.
pub fn read_commands(items: &Vec<Json>) -> (out: Vec<String>)
    ensures
        string_texts(out@) == commands_of(item_views(items@)),
{
    let mut out: Vec<String> = Vec::new();
    let ghost views = item_views(items@);
    let mut i: usize = 0;
    assert(string_texts(out@) =~= commands_of(views.take(0)));
    while i < items.len()
        invariant
            i <= items.len(),
            views == item_views(items@),
            string_texts(out@) == commands_of(views.take(i as int)),
        decreases items.len() - i,
    {
        assert(views.take(i + 1).drop_last() =~= views.take(i as int));
        assert(views.take(i + 1).last() == items@[i as int]@);
        match &items[i] {
            Json::String(s) => {
                let chars = chars_of(s.as_str());
                let kept = trim_chars(&chars);
                if kept.len() > 0 {
                    let ghost before = string_texts(out@);
                    out.push(string_of(&kept));
                    assert(string_texts(out@) =~= before.push(trimmed(s@)));
                }
            },
            _ => {},
        }
        i += 1;
    }
    assert(views.take(items.len() as int) =~= views);
    out
}

/// The definition of done of a task.
pub fn read_dod(task: &Json) -> (out: Vec<String>)
    ensures
        string_texts(out@) == dod_of(task@),
{
    match task.get("definition_of_done") {
        Some(Json::Array(items)) => {
            proof {
                lemma_array_view(*items);
            }
            read_strings(items)
        },
        _ => {
            let out: Vec<String> = Vec::new();
            assert(string_texts(out@) =~= Seq::<Seq<char>>::empty());
            out
        },
    }
}

/// The recommended approach of a task.
pub fn read_approach(task: &Json) -> (out: String)
    ensures
        out@ == approach_of(task@),
{
    proof {
        lemma_empty_text();
    }
    match task.get("recommended") {
        Some(rec) => read_text_field(rec, "approach", ""),
        None => String::new(),
    }
}

/// The verification commands of a task.
pub fn read_verification(task: &Json) -> (out: Vec<String>)
    ensures
        string_texts(out@) == verification_of(task@),
{
    let found = match task.get("verification") {
        Some(v) => v.get("commands"),
        None => None,
    };
    match found {
        Some(Json::Array(items)) => {
            proof {
                lemma_array_view(*items);
            }
            read_commands(items)
        },
        _ => {
            let out: Vec<String> = Vec::new();
            assert(string_texts(out@) =~= Seq::<Seq<char>>::empty());
            out
        },
    }
}

/// The fields of a task that a run reads, with the task's text.
pub fn describe_task(task: &Json, raw_json: String) -> (selected: SelectedTask)
    ensures
        selects(selected, task@, raw_json@),
{
    proof {
        lemma_empty_text();
    }
    SelectedTask {
        task_id: read_text_field(task, "task_id", ""),
        status: read_text_field(task, "status", "unstarted"),
        model: read_text_field(task, "model", ""),
        title: read_text_field(task, "title", ""),
        definition_of_done: read_dod(task),
        recommended_approach: read_approach(task),
        verification_commands: read_verification(task),
        raw: copy_json(task),
        raw_json,
    }
}

/// The position of the task that a request admits, or the exit code that
/// turns the request down.
pub fn admit_task(root: &Json, requested_task_id: Option<&str>, allow_next: bool) -> (r: Result<
    usize,
    i32,
>)
    ensures
        match admission(
            root@,
            match requested_task_id {
                Some(t) => Some(t@),
                None => None,
            },
            allow_next,
        ) {
            Ok(i) => r matches Ok(k) && k == i,
            Err(code) => r matches Err(c) && c == code,
        },
        r matches Ok(i) ==> tasks_of(root@) matches Some(tasks) && i < tasks.len(),
{
    let tasks = match tasks_array(root) {
        Some(tasks) => tasks,
        None => {
            return Err(EXIT_CONTRACT);
        },
    };
    let index = match find_first_open(tasks) {
        Some(i) => i,
        None => {
            return Err(EXIT_NO_TASK);
        },
    };
    proof {
        lemma_first_open(item_views(tasks@), index as int);
        lemma_empty_text();
    }
    let task = &tasks[index];
    let id = read_text_field(task, "task_id", "");
    if id.as_str().unicode_len() == 0 {
        return Err(EXIT_NO_TASK);
    }
    let model = read_text_field(task, "model", "");
    if str_eq(model.as_str(), "human") {
        return Err(EXIT_HUMAN);
    }
    match requested_task_id {
        Some(requested) => {
            if !str_eq(requested, id.as_str()) {
                return Err(EXIT_DEPENDENCY);
            }
        },
        None => {
            if !allow_next {
                return Err(EXIT_CONTRACT);
            }
        },
    }
    Ok(index)
}

/// Chooses the task to run from the document `root`: the first task that is
/// not completed, where the request admits it. The error is the exit code
/// that turns the request down.
pub fn select_task(root: &Json, requested_task_id: Option<&str>, allow_next: bool) -> (r: Result<
    SelectedTask,
    i32,
>)
    ensures
        match admission(
            root@,
            match requested_task_id {
                Some(t) => Some(t@),
                None => None,
            },
            allow_next,
        ) {
            Ok(i) => r matches Ok(selected) && selects(
                selected,
                tasks_of(root@)->0[i],
                compact(tasks_of(root@)->0[i]),
            ),
            Err(code) => r matches Err(c) && c == code,
        },
{
    let index = match admit_task(root, requested_task_id, allow_next) {
        Ok(i) => i,
        Err(code) => {
            return Err(code);
        },
    };
    let tasks = match tasks_array(root) {
        Some(tasks) => tasks,
        None => {
            return Err(EXIT_CONTRACT);
        },
    };
    let task = &tasks[index];
    Ok(describe_task(task, to_text(task)))
}

} // verus!
