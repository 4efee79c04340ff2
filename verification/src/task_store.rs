//! The task list as a JSON document: reading a task's attempt counter and
//! writing its status and bookkeeping, with every other field kept.

use vstd::prelude::*;
use crate::json::{
    copy_json, copy_members, item_views, lemma_array_view, lemma_first_is_key_index,
    lemma_object_view, lemma_set_member, lookup, member_views, set_member, with_member, Json, JsonNumber, JsonView,
    Member, NumberView,
};
use crate::text::str_eq;

verus! {

/// Why the task list could not be read or changed.
#[derive(Debug, Copy, Clone, PartialEq, Eq, Structural)]
pub enum StoreError {
    /// The document holds no list of tasks.
    NotAList,
    /// No task of the list has the identifier asked for.
    TaskNotFound,
}

/// The tasks of a document: the document itself where it is a list, or its
/// member `tasks` where that is one.
pub open spec fn tasks_of(root: JsonView) -> Option<Seq<JsonView>> {
    match root {
        JsonView::Array(items) => Some(items),
        JsonView::Object(members) => match lookup(members, "tasks"@) {
            Some(JsonView::Array(items)) => Some(items),
            _ => None,
        },
        _ => None,
    }
}

/// The task is identified by `id`.
pub open spec fn has_id(task: JsonView, id: Seq<char>) -> bool {
    task.get("task_id"@) == Some(JsonView::String(id))
}

/// Some task of the list is identified by `id`.
pub open spec fn has_task(tasks: Seq<JsonView>, id: Seq<char>) -> bool {
    exists|i: int| 0 <= i < tasks.len() && has_id(#[trigger] tasks[i], id)
}

/// `i` is the position of the first task identified by `id`.
pub open spec fn is_first_task(tasks: Seq<JsonView>, id: Seq<char>, i: int) -> bool {
    &&& 0 <= i < tasks.len()
    &&& has_id(tasks[i], id)
    &&& forall|j: int| 0 <= j < i ==> !has_id(#[trigger] tasks[j], id)
}

/// The position of the first task identified by `id`, where there is one.
pub open spec fn task_index(tasks: Seq<JsonView>, id: Seq<char>) -> int {
    choose|i: int| is_first_task(tasks, id, i)
}

/// A first position is the one that `task_index` names.
pub proof fn lemma_task_index(tasks: Seq<JsonView>, id: Seq<char>, i: int)
    requires
        is_first_task(tasks, id, i),
    ensures
        has_task(tasks, id),
        task_index(tasks, id) == i,
{
    let k = task_index(tasks, id);
    assert(is_first_task(tasks, id, k));
    if k < i {
        assert(!has_id(tasks[k], id));
    } else if i < k {
        assert(!has_id(tasks[i], id));
    }
}

/// Where a task has the identifier, there is a first such task.
pub proof fn lemma_has_task_first(tasks: Seq<JsonView>, id: Seq<char>)
    requires
        has_task(tasks, id),
    ensures
        is_first_task(tasks, id, task_index(tasks, id)),
{
    let w = choose|i: int| 0 <= i < tasks.len() && has_id(#[trigger] tasks[i], id);
    let flags = Seq::new(tasks.len(), |j: int| has_id(tasks[j], id));
    crate::json::lemma_first_true(flags, w);
    let i = choose|i: int| crate::json::first_true(flags, i);
    assert(is_first_task(tasks, id, i)) by {
        assert forall|j: int| 0 <= j < i implies !has_id(#[trigger] tasks[j], id) by {
            assert(!flags[j]);
        }
    }
}

/// The members of a task's bookkeeping object; none where the task has no
/// such object.
pub open spec fn observability_of(task: Seq<(Seq<char>, JsonView)>) -> Seq<(Seq<char>, JsonView)> {
    match lookup(task, "observability"@) {
        Some(JsonView::Object(members)) => members,
        _ => Seq::empty(),
    }
}

/// How often a task has been run: its counter where that is a non-negative
/// whole number, else zero.
pub open spec fn attempts_of(task: JsonView) -> u64 {
    match task.get("observability"@) {
        Some(JsonView::Object(members)) => match lookup(members, "run_attempts"@) {
            Some(JsonView::Number(NumberView::PosInt(n))) => n,
            _ => 0,
        },
        _ => 0,
    }
}

/// The attempt counter of the task `id` in the document `root`.
pub open spec fn attempt_count(root: JsonView, id: Seq<char>) -> Result<u64, StoreError> {
    match tasks_of(root) {
        Some(tasks) => if has_task(tasks, id) {
            Ok(attempts_of(tasks[task_index(tasks, id)]))
        } else {
            Err(StoreError::TaskNotFound)
        },
        None => Err(StoreError::NotAList),
    }
}

/// The document `root` with the task at `index` replaced by `task`; the
/// envelope of the list stays as it is.
pub open spec fn with_task(root: JsonView, index: int, task: JsonView) -> JsonView {
    match root {
        JsonView::Array(items) => JsonView::Array(items.update(index, task)),
        JsonView::Object(members) => match lookup(members, "tasks"@) {
            Some(JsonView::Array(items)) => JsonView::Object(
                set_member(members, "tasks"@, JsonView::Array(items.update(index, task))),
            ),
            _ => root,
        },
        _ => root,
    }
}

/// Bookkeeping members stamped with a run: its identifier, the time of the
/// update, and the note where one is given.
pub open spec fn stamped(
    observability: Seq<(Seq<char>, JsonView)>,
    run_id: Seq<char>,
    stamp: Seq<char>,
    note: Seq<char>,
) -> Seq<(Seq<char>, JsonView)> {
    let a = set_member(observability, "last_run_id"@, JsonView::String(run_id));
    let b = set_member(a, "last_update_utc"@, JsonView::String(stamp));
    if note.len() > 0 {
        set_member(b, "last_note"@, JsonView::String(note))
    } else {
        b
    }
}

/// A task with its status set and its bookkeeping stamped.
pub open spec fn task_with_status(
    task: JsonView,
    status: Seq<char>,
    run_id: Seq<char>,
    stamp: Seq<char>,
    note: Seq<char>,
) -> JsonView {
    match task {
        JsonView::Object(members) => {
            let a = set_member(members, "status"@, JsonView::String(status));
            JsonView::Object(
                set_member(
                    a,
                    "observability"@,
                    JsonView::Object(stamped(observability_of(a), run_id, stamp, note)),
                ),
            )
        },
        _ => task,
    }
}

/// A task set back to unstarted, with its counter at zero and its
/// bookkeeping stamped.
pub open spec fn task_reset(task: JsonView, run_id: Seq<char>, stamp: Seq<char>, note: Seq<char>) -> JsonView {
    match task {
        JsonView::Object(members) => {
            let a = set_member(members, "status"@, JsonView::String("unstarted"@));
            let counter = set_member(
                observability_of(a),
                "run_attempts"@,
                JsonView::Number(NumberView::PosInt(0)),
            );
            JsonView::Object(
                set_member(
                    a,
                    "observability"@,
                    JsonView::Object(stamped(counter, run_id, stamp, note)),
                ),
            )
        },
        _ => task,
    }
}

/// The counter that follows `n`; the largest counter stays.
pub open spec fn next_attempt(n: u64) -> u64 {
    if n == u64::MAX {
        n
    } else {
        (n + 1) as u64
    }
}

/// A task with its attempt counter raised by one.
pub open spec fn task_incremented(task: JsonView) -> JsonView {
    match task {
        JsonView::Object(members) => JsonView::Object(
            set_member(
                members,
                "observability"@,
                JsonView::Object(
                    set_member(
                        observability_of(members),
                        "run_attempts"@,
                        JsonView::Number(NumberView::PosInt(next_attempt(attempts_of(task)))),
                    ),
                ),
            ),
        ),
        _ => task,
    }
}

/// The tasks of a document.
pub fn tasks_array(root: &Json) -> (r: Option<&Vec<Json>>)
    ensures
        match r {
            Some(items) => tasks_of(root@) == Some(item_views(items@)),
            None => tasks_of(root@) is None,
        },
{
    match root {
        Json::Array(items) => {
            proof {
                lemma_array_view(*items);
            }
            Some(items)
        },
        Json::Object(members) => {
            proof {
                lemma_object_view(*members);
            }
            match root.get("tasks") {
                Some(Json::Array(items)) => {
                    proof {
                        lemma_array_view(*items);
                    }
                    Some(items)
                },
                _ => None,
            }
        },
        _ => None,
    }
}

/// Whether the task is identified by `id`.
pub fn task_has_id(task: &Json, id: &str) -> (r: bool)
    ensures
        r == has_id(task@, id@),
{
    match task.get("task_id") {
        Some(Json::String(s)) => str_eq(s.as_str(), id),
        _ => false,
    }
}

/// The position of the first task identified by `id`.
pub fn find_task(tasks: &Vec<Json>, id: &str) -> (r: Option<usize>)
    ensures
        match r {
            Some(i) => is_first_task(item_views(tasks@), id@, i as int),
            None => !has_task(item_views(tasks@), id@),
        },
{
    let mut i: usize = 0;
    while i < tasks.len()
        invariant
            i <= tasks.len(),
            forall|j: int| 0 <= j < i ==> !has_id(#[trigger] item_views(tasks@)[j], id@),
        decreases tasks.len() - i,
    {
        if task_has_id(&tasks[i], id) {
            return Some(i);
        }
        i += 1;
    }
    None
}

/// How often a task has been run.
pub fn task_attempts(task: &Json) -> (n: u64)
    ensures
        n == attempts_of(task@),
{
    match task.get("observability") {
        Some(obs) => match obs {
            Json::Object(members) => {
                proof {
                    lemma_object_view(*members);
                }
                match obs.get("run_attempts") {
                    Some(Json::Number(JsonNumber::PosInt(n))) => *n,
                    _ => 0,
                }
            },
            _ => 0,
        },
        None => 0,
    }
}

/// The attempt counter of the task `id`.
pub fn current_attempt_count(root: &Json, task_id: &str) -> (r: Result<u64, StoreError>)
    ensures
        r == attempt_count(root@, task_id@),
{
    match tasks_array(root) {
        Some(tasks) => match find_task(tasks, task_id) {
            Some(i) => {
                proof {
                    lemma_task_index(item_views(tasks@), task_id@, i as int);
                }
                Ok(task_attempts(&tasks[i]))
            },
            None => Err(StoreError::TaskNotFound),
        },
        None => Err(StoreError::NotAList),
    }
}

/// The members of a task's bookkeeping object.
pub fn observability_members(task: &Vec<Member>) -> (out: Vec<Member>)
    ensures
        member_views(out@) == observability_of(member_views(task@)),
{
    match crate::json::find_member(task, "observability") {
        Some(i) => {
            proof {
                lemma_first_is_key_index(member_views(task@), "observability"@, i as int);
            }
            match &task[i].value {
                Json::Object(members) => {
                    proof {
                        lemma_object_view(*members);
                    }
                    copy_members(members)
                },
                _ => {
                    let out: Vec<Member> = Vec::new();
                    assert(member_views(out@) =~= Seq::<(Seq<char>, JsonView)>::empty());
                    out
                },
            }
        },
        None => {
            let out: Vec<Member> = Vec::new();
            assert(member_views(out@) =~= Seq::<(Seq<char>, JsonView)>::empty());
            out
        },
    }
}

/// An object with the given members.
pub fn object_of(members: Vec<Member>) -> (out: Json)
    ensures
        out@ == JsonView::Object(member_views(members@)),
{
    proof {
        lemma_object_view(members);
    }
    Json::Object(members)
}

/// A string value.
pub fn string_value(text: &str) -> (out: Json)
    ensures
        out@ == JsonView::String(text@),
{
    Json::String(text.to_owned())
}

/// Stamps bookkeeping members with a run.
pub fn stamp_members(observability: &Vec<Member>, run_id: &str, stamp: &str, note: &str) -> (out: Vec<
    Member,
>)
    ensures
        member_views(out@) == stamped(member_views(observability@), run_id@, stamp@, note@),
{
    let a = with_member(observability, "last_run_id", string_value(run_id));
    let b = with_member(&a, "last_update_utc", string_value(stamp));
    if note.unicode_len() > 0 {
        with_member(&b, "last_note", string_value(note))
    } else {
        b
    }
}

/// The document with the task at `index` replaced.
pub(crate) fn replace_task(root: &Json, index: usize, task: Json) -> (out: Json)
    requires
        tasks_of(root@) matches Some(tasks) && index < tasks.len(),
    ensures
        out@ == with_task(root@, index as int, task@),
{
    match root {
        Json::Array(items) => {
            proof {
                lemma_array_view(*items);
            }
            Json::Array(tasks_with(items, index, task))
        },
        Json::Object(members) => {
            proof {
                lemma_object_view(*members);
            }
            match root.get("tasks") {
                Some(Json::Array(items)) => {
                    proof {
                        lemma_array_view(*items);
                    }
                    let list = Json::Array(tasks_with(items, index, task));
                    object_of(with_member(members, "tasks", list))
                },
                _ => copy_json(root),
            }
        },
        _ => copy_json(root),
    }
}

/// A copy of `items` with the item at `index` replaced by `task`.
fn tasks_with(items: &Vec<Json>, index: usize, task: Json) -> (out: Vec<Json>)
    requires
        index < items.len(),
    ensures
        Json::Array(out)@ == JsonView::Array(item_views(items@).update(index as int, task@)),
{
    let mut out: Vec<Json> = Vec::new();
    let mut i: usize = 0;
    while i < items.len()
        invariant
            i <= items.len(),
            out@.len() == i,
            forall|k: int| 0 <= k < i ==> out@[k]@ == items@[k]@,
        decreases items.len() - i,
    {
        out.push(copy_json(&items[i]));
        i += 1;
    }
    out.set(index, task);
    proof {
        lemma_array_view(out);
        assert(item_views(out@) =~= item_views(items@).update(index as int, task@));
    }
    out
}

/// Sets the status of the task `task_id` and stamps its bookkeeping with the
/// run, the time `stamp` and, where it is not empty, the note. Every other
/// task and every other field stays as it is.
pub fn update_task_status(
    root: &Json,
    task_id: &str,
    new_status: &str,
    run_id: &str,
    note: &str,
    stamp: &str,
) -> (r: Result<Json, StoreError>)
    ensures
        match tasks_of(root@) {
            Some(tasks) => if has_task(tasks, task_id@) {
                r matches Ok(out) && out@ == with_task(
                    root@,
                    task_index(tasks, task_id@),
                    task_with_status(
                        tasks[task_index(tasks, task_id@)],
                        new_status@,
                        run_id@,
                        stamp@,
                        note@,
                    ),
                )
            } else {
                r == Err::<Json, StoreError>(StoreError::TaskNotFound)
            },
            None => r == Err::<Json, StoreError>(StoreError::NotAList),
        },
{
    let tasks = match tasks_array(root) {
        Some(tasks) => tasks,
        None => {
            return Err(StoreError::NotAList);
        },
    };
    let index = match find_task(tasks, task_id) {
        Some(i) => i,
        None => {
            return Err(StoreError::TaskNotFound);
        },
    };
    proof {
        lemma_task_index(item_views(tasks@), task_id@, index as int);
    }
    let task = &tasks[index];
    let updated = match task {
        Json::Object(members) => {
            proof {
                lemma_object_view(*members);
            }
            let a = with_member(members, "status", string_value(new_status));
            let obs = observability_members(&a);
            let stamped_obs = stamp_members(&obs, run_id, stamp, note);
            object_of(with_member(&a, "observability", object_of(stamped_obs)))
        },
        _ => copy_json(task),
    };
    Ok(replace_task(root, index, updated))
}

/// Sets the task `task_id` back to unstarted with its attempt counter at
/// zero, and stamps its bookkeeping.
pub fn reset_task_attempts(root: &Json, task_id: &str, run_id: &str, note: &str, stamp: &str) -> (r:
    Result<Json, StoreError>)
    ensures
        match tasks_of(root@) {
            Some(tasks) => if has_task(tasks, task_id@) {
                r matches Ok(out) && out@ == with_task(
                    root@,
                    task_index(tasks, task_id@),
                    task_reset(tasks[task_index(tasks, task_id@)], run_id@, stamp@, note@),
                )
            } else {
                r == Err::<Json, StoreError>(StoreError::TaskNotFound)
            },
            None => r == Err::<Json, StoreError>(StoreError::NotAList),
        },
{
    let tasks = match tasks_array(root) {
        Some(tasks) => tasks,
        None => {
            return Err(StoreError::NotAList);
        },
    };
    let index = match find_task(tasks, task_id) {
        Some(i) => i,
        None => {
            return Err(StoreError::TaskNotFound);
        },
    };
    proof {
        lemma_task_index(item_views(tasks@), task_id@, index as int);
    }
    let task = &tasks[index];
    let updated = match task {
        Json::Object(members) => {
            proof {
                lemma_object_view(*members);
            }
            let a = with_member(members, "status", string_value("unstarted"));
            let obs = observability_members(&a);
            let counter = with_member(&obs, "run_attempts", Json::Number(JsonNumber::PosInt(0)));
            let stamped_obs = stamp_members(&counter, run_id, stamp, note);
            object_of(with_member(&a, "observability", object_of(stamped_obs)))
        },
        _ => copy_json(task),
    };
    Ok(replace_task(root, index, updated))
}

/// Raises the attempt counter of the task `task_id` by one and gives the new
/// document with the new counter.
pub fn increment_attempt_count(root: &Json, task_id: &str) -> (r: Result<(Json, u64), StoreError>)
    ensures
        match tasks_of(root@) {
            Some(tasks) => if has_task(tasks, task_id@) {
                r matches Ok((out, count)) && out@ == with_task(
                    root@,
                    task_index(tasks, task_id@),
                    task_incremented(tasks[task_index(tasks, task_id@)]),
                ) && count == next_attempt(attempts_of(tasks[task_index(tasks, task_id@)]))
            } else {
                r == Err::<(Json, u64), StoreError>(StoreError::TaskNotFound)
            },
            None => r == Err::<(Json, u64), StoreError>(StoreError::NotAList),
        },
{
    let tasks = match tasks_array(root) {
        Some(tasks) => tasks,
        None => {
            return Err(StoreError::NotAList);
        },
    };
    let index = match find_task(tasks, task_id) {
        Some(i) => i,
        None => {
            return Err(StoreError::TaskNotFound);
        },
    };
    proof {
        lemma_task_index(item_views(tasks@), task_id@, index as int);
    }
    let task = &tasks[index];
    let current = task_attempts(task);
    let next: u64 = if current == 0xffff_ffff_ffff_ffff {
        current
    } else {
        current + 1
    };
    let updated = match task {
        Json::Object(members) => {
            proof {
                lemma_object_view(*members);
            }
            let obs = observability_members(members);
            let counter = with_member(&obs, "run_attempts", Json::Number(JsonNumber::PosInt(next)));
            object_of(with_member(members, "observability", object_of(counter)))
        },
        _ => copy_json(task),
    };
    Ok((replace_task(root, index, updated), next))
}

/// Replacing a task changes that task and nothing else: the list has the new
/// task in its place, and a document that is an object keeps its other
/// members.
pub proof fn lemma_with_task(root: JsonView, index: int, task: JsonView, other: Seq<char>)
    requires
        tasks_of(root) matches Some(tasks) && 0 <= index < tasks.len(),
    ensures
        tasks_of(with_task(root, index, task)) == Some(tasks_of(root)->0.update(index, task)),
        other != "tasks"@ ==> with_task(root, index, task).get(other) == root.get(other),
        root is Array <==> with_task(root, index, task) is Array,
{
    match root {
        JsonView::Object(members) => {
            let items = tasks_of(root)->0;
            lemma_set_member(members, "tasks"@, JsonView::Array(items.update(index, task)), other);
        },
        _ => {},
    }
}

/// Raising the counter raises it by one (the largest counter stays) and
/// keeps every other field of the task and of its bookkeeping.
pub proof fn lemma_task_incremented(task: JsonView, field: Seq<char>)
    requires
        task is Object,
    ensures
        attempts_of(task_incremented(task)) == next_attempt(attempts_of(task)),
        attempts_of(task_incremented(task)) >= attempts_of(task),
        field != "observability"@ ==> task_incremented(task).get(field) == task.get(field),
        field != "run_attempts"@ ==> lookup(
            observability_of(task_incremented(task)->Object_0),
            field,
        ) == lookup(observability_of(task->Object_0), field),
{
    let members = task->Object_0;
    let obs = observability_of(members);
    let counter = JsonView::Number(NumberView::PosInt(next_attempt(attempts_of(task))));
    let new_obs = set_member(obs, "run_attempts"@, counter);
    lemma_set_member(members, "observability"@, JsonView::Object(new_obs), field);
    lemma_set_member(obs, "run_attempts"@, counter, field);
}

/// Setting the status sets it, keeps the attempt counter, and keeps every
/// field of the task other than the status and the bookkeeping.
pub proof fn lemma_task_with_status(
    task: JsonView,
    status: Seq<char>,
    run_id: Seq<char>,
    stamp: Seq<char>,
    note: Seq<char>,
    field: Seq<char>,
)
    requires
        task is Object,
    ensures
        task_with_status(task, status, run_id, stamp, note).get("status"@) == Some(
            JsonView::String(status),
        ),
        attempts_of(task_with_status(task, status, run_id, stamp, note)) == attempts_of(task),
        field != "status"@ && field != "observability"@ ==> task_with_status(
            task,
            status,
            run_id,
            stamp,
            note,
        ).get(field) == task.get(field),
        lookup(
            observability_of(task_with_status(task, status, run_id, stamp, note)->Object_0),
            "last_run_id"@,
        ) == Some(JsonView::String(run_id)),
        lookup(
            observability_of(task_with_status(task, status, run_id, stamp, note)->Object_0),
            "last_update_utc"@,
        ) == Some(JsonView::String(stamp)),
        note.len() > 0 ==> lookup(
            observability_of(task_with_status(task, status, run_id, stamp, note)->Object_0),
            "last_note"@,
        ) == Some(JsonView::String(note)),
{
    let members = task->Object_0;
    let a = set_member(members, "status"@, JsonView::String(status));
    let obs = observability_of(a);
    let new_obs = stamped(obs, run_id, stamp, note);
    lemma_str_distinct();
    lemma_set_member(members, "status"@, JsonView::String(status), "observability"@);
    lemma_set_member(members, "status"@, JsonView::String(status), field);
    lemma_set_member(a, "observability"@, JsonView::Object(new_obs), "status"@);
    lemma_set_member(a, "observability"@, JsonView::Object(new_obs), field);
    lemma_stamped(obs, run_id, stamp, note, "run_attempts"@);
}

/// Resetting a task puts its attempt counter at zero and its status at
/// unstarted.
pub proof fn lemma_task_reset(task: JsonView, run_id: Seq<char>, stamp: Seq<char>, note: Seq<char>)
    requires
        task is Object,
    ensures
        attempts_of(task_reset(task, run_id, stamp, note)) == 0,
        task_reset(task, run_id, stamp, note).get("status"@) == Some(
            JsonView::String("unstarted"@),
        ),
{
    let members = task->Object_0;
    let a = set_member(members, "status"@, JsonView::String("unstarted"@));
    let zero = JsonView::Number(NumberView::PosInt(0));
    let counter = set_member(observability_of(a), "run_attempts"@, zero);
    let new_obs = stamped(counter, run_id, stamp, note);
    lemma_str_distinct();
    lemma_set_member(observability_of(a), "run_attempts"@, zero, "run_attempts"@);
    lemma_stamped(counter, run_id, stamp, note, "run_attempts"@);
    lemma_set_member(members, "status"@, JsonView::String("unstarted"@), "status"@);
    lemma_set_member(a, "observability"@, JsonView::Object(new_obs), "status"@);
}

/// Stamping sets the three stamps and keeps every other member.
pub proof fn lemma_stamped(
    observability: Seq<(Seq<char>, JsonView)>,
    run_id: Seq<char>,
    stamp: Seq<char>,
    note: Seq<char>,
    field: Seq<char>,
)
    ensures
        lookup(stamped(observability, run_id, stamp, note), "last_run_id"@) == Some(
            JsonView::String(run_id),
        ),
        lookup(stamped(observability, run_id, stamp, note), "last_update_utc"@) == Some(
            JsonView::String(stamp),
        ),
        note.len() > 0 ==> lookup(stamped(observability, run_id, stamp, note), "last_note"@)
            == Some(JsonView::String(note)),
        field != "last_run_id"@ && field != "last_update_utc"@ && field != "last_note"@ ==> lookup(
            stamped(observability, run_id, stamp, note),
            field,
        ) == lookup(observability, field),
{
    lemma_str_distinct();
    let a = set_member(observability, "last_run_id"@, JsonView::String(run_id));
    let b = set_member(a, "last_update_utc"@, JsonView::String(stamp));
    lemma_set_member(observability, "last_run_id"@, JsonView::String(run_id), field);
    lemma_set_member(a, "last_update_utc"@, JsonView::String(stamp), field);
    lemma_set_member(a, "last_update_utc"@, JsonView::String(stamp), "last_run_id"@);
    lemma_set_member(b, "last_note"@, JsonView::String(note), field);
    lemma_set_member(b, "last_note"@, JsonView::String(note), "last_run_id"@);
    lemma_set_member(b, "last_note"@, JsonView::String(note), "last_update_utc"@);
}

/// The field names that the store writes differ from one another.
proof fn lemma_str_distinct()
    ensures
        "status"@ != "observability"@,
        "run_attempts"@ != "last_run_id"@,
        "run_attempts"@ != "last_update_utc"@,
        "run_attempts"@ != "last_note"@,
        "last_run_id"@ != "last_update_utc"@,
        "last_run_id"@ != "last_note"@,
        "last_update_utc"@ != "last_note"@,
{
    reveal_strlit("status");
    reveal_strlit("observability");
    reveal_strlit("run_attempts");
    reveal_strlit("last_run_id");
    reveal_strlit("last_update_utc");
    reveal_strlit("last_note");
    assert("status"@.len() != "observability"@.len());
    assert("run_attempts"@.len() != "last_run_id"@.len());
    assert("run_attempts"@.len() != "last_update_utc"@.len());
    assert("run_attempts"@.len() != "last_note"@.len());
    assert("last_run_id"@.len() != "last_update_utc"@.len());
    assert("last_run_id"@.len() != "last_note"@.len());
    assert("last_update_utc"@.len() != "last_note"@.len());
}

} // verus!
