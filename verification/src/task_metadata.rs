//! The structural check that a task must pass before it is run.

use vstd::prelude::*;
use vstd::string::StringExecFns;
use crate::json::{Json, JsonView, lookup, item_views};
use crate::text::{join_seq, join_slices, slice_texts};

verus! {

/// A task that lacks required fields, with the names of those fields.
#[derive(Debug)]
pub struct TaskMetadataError {
    pub task_id: String,
    pub missing: Vec<&'static str>,
}

/// A string value that is not empty.
pub open spec fn is_filled_string(value: JsonView) -> bool {
    value matches JsonView::String(s) && s.len() > 0
}

/// The task has a title that is a non-empty string.
pub open spec fn title_valid(raw: JsonView) -> bool {
    raw.get("title"@) matches Some(t) && is_filled_string(t)
}

/// The task has a definition of done that is a non-empty list of non-empty
/// strings.
pub open spec fn dod_valid(raw: JsonView) -> bool {
    raw.get("definition_of_done"@) matches Some(JsonView::Array(items)) && items.len() > 0
        && forall|i: int| 0 <= i < items.len() ==> is_filled_string(#[trigger] items[i])
}

/// The task has a recommendation that is an object with the single member
/// `approach`, a non-empty string.
pub open spec fn recommended_valid(raw: JsonView) -> bool {
    raw.get("recommended"@) matches Some(JsonView::Object(members)) && members.len() == 1 && (
    lookup(members, "approach"@) matches Some(a) && is_filled_string(a))
}

/// The names of the fields that a task lacks, in the order title, definition
/// of done, recommendation.
pub open spec fn missing_fields(raw: JsonView) -> Seq<Seq<char>> {
    (if title_valid(raw) {
        Seq::<Seq<char>>::empty()
    } else {
        seq!["title"@]
    }) + (if dod_valid(raw) {
        Seq::<Seq<char>>::empty()
    } else {
        seq!["definition_of_done"@]
    }) + (if recommended_valid(raw) {
        Seq::<Seq<char>>::empty()
    } else {
        seq!["recommended.approach"@]
    })
}

/// The sentence that reports a task's missing fields.
pub open spec fn metadata_message(task_id: Seq<char>, missing: Seq<Seq<char>>) -> Seq<char> {
    "Task "@ + task_id + " missing required metadata: "@ + join_seq(missing, ", "@)
}

impl TaskMetadataError {
    /// The process exit code that stands for this error.
    pub fn exit_code(&self) -> (code: i32)
        ensures
            code == 2,
    {
        2
    }

    /// The sentence that reports this error.
    pub fn message(&self) -> (out: String)
        ensures
            out@ == metadata_message(self.task_id@, slice_texts(self.missing@)),
    {
        let mut out = String::from_str("Task ");
        out.append(self.task_id.as_str());
        out.append(" missing required metadata: ");
        let list = join_slices(&self.missing, ", ");
        out.append(list.as_str());
        out
    }
}

/// Whether a value is a non-empty string.
pub fn check_filled_string(value: &Json) -> (r: bool)
    ensures
        r == is_filled_string(value@),
{
    match value.as_str() {
        Some(s) => s.unicode_len() > 0,
        None => false,
    }
}

/// Whether the task has a valid title.
pub fn check_title(raw: &Json) -> (r: bool)
    ensures
        r == title_valid(raw@),
{
    match raw.get("title") {
        Some(t) => check_filled_string(t),
        None => false,
    }
}

/// Whether the task has a valid definition of done.
pub fn check_dod(raw: &Json) -> (r: bool)
    ensures
        r == dod_valid(raw@),
{
    match raw.get("definition_of_done") {
        Some(d) => match d.as_array() {
            Some(items) => {
                if items.len() == 0 {
                    return false;
                }
                let mut i: usize = 0;
                while i < items.len()
                    invariant
                        i <= items.len(),
                        items.len() > 0,
                        raw@.get("definition_of_done"@) == Some(JsonView::Array(item_views(items@))),
                        forall|k: int| 0 <= k < i ==> is_filled_string(#[trigger] item_views(items@)[k]),
                    decreases items.len() - i,
                {
                    if !check_filled_string(&items[i]) {
                        assert(!is_filled_string(item_views(items@)[i as int]));
                        return false;
                    }
                    i += 1;
                }
                true
            },
            None => false,
        },
        None => false,
    }
}

/// Whether the task has a valid recommendation.
pub fn check_recommended(raw: &Json) -> (r: bool)
    ensures
        r == recommended_valid(raw@),
{
    match raw.get("recommended") {
        Some(rec) => match rec.as_object() {
            Some(members) => {
                if members.len() != 1 {
                    return false;
                }
                match rec.get("approach") {
                    Some(a) => check_filled_string(a),
                    None => false,
                }
            },
            None => false,
        },
        None => false,
    }
}

/// Checks the fields that every task must have. The error names the task and
/// lists exactly the fields that are missing or malformed, in a fixed order.
pub fn validate_task_metadata(task_id: &str, raw: &Json) -> (r: Result<(), TaskMetadataError>)
    ensures
        r is Ok <==> missing_fields(raw@).len() == 0,
        r is Ok <==> title_valid(raw@) && dod_valid(raw@) && recommended_valid(raw@),
        r matches Err(e) ==> e.task_id@ == task_id@ && slice_texts(e.missing@) == missing_fields(
            raw@,
        ),
{
    let mut missing: Vec<&'static str> = Vec::new();
    if !check_title(raw) {
        missing.push("title");
    }
    if !check_dod(raw) {
        missing.push("definition_of_done");
    }
    if !check_recommended(raw) {
        missing.push("recommended.approach");
    }
    assert(slice_texts(missing@) =~= missing_fields(raw@));
    if missing.len() == 0 {
        Ok(())
    } else {
        Err(TaskMetadataError { task_id: String::from_str(task_id), missing })
    }
}

} // verus!
