use lever::agent::{build_assembly_command_args, build_assembly_task_input};
use lever::context_compile::{ContextCompileConfig, ContextFailurePolicy};
use lever::driver::{
    determine_selected_task, judge_exit, judge_single_run, limit_reached, load_tasks,
    model_is_human, next_nap_ms, plan_iteration, resolve_loop_mode, resolve_task_id_for_git,
    select_next_non_completed, select_next_runnable, status_is_completed, validate_lever_args,
    ArgsError, IterationPlan, LoadError, LoopMode, SelectError, StopReason, TaskRecord, Verdict,
};
use lever::json::Json;
use lever::json_text::{parse_json, to_text, to_text_pretty};
use lever::pipeline::{
    admit_request, advance, apply_ending, conclude, context_decision, context_failure_note,
    decide_after_agent, ending_of, handle_interrupt, model_supported, plan_attempts, read_result,
    AgentDecision, Admission, AssemblyOutcome, AttemptPlan, ContextDecision, EndKind, Ending, Event,
    Phase, Step,
};
use lever::run_paths::run_paths;
use lever::select::select_task;
use lever::task_store::{
    current_attempt_count, increment_attempt_count, reset_task_attempts, update_task_status,
    StoreError,
};

const STAMP: &str = "2026-01-02T03:04:05Z";

fn task(task_id: &str, status: Option<&str>, model: Option<&str>) -> TaskRecord {
    TaskRecord {
        task_id: task_id.to_string(),
        status: status.map(str::to_string),
        model: model.map(str::to_string),
        raw: Json::Null,
    }
}

fn doc(text: &str) -> Json {
    parse_json(text).unwrap()
}

fn task_a(extra: &str) -> String {
    format!(
        r#"[{{"task_id":"A","status":"unstarted","model":"gpt-5.1-codex-mini","title":"t","definition_of_done":["d"],"recommended":{{"approach":"a"}}{}}}]"#,
        extra
    )
}

fn field<'a>(root: &'a Json, index: usize, key: &str) -> Option<&'a Json> {
    let tasks = match root {
        Json::Array(items) => items,
        other => other.get("tasks").and_then(Json::as_array).unwrap(),
    };
    tasks[index].get(key)
}

fn obs<'a>(root: &'a Json, index: usize, key: &str) -> Option<&'a Json> {
    field(root, index, "observability").and_then(|o| o.get(key))
}

#[test]
fn determine_selected_task_uses_explicit_task_id() {
    let tasks = vec![task("ALPHA", None, None), task("BETA", None, None)];
    let selected =
        determine_selected_task(&tasks, Some("BETA"), false).expect("selection failed");
    let selected = selected.expect("expected task selection");
    assert_eq!(selected.task_id, "BETA");
}

#[test]
fn determine_selected_task_selects_next_runnable() {
    let tasks = vec![
        task("DONE", Some("completed"), None),
        task("HUMAN", None, Some("human")),
        task("NEXT", None, None),
    ];
    let selected = determine_selected_task(&tasks, None, true).expect("selection failed");
    let selected = selected.expect("expected task selection");
    assert_eq!(selected.task_id, "NEXT");
}

#[test]
fn determine_selected_task_default_is_none() {
    let tasks = vec![task("ALPHA", None, None)];
    let selected = determine_selected_task(&tasks, None, false).expect("selection failed");
    assert!(selected.is_none());
}

#[test]
fn determine_selected_task_reports_what_is_missing() {
    let tasks = vec![task("DONE", Some("completed"), None), task("H", None, Some("human"))];
    match determine_selected_task(&tasks, Some("ZETA"), false) {
        Err(e) => {
            assert!(matches!(&e, SelectError::NotFound { task_id } if task_id == "ZETA"));
            assert_eq!(e.message("prd.json"), "Task ID 'ZETA' was not found in prd.json");
        }
        Ok(_) => panic!("a task that is not there was found"),
    }
    match determine_selected_task(&tasks, None, true) {
        Err(e) => {
            assert!(matches!(e, SelectError::NoRunnable));
            assert_eq!(e.message("prd.json"), "No runnable task found in prd.json");
        }
        Ok(_) => panic!("a task that cannot be run was chosen"),
    }
}

#[test]
fn assembly_command_args_include_expected_fields() {
    let workspace = String::from("/repo");
    let task_id = "T1";
    let run_id = "run-123";
    let paths = run_paths(&workspace, task_id, run_id);
    let config = ContextCompileConfig {
        enabled: true,
        token_budget: 9001,
        exclude_globs: vec![".git/**".to_string(), "node_modules/**".to_string()],
        exclude_runtime_globs: vec![".ralph/**".to_string()],
        ..Default::default()
    };

    let args = build_assembly_command_args(
        &workspace,
        task_id,
        &paths.assembly_task_path,
        &paths.pack_dir_abs,
        &paths.assembly_summary_path,
        &config,
    );

    let expected = vec![
        "build".to_string(),
        "--repo".to_string(),
        "/repo".to_string(),
        "--task".to_string(),
        format!("@{}", paths.assembly_task_path),
        "--task-id".to_string(),
        "T1".to_string(),
        "--out".to_string(),
        paths.pack_dir_abs.clone(),
        "--token-budget".to_string(),
        "9001".to_string(),
        "--exclude".to_string(),
        ".git/**".to_string(),
        "--exclude".to_string(),
        "node_modules/**".to_string(),
        "--exclude-runtime".to_string(),
        ".ralph/**".to_string(),
        "--summary-json".to_string(),
        paths.assembly_summary_path.clone(),
    ];

    assert_eq!(args, expected);
}

#[test]
fn loop_count_chooses_the_mode() {
    assert_eq!(resolve_loop_mode(None), LoopMode::Single);
    assert_eq!(resolve_loop_mode(Some(0)), LoopMode::Continuous);
    assert_eq!(resolve_loop_mode(Some(1)), LoopMode::Count(1));
    assert_eq!(resolve_loop_mode(Some(7)), LoopMode::Count(7));
    assert_eq!(resolve_loop_mode(Some(u64::MAX)), LoopMode::Count(u64::MAX));
    assert!(!LoopMode::Single.is_looping());
    assert!(LoopMode::Continuous.is_looping());
    assert!(LoopMode::Count(3).is_looping());
}

#[test]
fn lever_args_exclude_one_another() {
    assert_eq!(validate_lever_args(true, true, false, None), Err(ArgsError::NextWithTaskId));
    assert_eq!(validate_lever_args(true, true, true, None), Err(ArgsError::NextWithTaskId));
    assert_eq!(validate_lever_args(false, false, true, None), Err(ArgsError::DelayWithoutLoop));
    assert_eq!(validate_lever_args(false, true, true, Some(0)), Ok(()));
    assert_eq!(validate_lever_args(true, false, false, None), Ok(()));
    assert_eq!(ArgsError::NextWithTaskId.message(), "--next cannot be combined with --task-id");
    assert_eq!(ArgsError::DelayWithoutLoop.message(), "--delay requires --loop");
}

#[test]
fn exit_codes_translate_to_verdicts() {
    assert!(matches!(judge_exit(Some(0), false, "T"), Verdict::Continue));
    assert!(matches!(judge_exit(Some(3), false, "T"), Verdict::Finish));
    assert!(matches!(
        judge_exit(Some(4), false, "T"),
        Verdict::Stop(StopReason::Human { task_id, is_next: false }) if task_id == "T"
    ));
    for code in [5, 6] {
        assert!(matches!(
            judge_exit(Some(code), false, "T"),
            Verdict::Stop(StopReason::Dependencies { task_id }) if task_id == "T"
        ));
    }
    for code in [10, 11, 13] {
        assert!(matches!(
            judge_exit(Some(code), false, "T"),
            Verdict::Stop(StopReason::Blocked { task_id }) if task_id == "T"
        ));
    }
    assert!(matches!(judge_exit(Some(12), false, "T"), Verdict::Continue));
    assert!(matches!(judge_exit(Some(14), false, "T"), Verdict::Continue));
    assert!(matches!(judge_exit(Some(255), false, "T"), Verdict::Continue));
    for code in [1, 2, 7, 8, 9, -1, 130] {
        assert!(matches!(
            judge_exit(Some(code), false, "T"),
            Verdict::Fail { code: Some(c) } if c == code
        ));
    }
    assert!(matches!(judge_exit(None, false, "T"), Verdict::Fail { code: None }));
    // a shutdown ends the loop whatever the code
    for code in [Some(0), Some(1), Some(4), Some(130), None] {
        assert!(matches!(judge_exit(code, true, "T"), Verdict::Finish));
    }
}

#[test]
fn single_run_verdicts() {
    assert!(matches!(judge_single_run(Some(0), false), Verdict::Finish));
    assert!(matches!(judge_single_run(Some(130), true), Verdict::Finish));
    assert!(matches!(judge_single_run(Some(130), false), Verdict::Fail { code: Some(130) }));
    assert!(matches!(judge_single_run(Some(12), true), Verdict::Fail { code: Some(12) }));
    assert!(matches!(judge_single_run(None, false), Verdict::Fail { code: None }));
}

#[test]
fn loop_limits_and_naps() {
    assert!(!limit_reached(1, None));
    assert!(!limit_reached(2, Some(3)));
    assert!(limit_reached(3, Some(3)));
    assert!(limit_reached(4, Some(3)));
    assert_eq!(next_nap_ms(1000, 0), 100);
    assert_eq!(next_nap_ms(1000, 950), 50);
    assert_eq!(next_nap_ms(1000, 1000), 0);
    assert_eq!(next_nap_ms(1000, 2000), 0);
    assert_eq!(next_nap_ms(0, 0), 0);
}

#[test]
fn statuses_and_models() {
    assert!(status_is_completed(Some("completed")));
    assert!(!status_is_completed(Some("Completed")));
    assert!(!status_is_completed(Some("blocked")));
    assert!(!status_is_completed(None));
    assert!(model_is_human(Some("human")));
    assert!(!model_is_human(Some("gpt-5.1-codex")));
    assert!(!model_is_human(None));
    assert!(model_supported("gpt-5.1-codex-mini"));
    assert!(model_supported("gpt-5.1-codex"));
    assert!(model_supported("gpt-5.2-codex"));
    assert!(!model_supported("human"));
    assert!(!model_supported(""));
}

#[test]
fn tasks_are_loaded_from_both_envelopes() {
    let list = doc(r#"[{"task_id":"A","status":"completed"},{"task_id":"B","model":"human"}]"#);
    let tasks = load_tasks(&list).unwrap();
    assert_eq!(tasks.len(), 2);
    assert_eq!(tasks[0].task_id, "A");
    assert_eq!(tasks[0].status.as_deref(), Some("completed"));
    assert_eq!(tasks[0].model, None);
    assert_eq!(tasks[1].model.as_deref(), Some("human"));
    assert_eq!(tasks[1].raw, doc(r#"{"task_id":"B","model":"human"}"#));

    let wrapped = doc(r#"{"version":1,"tasks":[{"task_id":"A"}]}"#);
    assert_eq!(load_tasks(&wrapped).unwrap().len(), 1);

    assert_eq!(load_tasks(&doc(r#"{"tasks":5}"#)), Err(LoadError::NotAnArray));
    assert_eq!(load_tasks(&doc(r#"{"other":[]}"#)), Err(LoadError::NotAnArray));
    assert_eq!(
        load_tasks(&doc(r#"[{"task_id":"A"},{"title":"x"},{"task_id":7}]"#)),
        Err(LoadError::MissingTaskId { index: 1 })
    );
    assert_eq!(
        LoadError::MissingTaskId { index: 1 }.message("prd.json"),
        "Task at index 1 in prd.json is missing task_id"
    );
    assert_eq!(
        LoadError::NotAnArray.message("prd.json"),
        "Tasks file prd.json does not contain an array of tasks"
    );
}

#[test]
fn next_task_selection_for_the_loop() {
    let tasks = vec![
        task("DONE", Some("completed"), None),
        task("HUMAN", None, Some("human")),
        task("NEXT", Some("blocked"), None),
    ];
    assert_eq!(select_next_non_completed(&tasks), Some(1));
    assert_eq!(select_next_runnable(&tasks), Some(2));
    assert_eq!(select_next_non_completed(&tasks[..1].iter().map(|t| task(&t.task_id, t.status.as_deref(), None)).collect()), None);

    assert!(matches!(plan_iteration(true, false, &tasks), IterationPlan::Finish));
    assert!(matches!(plan_iteration(false, true, &tasks), IterationPlan::RunExplicit));
    // the records above have no fields: that is found before anything else
    match plan_iteration(false, false, &tasks) {
        IterationPlan::BadMetadata { error } => {
            assert_eq!(error.task_id, "HUMAN");
            assert_eq!(error.missing, vec!["title", "definition_of_done", "recommended.approach"]);
        }
        other => panic!("missing fields were passed over: {:?}", other),
    }

    let full = |extra: &str| {
        load_tasks(&doc(&format!(
            r#"[{{"task_id":"DONE","status":"completed"}},
                {{"task_id":"NEXT","title":"t","definition_of_done":["d"],"recommended":{{"approach":"a"}}{}}}]"#,
            extra
        )))
        .unwrap()
    };
    assert!(matches!(
        plan_iteration(false, false, &full(r#","model":"human""#)),
        IterationPlan::Stop(StopReason::Human { task_id, is_next: true }) if task_id == "NEXT"
    ));
    assert!(matches!(
        plan_iteration(false, false, &full(r#","status":"blocked""#)),
        IterationPlan::RunTask { index: 1, resuming: true }
    ));
    assert!(matches!(
        plan_iteration(false, false, &full("")),
        IterationPlan::RunTask { index: 1, resuming: false }
    ));
    // a task for a human that lacks a field fails before it stops the loop
    let tasks = load_tasks(&doc(r#"[{"task_id":"H","model":"human","title":"t"}]"#)).unwrap();
    assert!(matches!(
        plan_iteration(false, false, &tasks),
        IterationPlan::BadMetadata { error } if error.missing == vec!["definition_of_done", "recommended.approach"]
    ));
    let tasks = vec![task("DONE", Some("completed"), None)];
    assert!(matches!(plan_iteration(false, false, &tasks), IterationPlan::Finish));
}

#[test]
fn task_id_for_the_branch() {
    let tasks = vec![task("H", None, Some("human")), task("N", None, None)];
    assert_eq!(
        resolve_task_id_for_git(Some("O"), Some("E"), true, &tasks).unwrap(),
        Some("O".to_string())
    );
    assert_eq!(
        resolve_task_id_for_git(None, Some("E"), true, &tasks).unwrap(),
        Some("E".to_string())
    );
    assert_eq!(resolve_task_id_for_git(None, None, true, &tasks).unwrap(), Some("N".to_string()));
    assert_eq!(resolve_task_id_for_git(None, None, false, &tasks).unwrap(), None);
    assert!(matches!(
        resolve_task_id_for_git(None, None, true, &tasks[..1].iter().map(|t| task(&t.task_id, None, t.model.as_deref())).collect()),
        Err(SelectError::NoRunnable)
    ));
}

#[test]
fn attempts_are_counted_in_the_document() {
    let root = doc(&task_a(""));
    assert_eq!(current_attempt_count(&root, "A"), Ok(0));
    let (root, count) = increment_attempt_count(&root, "A").unwrap();
    assert_eq!(count, 1);
    assert_eq!(current_attempt_count(&root, "A"), Ok(1));
    let (root, count) = increment_attempt_count(&root, "A").unwrap();
    assert_eq!(count, 2);
    assert_eq!(obs(&root, 0, "run_attempts").and_then(Json::as_u64), Some(2));
    // everything else is as it was
    for key in ["task_id", "status", "model", "title", "definition_of_done", "recommended"] {
        assert_eq!(field(&root, 0, key), field(&doc(&task_a("")), 0, key));
    }
    assert_eq!(current_attempt_count(&root, "B"), Err(StoreError::TaskNotFound));
    assert_eq!(current_attempt_count(&doc("5"), "A"), Err(StoreError::NotAList));
    assert_eq!(
        current_attempt_count(&doc(r#"{"tasks":{"task_id":"A"}}"#), "A"),
        Err(StoreError::NotAList)
    );
    assert!(matches!(increment_attempt_count(&root, "B"), Err(StoreError::TaskNotFound)));
    assert!(matches!(increment_attempt_count(&doc("{}"), "A"), Err(StoreError::NotAList)));
}

#[test]
fn attempt_counter_reads_only_whole_numbers() {
    let root = doc(&task_a(r#","observability":{"run_attempts":"3"}"#));
    assert_eq!(current_attempt_count(&root, "A"), Ok(0));
    let root = doc(&task_a(r#","observability":{"run_attempts":-1}"#));
    assert_eq!(current_attempt_count(&root, "A"), Ok(0));
    let root = doc(&task_a(r#","observability":{"run_attempts":2.0}"#));
    assert_eq!(current_attempt_count(&root, "A"), Ok(0));
    let root = doc(&task_a(r#","observability":7"#));
    assert_eq!(current_attempt_count(&root, "A"), Ok(0));
    let (root, count) = increment_attempt_count(&root, "A").unwrap();
    assert_eq!(count, 1);
    assert_eq!(obs(&root, 0, "run_attempts").and_then(Json::as_u64), Some(1));
    let root = doc(&task_a(r#","observability":{"run_attempts":18446744073709551615}"#));
    let (_, count) = increment_attempt_count(&root, "A").unwrap();
    assert_eq!(count, u64::MAX);
}

#[test]
fn status_updates_keep_unknown_fields_and_the_envelope() {
    let text = r#"{"meta":{"owner":"me"},"tasks":[
        {"task_id":"A","status":"unstarted","custom":[1,{"x":null}],"observability":{"run_attempts":2,"other":"o"}},
        {"task_id":"B","status":"unstarted"}
    ]}"#;
    let root = doc(text);
    let after = update_task_status(&root, "A", "started", "run-1", "a note", STAMP).unwrap();
    assert_eq!(after.get("meta"), root.get("meta"));
    assert_eq!(field(&after, 1, "task_id"), field(&root, 1, "task_id"));
    assert_eq!(field(&after, 1, "status"), field(&root, 1, "status"));
    assert_eq!(field(&after, 0, "custom"), field(&root, 0, "custom"));
    assert_eq!(field(&after, 0, "status").and_then(Json::as_str), Some("started"));
    assert_eq!(obs(&after, 0, "run_attempts").and_then(Json::as_u64), Some(2));
    assert_eq!(obs(&after, 0, "other").and_then(Json::as_str), Some("o"));
    assert_eq!(obs(&after, 0, "last_run_id").and_then(Json::as_str), Some("run-1"));
    assert_eq!(obs(&after, 0, "last_update_utc").and_then(Json::as_str), Some(STAMP));
    assert_eq!(obs(&after, 0, "last_note").and_then(Json::as_str), Some("a note"));

    // an empty note leaves the note that is there
    let again = update_task_status(&after, "A", "blocked", "run-2", "", STAMP).unwrap();
    assert_eq!(obs(&again, 0, "last_note").and_then(Json::as_str), Some("a note"));
    assert_eq!(obs(&again, 0, "last_run_id").and_then(Json::as_str), Some("run-2"));

    // the text that is written reads back as the same document
    let written = to_text_pretty(&again);
    assert_eq!(doc(&written), doc(&to_text(&again)));
    let reread = doc(&written);
    assert_eq!(reread.get("meta"), root.get("meta"));
    assert_eq!(field(&reread, 0, "custom"), field(&root, 0, "custom"));

    assert!(matches!(
        update_task_status(&root, "Z", "started", "r", "n", STAMP),
        Err(StoreError::TaskNotFound)
    ));
    assert!(matches!(
        update_task_status(&doc("null"), "A", "started", "r", "n", STAMP),
        Err(StoreError::NotAList)
    ));
}

#[test]
fn reset_puts_the_counter_at_zero() {
    let root = doc(&task_a(r#","observability":{"run_attempts":3,"last_note":"old"}"#));
    let after = reset_task_attempts(&root, "A", "run-9", "Reset attempts via --reset-task", STAMP).unwrap();
    assert_eq!(current_attempt_count(&after, "A"), Ok(0));
    assert_eq!(field(&after, 0, "status").and_then(Json::as_str), Some("unstarted"));
    assert_eq!(obs(&after, 0, "last_run_id").and_then(Json::as_str), Some("run-9"));
    assert_eq!(
        obs(&after, 0, "last_note").and_then(Json::as_str),
        Some("Reset attempts via --reset-task")
    );
    assert!(matches!(reset_task_attempts(&root, "Z", "r", "n", STAMP), Err(StoreError::TaskNotFound)));
}

#[test]
fn selection_follows_the_first_open_task() {
    let root = doc(
        r#"[{"task_id":"DONE","status":"completed"},
            {"task_id":"A","model":"gpt-5.1-codex","title":"T","definition_of_done":["one",2,"two"],
             "recommended":{"approach":"how"},"verification":{"commands":[" make test ","",7,"  "]}}]"#,
    );
    let selected = select_task(&root, None, true).unwrap();
    assert_eq!(selected.task_id, "A");
    assert_eq!(selected.status, "unstarted");
    assert_eq!(selected.model, "gpt-5.1-codex");
    assert_eq!(selected.title, "T");
    assert_eq!(selected.definition_of_done, vec!["one".to_string(), "two".to_string()]);
    assert_eq!(selected.recommended_approach, "how");
    assert_eq!(selected.verification_commands, vec!["make test".to_string()]);
    let raw: serde_json::Value = serde_json::from_str(&selected.raw_json).unwrap();
    assert_eq!(raw.get("task_id").and_then(serde_json::Value::as_str), Some("A"));
    assert_eq!(doc(&selected.raw_json), selected.raw);

    assert_eq!(select_task(&root, Some("A"), false).unwrap().task_id, "A");
    assert_eq!(select_task(&root, Some("DONE"), false).err(), Some(6));
    assert_eq!(select_task(&root, Some("B"), true).err(), Some(6));
    assert_eq!(select_task(&root, None, false).err(), Some(2));
    assert_eq!(select_task(&doc("7"), None, true).err(), Some(2));
    assert_eq!(select_task(&doc(r#"[{"task_id":"A","status":"completed"}]"#), None, true).err(), Some(3));
    assert_eq!(select_task(&doc("[]"), None, true).err(), Some(3));
    assert_eq!(select_task(&doc(r#"[{"task_id":""}]"#), None, true).err(), Some(3));
    assert_eq!(select_task(&doc(r#"[{"title":"no id"}]"#), None, true).err(), Some(3));
    assert_eq!(select_task(&doc(r#"[{"task_id":"H","model":"human"}]"#), None, true).err(), Some(4));
    assert_eq!(select_task(&doc(r#"[{"task_id":"H","model":"human"}]"#), Some("X"), true).err(), Some(4));
}

#[test]
fn admission_checks_metadata_and_model() {
    let root = doc(&task_a(""));
    // neither a task nor the next task asked for: the request cannot be used
    assert!(matches!(
        admit_request(Some(&root), None, false),
        Admission::Rejected { exit_code: 2 }
    ));
    assert!(matches!(admit_request(None, None, false), Admission::Rejected { exit_code: 2 }));
    // what comes first in the order of the checks wins over the missing selector
    let done = doc(r#"[{"task_id":"A","status":"completed"}]"#);
    assert!(matches!(admit_request(Some(&done), None, false), Admission::Rejected { exit_code: 3 }));
    let human = doc(r#"[{"task_id":"H","model":"human"}]"#);
    assert!(matches!(admit_request(Some(&human), None, false), Admission::Rejected { exit_code: 4 }));
    assert!(matches!(admit_request(None, Some("A"), false), Admission::Rejected { exit_code: 2 }));
    assert!(matches!(
        admit_request(Some(&root), Some("B"), false),
        Admission::Rejected { exit_code: 6 }
    ));
    assert!(matches!(
        admit_request(Some(&root), Some("A"), false),
        Admission::Admitted { task } if task.task_id == "A"
    ));
    assert!(matches!(admit_request(Some(&root), None, true), Admission::Admitted { .. }));

    let no_title = doc(r#"[{"task_id":"A","model":"gpt-5.1-codex","definition_of_done":["d"],"recommended":{"approach":"a"}}]"#);
    match admit_request(Some(&no_title), None, true) {
        Admission::BadMetadata { error } => {
            assert_eq!(error.task_id, "A");
            assert_eq!(error.missing, vec!["title"]);
            assert_eq!(error.exit_code(), 2);
        }
        other => panic!("admitted without a title: {:?}", other),
    }
    // a task that lacks fields and names an unlisted model is turned down for its fields
    let both = doc(r#"[{"task_id":"A","model":"gpt-4","title":"t"}]"#);
    assert!(matches!(admit_request(Some(&both), None, true), Admission::BadMetadata { .. }));
    let odd_model = doc(r#"[{"task_id":"A","model":"gpt-4","title":"t","definition_of_done":["d"],"recommended":{"approach":"a"}}]"#);
    assert!(matches!(
        admit_request(Some(&odd_model), None, true),
        Admission::UnsupportedModel { task_id, model } if task_id == "A" && model == "gpt-4"
    ));
}

#[test]
fn decisions_between_the_steps() {
    assert_eq!(plan_attempts(0), AttemptPlan::Proceed { run_attempt: 1 });
    assert_eq!(plan_attempts(2), AttemptPlan::Proceed { run_attempt: 3 });
    assert_eq!(plan_attempts(3), AttemptPlan::Blocked { attempts: 3 });
    assert_eq!(plan_attempts(u64::MAX), AttemptPlan::Blocked { attempts: u64::MAX });

    let failed = AssemblyOutcome::Failed { code: Some(2), message: "m".to_string() };
    assert_eq!(context_decision(&AssemblyOutcome::Success, ContextFailurePolicy::Required), ContextDecision::Continue);
    assert_eq!(context_decision(&AssemblyOutcome::Interrupted, ContextFailurePolicy::BestEffort), ContextDecision::Interrupt);
    assert_eq!(context_decision(&failed, ContextFailurePolicy::Required), ContextDecision::Block);
    assert_eq!(context_decision(&failed, ContextFailurePolicy::BestEffort), ContextDecision::Warn);

    assert_eq!(decide_after_agent(1, 130, false, true, None), AgentDecision::Interrupt);
    assert_eq!(decide_after_agent(1, 0, true, true, None), AgentDecision::Interrupt);
    assert_eq!(decide_after_agent(1, 0, false, true, Some(5)), AgentDecision::Finish);
    assert_eq!(decide_after_agent(1, 1, false, false, None), AgentDecision::Finish);
    assert_eq!(decide_after_agent(1, 1, false, false, Some(3)), AgentDecision::Retry { sleep_seconds: 3 });
    assert_eq!(decide_after_agent(2, 1, false, false, Some(0)), AgentDecision::Retry { sleep_seconds: 0 });
    assert_eq!(decide_after_agent(3, 1, false, false, Some(3)), AgentDecision::Finish);
}

#[test]
fn endings_have_their_codes_statuses_and_notes() {
    let limit = Ending::AttemptLimit { attempts: 3 };
    assert_eq!((limit.exit_code(), limit.status(), limit.counts()), (11, "blocked", false));
    assert_eq!(
        limit.note("run-1"),
        "Attempt limit reached (3/3). Use --reset-task after human intervention."
    );
    let context = Ending::ContextFailed {
        note: context_failure_note(Some(2), "run-1", "Assembly exited with non-zero status", "out.log", "err.log"),
    };
    assert_eq!((context.exit_code(), context.status(), context.counts()), (13, "blocked", true));
    assert_eq!(
        context.note("run-1"),
        "Assembly failed (exit=2) for run run-1. Assembly exited with non-zero status See stdout=out.log stderr=err.log"
    );
    assert_eq!(
        context_failure_note(None, "r", "m", "o", "e"),
        "Assembly failed (exit=signal) for run r. m See stdout=o stderr=e"
    );
    let missing = Ending::MissingResult { codex_exit: -1, log_path: "x/codex.jsonl".to_string() };
    assert_eq!((missing.exit_code(), missing.status(), missing.counts()), (10, "blocked", true));
    assert_eq!(missing.note("r"), "Codex produced no result.json (exit=-1). See x/codex.jsonl");
    let done = Ending::Completed;
    assert_eq!((done.exit_code(), done.status(), done.counts(), done.finalizes()), (0, "completed", true, true));
    assert_eq!(done.note("run-1"), "Run run-1 completed");
    let progress = Ending::Progress {
        outcome: "started".to_string(),
        dod_met: true,
        verify_ok: false,
        result_path: "p/result.json".to_string(),
    };
    assert_eq!((progress.exit_code(), progress.status(), progress.counts(), progress.finalizes()), (12, "started", true, false));
    assert_eq!(
        progress.note("run-1"),
        "Run run-1 progress. reported_outcome=started dod_met=true verify_ok=false. See p/result.json"
    );
    let cancelled = Ending::Interrupted { run_attempt: 2 };
    assert_eq!((cancelled.exit_code(), cancelled.status(), cancelled.counts()), (130, "started", true));
    assert_eq!(cancelled.note("run-1"), "Run run-1 interrupted on attempt 2");
}

#[test]
fn results_are_read_leniently() {
    let report = read_result(&doc(
        r#"{"task_id":"A","outcome":"completed","dod_met":true,"summary":"s","tests":{"ran":true,"commands":[],"passed":false},"notes":"n","blockers":[]}"#,
    ));
    assert_eq!(report.outcome, "completed");
    assert!(report.dod_met);
    assert_eq!(report.summary.as_deref(), Some("s"));
    assert_eq!(report.notes, "n");
    assert!(report.tests_ran);
    assert!(!report.tests_passed);
    let report = read_result(&doc(r#"{"dod_met":"yes","tests":[]}"#));
    assert_eq!(report.outcome, "");
    assert!(!report.dod_met);
    assert_eq!(report.summary, None);
    assert!(!report.tests_ran);

    let report = read_result(&doc(r#"{"outcome":"blocked","dod_met":false}"#));
    assert!(matches!(
        conclude(&report, true, "r.json"),
        Ending::Progress { outcome, dod_met: false, verify_ok: true, result_path } if outcome == "blocked" && result_path == "r.json"
    ));
    let report = read_result(&doc(r#"{"outcome":"completed","dod_met":true}"#));
    assert!(matches!(conclude(&report, true, "r.json"), Ending::Completed));
    assert!(matches!(conclude(&report, false, "r.json"), Ending::Progress { dod_met: true, verify_ok: false, .. }));
}

/// Drives the machine through the given reports and returns the steps.
fn drive(reset: bool, context: bool, events: &[Event]) -> Vec<Step> {
    let mut phase = Phase::Start;
    let mut steps = Vec::new();
    for event in events {
        let (next, step) = advance(phase, *event, reset, context);
        phase = next;
        steps.push(step);
    }
    steps
}

fn admitted() -> Event {
    Event::Judged { rejection: None }
}

fn agent_starts(steps: &[Step]) -> usize {
    steps.iter().filter(|s| matches!(s, Step::StartAgent { .. })).count()
}

#[test]
fn scenario_happy_path() {
    let root = doc(&task_a(""));
    assert!(matches!(admit_request(Some(&root), None, true), Admission::Admitted { .. }));
    let steps = drive(false, false, &[
        admitted(),
        Event::RunOpened { attempts: current_attempt_count(&root, "A").unwrap() },
        Event::WorkspaceReady { shutdown: false },
        Event::SchemaReady { shutdown: false },
        Event::Throttled { shutdown: false },
        Event::AgentExited { exit_code: 0, shutdown: false, result_present: true, retry_delay: None },
        Event::UsageRecorded { result_present: true },
        Event::ResultRead { dod_met: true },
        Event::Verified { ok: true },
    ]);
    assert_eq!(steps, vec![
        Step::OpenRun { reset: false },
        Step::PrepareWorkspace,
        Step::EnsureSchema,
        Step::Throttle,
        Step::StartAgent { attempt: 1, sleep_seconds: 0 },
        Step::RecordUsage,
        Step::ReadResult,
        Step::Verify,
        Step::End { kind: EndKind::Completed },
    ]);
    let result = doc(r#"{"task_id":"A","outcome":"completed","dod_met":true,"summary":"","tests":{"ran":true,"commands":[],"passed":true},"notes":"","blockers":[]}"#);
    let ending = conclude(&read_result(&result), true, "result.json");
    let (after, code) = apply_ending(&root, "A", "run-1", STAMP, &ending).unwrap();
    assert_eq!(code, 0);
    assert_eq!(field(&after, 0, "status").and_then(Json::as_str), Some("completed"));
    assert_eq!(current_attempt_count(&after, "A"), Ok(1));
    assert_eq!(obs(&after, 0, "last_note").and_then(Json::as_str), Some("Run run-1 completed"));
}

#[test]
fn scenario_attempt_exhaustion() {
    let root = doc(&task_a(r#","observability":{"run_attempts":3}"#));
    let steps = drive(false, false, &[
        admitted(),
        Event::RunOpened { attempts: current_attempt_count(&root, "A").unwrap() },
    ]);
    assert_eq!(steps[1], Step::End { kind: EndKind::AttemptLimit { attempts: 3 } });
    assert_eq!(agent_starts(&steps), 0);
    let ending = ending_of(EndKind::AttemptLimit { attempts: 3 }, "", "", "", "");
    let (after, code) = apply_ending(&root, "A", "run-1", STAMP, &ending).unwrap();
    assert_eq!(code, 11);
    assert_eq!(field(&after, 0, "status").and_then(Json::as_str), Some("blocked"));
    assert_eq!(current_attempt_count(&after, "A"), Ok(3));
}

#[test]
fn scenario_reset() {
    let root = doc(&task_a(r#","observability":{"run_attempts":3}"#));
    let steps = drive(true, false, &[admitted()]);
    assert_eq!(steps, vec![Step::OpenRun { reset: true }]);
    let root = reset_task_attempts(&root, "A", "run-1", "Reset attempts via --reset-task", STAMP).unwrap();
    assert_eq!(current_attempt_count(&root, "A"), Ok(0));
    let steps = drive(true, false, &[
        admitted(),
        Event::RunOpened { attempts: 0 },
        Event::WorkspaceReady { shutdown: false },
        Event::SchemaReady { shutdown: false },
        Event::Throttled { shutdown: false },
        Event::AgentExited { exit_code: 0, shutdown: false, result_present: true, retry_delay: None },
        Event::UsageRecorded { result_present: true },
        Event::ResultRead { dod_met: true },
        Event::Verified { ok: true },
    ]);
    assert_eq!(agent_starts(&steps), 1);
    let (after, _) = apply_ending(&root, "A", "run-1", STAMP, &Ending::Completed).unwrap();
    assert_eq!(current_attempt_count(&after, "A"), Ok(1));
}

#[test]
fn scenario_rate_limit_retry() {
    let log = "{\"type\":\"error\",\"message\":\"rate limit exceeded, please try again in 2.3 seconds\"}\n";
    let delay = lever::agent::rate_limit_retry_delay(Some(log));
    assert_eq!(delay, Some(3));
    let steps = drive(false, false, &[
        admitted(),
        Event::RunOpened { attempts: 0 },
        Event::WorkspaceReady { shutdown: false },
        Event::SchemaReady { shutdown: false },
        Event::Throttled { shutdown: false },
        Event::AgentExited { exit_code: 1, shutdown: false, result_present: false, retry_delay: delay },
        Event::AgentExited { exit_code: 0, shutdown: false, result_present: true, retry_delay: None },
        Event::UsageRecorded { result_present: true },
        Event::ResultRead { dod_met: true },
        Event::Verified { ok: true },
    ]);
    assert_eq!(agent_starts(&steps), 2);
    assert_eq!(steps[5], Step::StartAgent { attempt: 2, sleep_seconds: 3 });
    assert_eq!(steps.last(), Some(&Step::End { kind: EndKind::Completed }));
    assert_eq!(Ending::Completed.exit_code(), 0);
}

#[test]
fn scenario_blocked_on_required_context() {
    let root = doc(&task_a(""));
    let outcome = AssemblyOutcome::Failed { code: Some(1), message: "Assembly exited with non-zero status".to_string() };
    let steps = drive(false, true, &[
        admitted(),
        Event::RunOpened { attempts: 0 },
        Event::WorkspaceReady { shutdown: false },
        Event::ContextBuilt { decision: context_decision(&outcome, ContextFailurePolicy::Required) },
    ]);
    assert_eq!(steps[2], Step::BuildContext);
    assert_eq!(steps[3], Step::End { kind: EndKind::ContextFailed });
    assert_eq!(agent_starts(&steps), 0);
    let note = context_failure_note(Some(1), "run-1", "Assembly exited with non-zero status", "o", "e");
    let ending = ending_of(EndKind::ContextFailed, &note, "", "", "");
    let (after, code) = apply_ending(&root, "A", "run-1", STAMP, &ending).unwrap();
    assert_eq!(code, 13);
    assert_eq!(field(&after, 0, "status").and_then(Json::as_str), Some("blocked"));
    assert_eq!(current_attempt_count(&after, "A"), Ok(1));

    // with the other policy the run goes on
    let steps = drive(false, true, &[
        admitted(),
        Event::RunOpened { attempts: 0 },
        Event::WorkspaceReady { shutdown: false },
        Event::ContextBuilt { decision: context_decision(&outcome, ContextFailurePolicy::BestEffort) },
    ]);
    assert_eq!(steps[3], Step::EnsureSchema);
}

#[test]
fn scenario_cancellation_during_agent() {
    let root = doc(&task_a(r#","observability":{"run_attempts":1}"#));
    let steps = drive(false, false, &[
        admitted(),
        Event::RunOpened { attempts: 1 },
        Event::WorkspaceReady { shutdown: false },
        Event::SchemaReady { shutdown: false },
        Event::Throttled { shutdown: false },
        Event::AgentExited { exit_code: 130, shutdown: true, result_present: false, retry_delay: None },
    ]);
    assert_eq!(steps.last(), Some(&Step::End { kind: EndKind::Interrupted { run_attempt: 2 } }));
    let (after, code) = handle_interrupt(&root, "A", "run-1", STAMP, 2).unwrap();
    assert_eq!(code, 130);
    assert_eq!(field(&after, 0, "status").and_then(Json::as_str), Some("started"));
    assert_eq!(current_attempt_count(&after, "A"), Ok(2));
    assert_eq!(
        obs(&after, 0, "last_note").and_then(Json::as_str),
        Some("Run run-1 interrupted on attempt 2")
    );
}

#[test]
fn machine_handles_the_other_paths() {
    assert_eq!(drive(false, false, &[Event::Judged { rejection: Some(2) }]), vec![Step::Exit { code: 2 }]);
    assert_eq!(drive(false, false, &[Event::Judged { rejection: Some(4) }]), vec![Step::Exit { code: 4 }]);
    // a report that does not fit is fatal
    assert_eq!(drive(false, false, &[Event::Verified { ok: true }]), vec![Step::Fatal]);
    // shutdown at each waiting point
    let steps = drive(false, true, &[admitted(), Event::RunOpened { attempts: 2 }, Event::WorkspaceReady { shutdown: true }]);
    assert_eq!(steps[2], Step::End { kind: EndKind::Interrupted { run_attempt: 3 } });
    let steps = drive(false, false, &[admitted(), Event::RunOpened { attempts: 0 }, Event::WorkspaceReady { shutdown: true }, Event::SchemaReady { shutdown: true }]);
    assert_eq!(steps[2], Step::EnsureSchema);
    assert_eq!(steps[3], Step::End { kind: EndKind::Interrupted { run_attempt: 1 } });
    let steps = drive(false, false, &[admitted(), Event::RunOpened { attempts: 0 }, Event::WorkspaceReady { shutdown: false }, Event::SchemaReady { shutdown: false }, Event::Throttled { shutdown: true }]);
    assert_eq!(steps[4], Step::End { kind: EndKind::Interrupted { run_attempt: 1 } });
    // three starts at most, then the missing result blocks
    let no_result = Event::AgentExited { exit_code: 1, shutdown: false, result_present: false, retry_delay: Some(1) };
    let steps = drive(false, false, &[
        admitted(), Event::RunOpened { attempts: 0 }, Event::WorkspaceReady { shutdown: false },
        Event::SchemaReady { shutdown: false }, Event::Throttled { shutdown: false },
        no_result, no_result, no_result, Event::UsageRecorded { result_present: false },
    ]);
    assert_eq!(agent_starts(&steps), 3);
    assert_eq!(steps[7], Step::RecordUsage);
    assert_eq!(steps[8], Step::End { kind: EndKind::MissingResult { codex_exit: 1 } });
    // a task that is not done is not verified
    let steps = drive(false, false, &[
        admitted(), Event::RunOpened { attempts: 0 }, Event::WorkspaceReady { shutdown: false },
        Event::SchemaReady { shutdown: false }, Event::Throttled { shutdown: false },
        Event::AgentExited { exit_code: 0, shutdown: false, result_present: true, retry_delay: None },
        Event::UsageRecorded { result_present: true }, Event::ResultRead { dod_met: false },
    ]);
    assert_eq!(steps[7], Step::End { kind: EndKind::Progress { dod_met: false, verify_ok: true } });
}

#[test]
fn assembly_task_input_projects_the_task() {
    let root = doc(
        r#"[{"task_id":"A","model":"gpt-5.1-codex","title":"T","definition_of_done":["one","two"],
             "recommended":{"approach":"how"},"verification":{"commands":["make test"]},"extra":1}]"#,
    );
    let selected = select_task(&root, None, true).unwrap();
    let input = build_assembly_task_input(&selected);
    let names: Vec<&str> =
        input.as_object().unwrap().iter().map(|m| m.name.as_str()).collect();
    assert_eq!(
        names,
        vec![
            "task_id",
            "title",
            "status",
            "model",
            "definition_of_done",
            "recommended",
            "verification"
        ]
    );
    assert_eq!(
        doc(&to_text(&input)),
        doc(r#"{"task_id":"A","title":"T","status":"unstarted","model":"gpt-5.1-codex","definition_of_done":["one","two"],"recommended":{"approach":"how"},"verification":{"commands":["make test"]}}"#)
    );
    let text = to_text(&input);
    let value: serde_json::Value = serde_json::from_str(&text).unwrap();
    assert_eq!(value.as_object().unwrap().len(), 7);
    assert_eq!(value["recommended"]["approach"], "how");
    assert_eq!(value["verification"]["commands"][0], "make test");
    assert_eq!(value["definition_of_done"][1], "two");
    assert!(value.get("extra").is_none());

    let bare = doc(r#"[{"task_id":"B","model":"gpt-5.1-codex","title":"T"}]"#);
    let input = build_assembly_task_input(&select_task(&bare, None, true).unwrap());
    let value: serde_json::Value = serde_json::from_str(&to_text(&input)).unwrap();
    assert_eq!(value.as_object().unwrap().len(), 6);
    assert!(value.get("verification").is_none());
}
