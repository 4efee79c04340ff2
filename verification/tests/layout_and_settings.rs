use lever::context_compile::{
    context_failure_policy_arg, resolve_context_compile_config, ContextCompileConfig,
    ContextFailurePolicy, DEFAULT_ASSEMBLY_PATH, DEFAULT_CONTEXT_TOKEN_BUDGET, DEFAULT_EXCLUDE_GIT,
    DEFAULT_EXCLUDE_RUNS,
};
use lever::driver::{StopReason, StopReasonError};
use lever::run_paths::{join_path, run_paths};

#[test]
fn context_compile_config_defaults() {
    let config = ContextCompileConfig::default();
    assert!(!config.enabled);
    assert_eq!(config.policy, ContextFailurePolicy::BestEffort);
    assert_eq!(config.token_budget, DEFAULT_CONTEXT_TOKEN_BUDGET);
    assert_eq!(config.assembly_path, String::from(DEFAULT_ASSEMBLY_PATH));
    assert_eq!(
        config.exclude_globs,
        vec![DEFAULT_EXCLUDE_GIT.to_string(), DEFAULT_EXCLUDE_RUNS.to_string()]
    );
    assert!(config.exclude_runtime_globs.is_empty());
}

#[test]
fn context_compile_default_values_are_literal() {
    let config = ContextCompileConfig::default();
    assert_eq!(config.token_budget, 8_000);
    assert_eq!(config.assembly_path, "assembly");
    assert_eq!(config.exclude_globs, vec![".git/**".to_string(), ".ralph/**".to_string()]);
    assert_eq!(ContextFailurePolicy::default(), ContextFailurePolicy::BestEffort);
}

#[test]
fn resolve_context_compile_config_applies_switches() {
    let (config, flag, policy) = resolve_context_compile_config(true, false, None);
    assert!(config.enabled);
    assert_eq!(flag, Some(true));
    assert_eq!(policy, None);
    assert_eq!(config.policy, ContextFailurePolicy::BestEffort);

    let (config, flag, policy) =
        resolve_context_compile_config(false, true, Some(ContextFailurePolicy::Required));
    assert!(!config.enabled);
    assert_eq!(flag, Some(false));
    assert_eq!(policy, Some(ContextFailurePolicy::Required));
    assert_eq!(config.policy, ContextFailurePolicy::Required);

    let (config, flag, _) = resolve_context_compile_config(false, false, None);
    assert!(!config.enabled);
    assert_eq!(flag, None);
}

#[test]
fn context_failure_policy_words() {
    assert_eq!(context_failure_policy_arg(ContextFailurePolicy::BestEffort), "best-effort");
    assert_eq!(context_failure_policy_arg(ContextFailurePolicy::Required), "required");
}

#[test]
fn stop_reason_exit_codes_map_to_nonzero() {
    let reasons = vec![
        StopReason::Human {
            task_id: "T1".to_string(),
            is_next: false,
        },
        StopReason::Dependencies {
            task_id: "T2".to_string(),
        },
        StopReason::Blocked {
            task_id: "T3".to_string(),
        },
    ];

    for reason in reasons {
        let err = StopReasonError { reason };
        assert_eq!(err.exit_code(), 1);
    }
}

#[test]
fn stop_reason_messages() {
    let next = StopReason::Human { task_id: "T1".to_string(), is_next: true };
    assert_eq!(next.message(), "Next task T1 requires human input.");
    let human = StopReason::Human { task_id: "T1".to_string(), is_next: false };
    assert_eq!(human.message(), "Task T1 requires human input.");
    let deps = StopReason::Dependencies { task_id: "T2".to_string() };
    assert_eq!(deps.message(), "Task T2 cannot start due to unmet dependencies.");
    let blocked = StopReason::Blocked { task_id: "T3".to_string() };
    assert_eq!(blocked.message(), "Task T3 blocked; manual intervention required.");
}

#[test]
fn run_paths_pack_location_is_deterministic() {
    let workspace = String::from("workspace");
    let paths = run_paths(&workspace, "TASK-1", "run-123");

    assert_eq!(paths.run_dir_rel, String::from(".ralph/runs/TASK-1/run-123"));
    assert_eq!(paths.pack_dir_rel, String::from(".ralph/runs/TASK-1/run-123/pack"));
    assert_eq!(
        paths.pack_dir_abs,
        String::from("workspace/.ralph/runs/TASK-1/run-123/pack")
    );
    assert_eq!(
        paths.prompt_path,
        String::from("workspace/.ralph/runs/TASK-1/run-123/prompt.md")
    );
    assert_eq!(
        paths.result_path_rel,
        String::from(".ralph/runs/TASK-1/run-123/result.json")
    );
    assert_eq!(
        paths.codex_log_rel,
        String::from(".ralph/runs/TASK-1/run-123/codex.jsonl")
    );
    assert_eq!(
        paths.task_snapshot_path,
        String::from("workspace/.ralph/runs/TASK-1/run-123/task.json")
    );
    assert_eq!(
        paths.assembly_task_path,
        String::from("workspace/.ralph/runs/TASK-1/run-123/assembly-task.json")
    );
    assert_eq!(
        paths.assembly_summary_path,
        String::from("workspace/.ralph/runs/TASK-1/run-123/assembly-summary.json")
    );
    assert_eq!(
        paths.assembly_stdout_path,
        String::from("workspace/.ralph/runs/TASK-1/run-123/assembly.stdout.log")
    );
    assert_eq!(
        paths.assembly_stderr_path,
        String::from("workspace/.ralph/runs/TASK-1/run-123/assembly.stderr.log")
    );
    assert_eq!(
        paths.context_compile_path,
        String::from("workspace/.ralph/runs/TASK-1/run-123/context-compile.json")
    );
}

#[test]
fn run_paths_same_inputs_same_outputs() {
    let a = run_paths("/repo", "T-9", "20260101T000000Z-42");
    let b = run_paths("/repo", "T-9", "20260101T000000Z-42");
    assert_eq!(a, b);
    assert_eq!(a.run_dir_abs, "/repo/.ralph/runs/T-9/20260101T000000Z-42");
    assert_eq!(a.result_path_abs, "/repo/.ralph/runs/T-9/20260101T000000Z-42/result.json");
    assert_eq!(a.codex_log_abs, "/repo/.ralph/runs/T-9/20260101T000000Z-42/codex.jsonl");
}

#[test]
fn join_path_follows_path_rules() {
    assert_eq!(join_path("a", "b"), "a/b");
    assert_eq!(join_path("a/", "b"), "a/b");
    assert_eq!(join_path("", "b"), "b");
    assert_eq!(join_path("a", "/b"), "/b");
    assert_eq!(join_path("a", ""), "a/");
    assert_eq!(
        std::path::Path::new("a").join("b").to_string_lossy(),
        join_path("a", "b").as_str()
    );
    assert_eq!(
        std::path::Path::new("a").join("/b").to_string_lossy(),
        join_path("a", "/b").as_str()
    );
    assert_eq!(
        std::path::Path::new("a/").join("").to_string_lossy(),
        join_path("a/", "").as_str()
    );
}
