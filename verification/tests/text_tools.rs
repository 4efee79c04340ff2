use lever::agent::{
    build_prompt, codex_args, compact_text, log_line, parse_usage_tokens, prefers_stdout,
    rate_limit_retry_delay, run_id, split_lines, stream_line, task_agent_args, usage_of_record,
    RecordUsage,
};
use lever::assembly_contract::{
    command_result, help_probe_args, required_build_flags, validate_assembly_contract,
    validate_build_help, version_probe_args, AssemblyContractError, CommandOutcome,
};
use lever::commit::{
    capitalize_first_char, commit_subject_from_title, truncate_commit_subject,
};
use lever::context_compile::ContextFailurePolicy;
use lever::guard::{
    after_apply, after_checkout, base_branch, checkout_task_branch, finalize_successful_task,
    find_stash_ref, git_commit_progress, parse_file_list, record_dirty_files, remember_workspace,
    restore_warning, stash_message, status_is_dirty, task_branch, task_branch_ref, LeaveReason,
    RestoreDecision, RestoreStart,
};
use lever::json_text::{parse_json, to_text, to_text_pretty};
use lever::paths::{
    canonicalize_or_fallback, default_prompt_path, is_internal_task_agent,
    is_legacy_task_agent_path, prompt_candidate, resolve_command_path, resolve_prompt_path,
    resolve_relative_to_workspace, resolve_tasks_path, resolve_workspace, workspace_candidate,
    workspace_location, CommandPath, CommandPathPlan, PathError,
};
use lever::task_metadata::validate_task_metadata;
use lever::text::{
    chars_of, i64_text, join_strings, str_contains, str_eq, string_of, trim_str, u64_text,
};
use lever::verification::{
    has_python_tests, is_executable, is_python_file, makefile_has_ci, plan_verification,
    run_verification, verification_script, MakefileProbe, Probes, VerificationPlan,
    VerificationResult, VerifyError,
};

fn strings(list: &[&str]) -> Vec<String> {
    list.iter().map(|s| s.to_string()).collect()
}

#[test]
fn commit_subject_examples() {
    assert_eq!(commit_subject_from_title("fix the  parser.", "T1"), "Fix the parser");
    assert_eq!(commit_subject_from_title("  add\n\tlogging\r\n", "T1"), "Add logging");
    assert_eq!(commit_subject_from_title("Already fine", "T1"), "Already fine");
    assert_eq!(commit_subject_from_title("...", "T1"), "Update T1");
    assert_eq!(commit_subject_from_title("", "T1"), "Update T1");
    assert_eq!(commit_subject_from_title("  \n ", "task 9"), "Update task 9");
    assert_eq!(commit_subject_from_title("énorme changement", "T1"), "énorme changement");
    assert_eq!(commit_subject_from_title("9 lives", "T1"), "9 lives");
    assert_eq!(commit_subject_from_title("a. .", "T1"), "A");
    assert_eq!(commit_subject_from_title("a. . .", "T1"), "A");
    assert_eq!(commit_subject_from_title("abc. . .", "T1"), "Abc");
    assert_eq!(commit_subject_from_title("Abc.", "T1"), "Abc");
    assert_eq!(commit_subject_from_title("abc . . \n.", "T1"), "Abc");
    let fifty = "aaaaaaaaaa bbbbbbbbbb cccccccccc dddddddddd eeeeee";
    assert_eq!(fifty.chars().count(), 50);
    assert_eq!(
        commit_subject_from_title(fifty, "T1"),
        "Aaaaaaaaaa bbbbbbbbbb cccccccccc dddddddddd eeeeee"
    );
    let fifty_one = "aaaaaaaaaa bbbbbbbbbb cccccccccc dddddddddd eeeeeee";
    assert_eq!(
        commit_subject_from_title(fifty_one, "T1"),
        "Aaaaaaaaaa bbbbbbbbbb cccccccccc dddddddddd"
    );
    let long = "implement the sliding window ledger with persistence and pruning";
    let subject = commit_subject_from_title(long, "T1");
    assert_eq!(subject, "Implement the sliding window ledger with");
    assert!(subject.chars().count() <= 50);
    let unbroken = "x".repeat(80);
    assert_eq!(commit_subject_from_title(&unbroken, "T1"), format!("X{}", "x".repeat(49)));
    // the first fifty characters hold only stops and a space
    let odd = format!("... {}", "y".repeat(60));
    assert_eq!(commit_subject_from_title(&odd, "T7"), "Update T7");
}

#[test]
fn commit_subject_is_stable_when_applied_again() {
    for title in [
        "fix the  parser.",
        "  add\n\tlogging\r\n",
        "implement the sliding window ledger with persistence and pruning",
        "",
        "one two three four five six seven eight nine ten eleven twelve",
        "exactly fifty characters long title for the test x",
        "aaaaaaaaaa bbbbbbbbbb cccccccccc dddddddddd eeeeee",
        "abc. . .",
        "a . . . . .",
        "ends in stops and spaces. . \t . ",
        ". leading stop",
        "...",
        "... yyyyyyyyyyyyyyyyyyyyyyyyyyyyyyyyyyyyyyyyyyyyyyyyyyyyyyyyyyyy",
    ] {
        let once = commit_subject_from_title(title, "T1");
        assert_eq!(commit_subject_from_title(&once, "T1"), once, "title {:?}", title);
    }
}

#[test]
fn truncate_and_capitalize() {
    assert_eq!(truncate_commit_subject("short", 50), "short");
    assert_eq!(truncate_commit_subject("one two three", 7), "one");
    assert_eq!(truncate_commit_subject("one two three", 8), "one two");
    assert_eq!(truncate_commit_subject("onetwothree", 5), "onetw");
    assert_eq!(truncate_commit_subject("one  two", 5), "one");
    assert_eq!(truncate_commit_subject("abcde", 5), "abcde");
    assert_eq!(truncate_commit_subject("ab de", 5), "ab de");
    assert_eq!(truncate_commit_subject("ab def", 5), "ab");
    assert_eq!(
        truncate_commit_subject("aaaaaaaaaa bbbbbbbbbb cccccccccc dddddddddd eeeeee", 50),
        "aaaaaaaaaa bbbbbbbbbb cccccccccc dddddddddd eeeeee"
    );
    assert_eq!(truncate_commit_subject("abc", 0), "");
    assert_eq!(truncate_commit_subject("", 0), "");
    assert_eq!(truncate_commit_subject("ééé ééé", 5), "ééé");
    assert_eq!(capitalize_first_char("abc".to_string()), "Abc");
    assert_eq!(capitalize_first_char("Abc".to_string()), "Abc");
    assert_eq!(capitalize_first_char("éa".to_string()), "éa");
    assert_eq!(capitalize_first_char("1a".to_string()), "1a");
    assert_eq!(capitalize_first_char(String::new()), "");
    assert_eq!(capitalize_first_char("z".to_string()), "Z");
}

#[test]
fn text_helpers() {
    assert_eq!(string_of(&chars_of("héllo")), "héllo");
    assert!(str_eq("a", "a"));
    assert!(!str_eq("a", "b"));
    assert!(!str_eq("a", "ab"));
    assert!(str_contains("hello world", "o w"));
    assert!(str_contains("hello", ""));
    assert!(str_contains("", ""));
    assert!(!str_contains("hello", "world"));
    assert!(!str_contains("ab", "abc"));
    assert_eq!(trim_str("  a b \n"), "a b");
    assert_eq!(trim_str("\u{00a0}\u{3000}x\u{2003}"), "x");
    assert_eq!(trim_str("   "), "");
    assert_eq!(trim_str("  a b \n"), "  a b \n".trim());
    assert_eq!(u64_text(0), "0");
    assert_eq!(u64_text(9001), "9001");
    assert_eq!(u64_text(u64::MAX), u64::MAX.to_string());
    assert_eq!(i64_text(-1), "-1");
    assert_eq!(i64_text(i64::MIN), i64::MIN.to_string());
    assert_eq!(i64_text(i64::MAX), i64::MAX.to_string());
    assert_eq!(join_strings(&strings(&["a", "b", "c"]), ", "), "a, b, c");
    assert_eq!(join_strings(&strings(&["a"]), ", "), "a");
    assert_eq!(join_strings(&Vec::new(), ", "), "");
}

#[test]
fn white_space_is_what_the_standard_library_calls_it() {
    for code in 0u32..0x3100 {
        if let Some(c) = char::from_u32(code) {
            let text = format!("{}x{}", c, c);
            assert_eq!(trim_str(&text), text.trim(), "U+{:04X}", code);
        }
    }
}

#[test]
fn retry_delay_is_read_from_the_log() {
    assert_eq!(
        rate_limit_retry_delay(Some("rate limit exceeded, please try again in 2.3 seconds")),
        Some(3)
    );
    assert_eq!(
        rate_limit_retry_delay(Some("Rate-Limit hit. Please Try Again In 20s")),
        Some(20)
    );
    assert_eq!(rate_limit_retry_delay(Some("rate limit; please try again in 0.0s")), Some(0));
    assert_eq!(rate_limit_retry_delay(Some("please try again in 5s")), None);
    assert_eq!(rate_limit_retry_delay(Some("rate limit reached")), None);
    assert_eq!(rate_limit_retry_delay(Some("rate limit: please try again in soon")), None);
    assert_eq!(rate_limit_retry_delay(Some("rate limit: please try again in 1.2.3s")), None);
    assert_eq!(rate_limit_retry_delay(Some("rate limit: please try again in ")), None);
    assert_eq!(
        rate_limit_retry_delay(Some(
            "rate limit: please try again in x; later: please try again in 9"
        )),
        None
    );
    assert_eq!(rate_limit_retry_delay(Some("")), None);
    assert_eq!(rate_limit_retry_delay(None), None);
}

#[test]
fn usage_is_read_from_the_log() {
    let log = [
        "plain text",
        "{\"type\":\"turn.started\"}",
        "  {\"type\":\"turn.completed\",\"usage\":{\"input_tokens\":10,\"output_tokens\":5}}\r",
        "{broken",
        "{\"type\":\"turn.completed\",\"usage\":{\"total_tokens\":40,\"input_tokens\":1}}",
        "{\"type\":\"turn.completed\",\"usage\":{\"total_tokens\":0}}",
        "",
    ]
    .join("\n");
    let log = log.as_str();
    assert_eq!(parse_usage_tokens(Some(log)), Some(40));
    assert_eq!(
        parse_usage_tokens(Some(
            "{\"type\":\"turn.completed\",\"usage\":{\"prompt_tokens\":7,\"completion_tokens\":8}}"
        )),
        Some(15)
    );
    assert_eq!(
        parse_usage_tokens(Some(
            "{\"type\":\"turn.completed\",\"usage\":{\"input_tokens\":\"x\",\"prompt_tokens\":7,\"output_tokens\":2}}"
        )),
        Some(2)
    );
    // a completed turn without usage is passed over: the last total named wins
    assert_eq!(
        parse_usage_tokens(Some(
            "{\"type\":\"turn.completed\",\"usage\":{\"total_tokens\":9}}\n{\"type\":\"turn.completed\"}"
        )),
        Some(9)
    );
    assert_eq!(
        parse_usage_tokens(Some(
            "{\"type\":\"turn.completed\",\"usage\":{\"total_tokens\":9}}\n{\"type\":\"turn.completed\"}\n{\"type\":\"turn.completed\",\"usage\":{\"total_tokens\":3}}"
        )),
        Some(3)
    );
    assert_eq!(parse_usage_tokens(Some("{\"type\":\"turn.completed\"}")), None);
    assert_eq!(parse_usage_tokens(Some("")), None);
    assert_eq!(parse_usage_tokens(Some("no records here")), None);
    assert_eq!(parse_usage_tokens(None), None);

    let record = parse_json("{\"type\":\"turn.completed\",\"usage\":{\"total_tokens\":-4}}").unwrap();
    assert_eq!(usage_of_record(&record), RecordUsage::Skip);
    let record = parse_json("{\"type\":\"turn.completed\",\"usage\":{\"input_tokens\":9223372036854775807,\"output_tokens\":9223372036854775807}}").unwrap();
    assert_eq!(usage_of_record(&record), RecordUsage::Tokens(2 * (i64::MAX as u64)));
    let record = parse_json("{\"type\":\"other\",\"usage\":{\"total_tokens\":4}}").unwrap();
    assert_eq!(usage_of_record(&record), RecordUsage::Skip);
    let record = parse_json("[1]").unwrap();
    assert_eq!(usage_of_record(&record), RecordUsage::Skip);
}

#[test]
fn lines_are_split_like_the_standard_library_does() {
    for text in ["", "a", "a\n", "a\nb", "a\r\nb\r\n", "\n", "\n\n", "a\n\nb", "\r\n", "a\rb\n", "x\r"] {
        let ours: Vec<String> =
            split_lines(&text.chars().collect()).iter().map(|l| l.iter().collect()).collect();
        let theirs: Vec<String> = text.lines().map(str::to_string).collect();
        if text.ends_with('\r') {
            continue;
        }
        assert_eq!(ours, theirs, "text {:?}", text);
    }
    let ours: Vec<String> =
        split_lines(&"x\r".chars().collect()).iter().map(|l| l.iter().collect()).collect();
    assert_eq!(ours, vec!["x\r".to_string()]);
}

#[test]
fn compact_text_and_log_lines() {
    assert_eq!(compact_text("a\nb\rc", 10), "a b c");
    assert_eq!(compact_text("abcdef", 3), "abc...");
    assert_eq!(compact_text("abc", 3), "abc");
    assert_eq!(compact_text("", 0), "");
    assert_eq!(
        log_line("2026-01-02T03:04:05Z", "INFO", "Task\nselected", &strings(&["task_id=A", "model=m"])),
        "2026-01-02T03:04:05Z INFO task-agent Task selected task_id=A model=m"
    );
    assert_eq!(log_line("ts", "WARN", "msg", &Vec::new()), "ts WARN task-agent msg");
    assert!(prefers_stdout("INFO"));
    assert!(!prefers_stdout("WARN"));
    assert!(!prefers_stdout("ERROR"));
    assert_eq!(
        stream_line("ts", "{\"a\":1}", "A", "run-1"),
        "ts INFO codex raw {\"a\":1} task_id=A run_id=run-1"
    );
    assert_eq!(run_id("20260102T030405Z", 4242), "20260102T030405Z-4242");
}

#[test]
fn prompt_is_assembled_in_order() {
    let prompt = build_prompt("BASE", "Title", &strings(&["one", "two"]), "approach", "{\"task_id\":\"A\"}\n");
    assert_eq!(
        prompt,
        "BASE\n\nTask title: Title\n\nDefinition of done:\n  - one\n  - two\n\nRecommended approach:\napproach\n\nTask JSON (authoritative):\n{\"task_id\":\"A\"}\n"
    );
    let prompt = build_prompt("", "", &Vec::new(), "", "{}");
    assert_eq!(
        prompt,
        "\n\nTask title: \n\nDefinition of done:\n\nRecommended approach:\n\n\nTask JSON (authoritative):\n{}\n"
    );
}

#[test]
fn agent_command_lines() {
    assert_eq!(
        codex_args("gpt-5.1-codex", ".ralph/task_result.schema.json", ".ralph/runs/A/r/result.json"),
        strings(&[
            "exec", "--yolo", "--model", "gpt-5.1-codex", "--output-schema",
            ".ralph/task_result.schema.json", "--output-last-message",
            ".ralph/runs/A/r/result.json", "--json", "--skip-git-repo-check", "-",
        ])
    );
    assert_eq!(
        task_agent_args("t.json", "/w", "p.md", Some("me"), Some("O"), Some("E"), true, true, Some(true), Some(ContextFailurePolicy::Required)),
        strings(&[
            "--tasks", "t.json", "--workspace", "/w", "--prompt", "p.md", "--assignee", "me",
            "--task-id", "O", "--reset-task", "--context-compile", "--context-failure-policy", "required",
        ])
    );
    assert_eq!(
        task_agent_args("t.json", "/w", "p.md", None, None, Some("E"), true, false, Some(false), Some(ContextFailurePolicy::BestEffort)),
        strings(&[
            "--tasks", "t.json", "--workspace", "/w", "--prompt", "p.md", "--task-id", "E",
            "--no-context-compile", "--context-failure-policy", "best-effort",
        ])
    );
    assert_eq!(
        task_agent_args("t.json", "/w", "p.md", None, None, None, true, false, None, None),
        strings(&["--tasks", "t.json", "--workspace", "/w", "--prompt", "p.md", "--next"])
    );
    assert_eq!(
        task_agent_args("t.json", "/w", "p.md", None, None, None, false, false, None, None),
        strings(&["--tasks", "t.json", "--workspace", "/w", "--prompt", "p.md"])
    );
}

#[test]
fn json_text_goes_through_the_codec() {
    let tree = parse_json(r#"{"b":[1,-2,3.5,"x",null,true],"a":{"nested":{}}}"#).unwrap();
    let compact = to_text(&tree);
    assert_eq!(compact, r#"{"a":{"nested":{}},"b":[1,-2,3.5,"x",null,true]}"#);
    let pretty = to_text_pretty(&tree);
    assert!(pretty.contains("\n  \"a\": {"));
    assert_eq!(parse_json(&pretty), Some(tree));
    assert_eq!(parse_json("{not json"), None);
    assert_eq!(parse_json(""), None);
    // the tree is what is written, not the text that was read
    assert_ne!(to_text(&parse_json("[1, 2]").unwrap()), "[1, 2]");
    assert_eq!(to_text(&parse_json("[1, 2]").unwrap()), "[1,2]");
    assert_eq!(to_text(&parse_json("1e2").unwrap()), "100.0");
    assert_eq!(to_text(&parse_json("18446744073709551615").unwrap()), "18446744073709551615");
}

#[test]
fn metadata_is_validated() {
    let good = parse_json(r#"{"title":"t","definition_of_done":["d"],"recommended":{"approach":"a"}}"#).unwrap();
    assert!(validate_task_metadata("A", &good).is_ok());
    let err = validate_task_metadata("A", &parse_json("{}").unwrap()).unwrap_err();
    assert_eq!(err.task_id, "A");
    assert_eq!(err.missing, vec!["title", "definition_of_done", "recommended.approach"]);
    assert_eq!(err.exit_code(), 2);
    assert_eq!(
        err.message(),
        "Task A missing required metadata: title, definition_of_done, recommended.approach"
    );
    let cases = [
        (r#"{"title":"","definition_of_done":["d"],"recommended":{"approach":"a"}}"#, vec!["title"]),
        (r#"{"title":7,"definition_of_done":["d"],"recommended":{"approach":"a"}}"#, vec!["title"]),
        (r#"{"title":"t","definition_of_done":[],"recommended":{"approach":"a"}}"#, vec!["definition_of_done"]),
        (r#"{"title":"t","definition_of_done":["d",""],"recommended":{"approach":"a"}}"#, vec!["definition_of_done"]),
        (r#"{"title":"t","definition_of_done":["d",1],"recommended":{"approach":"a"}}"#, vec!["definition_of_done"]),
        (r#"{"title":"t","definition_of_done":"d","recommended":{"approach":"a"}}"#, vec!["definition_of_done"]),
        (r#"{"title":"t","definition_of_done":["d"],"recommended":{"approach":""}}"#, vec!["recommended.approach"]),
        (r#"{"title":"t","definition_of_done":["d"],"recommended":{"approach":"a","more":1}}"#, vec!["recommended.approach"]),
        (r#"{"title":"t","definition_of_done":["d"],"recommended":{"other":"a"}}"#, vec!["recommended.approach"]),
        (r#"{"title":"t","definition_of_done":["d"],"recommended":"a"}"#, vec!["recommended.approach"]),
        (r#"["title"]"#, vec!["title", "definition_of_done", "recommended.approach"]),
    ];
    for (text, missing) in cases {
        let err = validate_task_metadata("T", &parse_json(text).unwrap()).unwrap_err();
        assert_eq!(err.missing, missing, "task {}", text);
    }
}

#[test]
fn assembly_contract_is_checked() {
    let help = "Usage: assembly build --repo <R> --task <T> --task-id <ID> --out <O> --token-budget <N> [--exclude <G>] [--exclude-runtime <G>] --summary-json <P>";
    assert!(validate_build_help(help).is_ok());
    match validate_build_help("--repo --task --out --exclude") {
        Err(AssemblyContractError::MissingBuildFlags { missing }) => {
            assert_eq!(missing, vec!["--task-id", "--token-budget", "--exclude-runtime", "--summary-json"]);
        }
        other => panic!("flags were not missed: {:?}", other),
    }
    match validate_build_help("") {
        Err(e) => {
            assert!(matches!(&e, AssemblyContractError::MissingBuildFlags { missing } if missing == &required_build_flags()));
            assert_eq!(
                e.message(),
                "Assembly CLI contract mismatch (version 2026-02-16): missing required build flags: --repo, --task, --task-id, --out, --token-budget, --exclude, --exclude-runtime, --summary-json. See docs/assembly-contract.md."
            );
        }
        Ok(()) => panic!("an empty help text was accepted"),
    }
    assert_eq!(version_probe_args(), vec!["--version"]);
    assert_eq!(help_probe_args(), vec!["build", "--help"]);

    let ok = |text: &str| command_result("assembly", &help_probe_args(), CommandOutcome::Finished {
        success: true, code: Some(0), stdout: text.to_string(), stderr: String::new(),
    });
    assert!(validate_assembly_contract(ok("1.0"), ok(help)).is_ok());
    assert!(matches!(
        validate_assembly_contract(ok("1.0"), ok("nothing")),
        Err(AssemblyContractError::MissingBuildFlags { .. })
    ));
    let gone = command_result("assembly", &version_probe_args(), CommandOutcome::NotFound);
    match validate_assembly_contract(gone, ok(help)) {
        Err(e) => {
            assert!(matches!(&e, AssemblyContractError::MissingDependency { command } if command == "assembly"));
            assert_eq!(e.message(), "Missing dependency: assembly");
        }
        Ok(()) => panic!("a missing command was accepted"),
    }
    let failed = command_result("assembly", &help_probe_args(), CommandOutcome::Finished {
        success: false, code: Some(2), stdout: " out ".to_string(), stderr: "err \n".to_string(),
    });
    match validate_assembly_contract(ok("1.0"), failed) {
        Err(e) => {
            assert!(matches!(&e, AssemblyContractError::CommandFailed { command, status: Some(2), output }
                if command == "assembly build --help" && output == "out err"));
            assert_eq!(
                e.message(),
                "Assembly contract validation failed (version 2026-02-16): command 'assembly build --help' exited Some(2). out err"
            );
        }
        Ok(()) => panic!("a failed command was accepted"),
    }
    let spawn = command_result("assembly", &version_probe_args(), CommandOutcome::SpawnFailed { reason: "denied".to_string() });
    match spawn {
        Err(e) => assert_eq!(
            e.message(),
            "Assembly contract validation failed (version 2026-02-16): command 'assembly --version' exited None. denied"
        ),
        Ok(_) => panic!("a command that did not start gave text"),
    }
    let both = command_result("a", &version_probe_args(), CommandOutcome::Finished {
        success: true, code: Some(0), stdout: "out".to_string(), stderr: "err".to_string(),
    });
    assert_eq!(both.unwrap(), "outerr");
}

#[test]
fn guard_reads_what_git_prints() {
    assert_eq!(parse_file_list("a.rs\n  b.rs  \n\n\r\nc d.rs\n"), strings(&["a.rs", "b.rs", "c d.rs"]));
    assert!(parse_file_list("").is_empty());
    assert_eq!(
        record_dirty_files("a\nb\n", "b\nc\n", "a\nd\n"),
        strings(&["a", "b", "c", "d"])
    );
    assert!(status_is_dirty(" M src/lib.rs\n"));
    assert!(!status_is_dirty("\n  \n"));
    assert!(!status_is_dirty(""));
    let label = stash_message("20260102T030405Z", 77);
    assert_eq!(label, "ralph(task-agent): auto-stash 20260102T030405Z-77");
    let list = format!("stash@{{0}} On main: other\nstash@{{1}} On main: {}\nstash@{{2}} On main: {}\n", label, label);
    assert_eq!(find_stash_ref(&list, &label), Some("stash@{1}".to_string()));
    assert_eq!(find_stash_ref("stash@{0} On main: other\n", &label), None);
    assert_eq!(find_stash_ref("", &label), None);
    assert_eq!(find_stash_ref("  \t ref  rest x\n", "x"), Some("ref".to_string()));
    assert_eq!(base_branch(None), "main");
    assert_eq!(base_branch(Some("develop")), "develop");
    assert_eq!(task_branch("T-1"), "ralph/T-1");
    assert_eq!(task_branch_ref("T-1"), "refs/heads/ralph/T-1");
    assert_eq!(checkout_task_branch("T-1", true), strings(&["checkout", "ralph/T-1"]));
    assert_eq!(checkout_task_branch("T-1", false), strings(&["checkout", "-b", "ralph/T-1"]));
}

#[test]
fn guard_gives_back_only_what_is_safe() {
    let clean = remember_workspace("/w", "main\n", "abc123\n", None, None);
    assert_eq!(clean.orig_branch, "main");
    assert_eq!(clean.orig_head, "abc123");
    assert_eq!(clean.pre_run_head, "abc123");
    assert_eq!(clean.restore_start(), RestoreStart::Nothing);
    assert_eq!(clean.restore_local_changes(Some("a.rs\n")), RestoreDecision::Nothing);
    let no_stash = remember_workspace("/w", "main", "abc", Some(strings(&["a.rs"])), None);
    assert_eq!(no_stash.restore_local_changes(Some("z.rs\n")), RestoreDecision::Nothing);
    assert_eq!(no_stash.restore_local_changes(None), RestoreDecision::Nothing);

    let odd = remember_workspace("/w", "main", "abc", None, Some("stash@{0}".to_string()));
    assert_eq!(odd.restore_start(), RestoreStart::MissingDirtyList);
    assert_eq!(
        odd.restore_local_changes(Some("a.rs\n")),
        RestoreDecision::Leave(LeaveReason::MissingDirtyList)
    );

    let guard = remember_workspace("/w", "main\n", "abc\n", Some(strings(&["a.rs", "b.rs"])), Some("stash@{0}".to_string()));
    assert_eq!(guard.restore_start(), RestoreStart::ListRunChanges);
    assert_eq!(guard.run_changes_args(), strings(&["diff", "--name-only", "abc", "HEAD"]));
    assert_eq!(guard.restore_local_changes(None), RestoreDecision::Leave(LeaveReason::RunChangesUnknown));
    assert_eq!(guard.restore_local_changes(Some("c.rs\nb.rs\n")), RestoreDecision::Leave(LeaveReason::Overlap));
    assert_eq!(guard.restore_local_changes(Some("c.rs\n")), RestoreDecision::Checkout { detach: false });
    assert_eq!(guard.restore_local_changes(Some("")), RestoreDecision::Checkout { detach: false });
    assert_eq!(guard.checkout_args(false), strings(&["checkout", "main"]));

    let detached = remember_workspace("/w", "HEAD\n", "abc\n", Some(strings(&["a.rs"])), Some("stash@{0}".to_string()));
    assert_eq!(detached.restore_local_changes(Some("z")), RestoreDecision::Checkout { detach: true });
    assert_eq!(detached.checkout_args(true), strings(&["checkout", "--detach", "abc"]));

    assert_eq!(after_checkout(true), None);
    assert_eq!(after_checkout(false), Some(LeaveReason::CheckoutFailed));
    assert_eq!(after_apply(true), None);
    assert_eq!(after_apply(false), Some(LeaveReason::ApplyFailed));
    assert_eq!(
        restore_warning(LeaveReason::Overlap, "stash@{0}", "main"),
        "Warning: stash stash@{0} overlaps run changes; apply manually."
    );
    assert_eq!(
        restore_warning(LeaveReason::CheckoutFailed, "s", "HEAD"),
        "Warning: unable to restore detached HEAD; leaving s."
    );
    assert_eq!(
        restore_warning(LeaveReason::CheckoutFailed, "s", "main"),
        "Warning: unable to checkout main; leaving s."
    );
    assert_eq!(
        restore_warning(LeaveReason::MissingDirtyList, "s", "main"),
        "Warning: missing dirty file list; leaving s for manual apply."
    );
    assert_eq!(
        restore_warning(LeaveReason::RunChangesUnknown, "s", "main"),
        "Warning: unable to compute run changes; leaving s for manual apply."
    );
    assert_eq!(
        restore_warning(LeaveReason::ApplyFailed, "s", "main"),
        "Warning: stash s could not be applied cleanly; leaving stash for manual apply."
    );
}

#[test]
fn commits_and_the_final_merge() {
    assert_eq!(git_commit_progress("", "title", "T"), None);
    assert_eq!(git_commit_progress(" \n", "title", "T"), None);
    assert_eq!(git_commit_progress(" M a.rs\n", "fix it.", "T"), Some("Fix it".to_string()));
    let calls = finalize_successful_task("T-1", "fix it.", "main");
    let args: Vec<Vec<String>> = calls.iter().map(|c| c.args.clone()).collect();
    assert_eq!(
        args,
        vec![
            strings(&["checkout", "ralph/T-1"]),
            strings(&["rebase", "main"]),
            strings(&["reset", "--soft", "main"]),
            strings(&["add", "-A"]),
            strings(&["commit", "-m", "Fix it"]),
            strings(&["checkout", "main"]),
            strings(&["merge", "--ff-only", "ralph/T-1"]),
            strings(&["branch", "-D", "ralph/T-1"]),
        ]
    );
    let passed_over: Vec<bool> = calls.iter().map(|c| c.best_effort).collect();
    assert_eq!(passed_over, vec![false, true, false, false, false, false, false, false]);
}

#[test]
fn verification_is_planned_by_priority() {
    let nothing = || Probes {
        ci_script: false,
        makefile: MakefileProbe::Missing,
        tests_script: false,
        pytest_available: false,
        python_tests: false,
    };
    let argv = |plan: Result<VerificationPlan, VerifyError>| match plan {
        Ok(VerificationPlan::Command { argv }) => argv,
        other => panic!("no command was planned: {:?}", other),
    };
    let own = strings(&["make test", "cargo fmt --check"]);
    match plan_verification(&own, &nothing()) {
        Ok(VerificationPlan::Script { script }) => {
            assert_eq!(script, "set -euo pipefail\nmake test\ncargo fmt --check\n");
            assert_eq!(script, verification_script(&own));
        }
        other => panic!("the task's commands were not taken: {:?}", other),
    }
    let none: Vec<String> = Vec::new();
    assert!(matches!(plan_verification(&none, &nothing()), Ok(VerificationPlan::Nothing)));
    let all = Probes {
        ci_script: true,
        makefile: MakefileProbe::Text("ci:\n\ttrue\n".to_string()),
        tests_script: true,
        pytest_available: true,
        python_tests: true,
    };
    assert_eq!(argv(plan_verification(&none, &all)), strings(&["./scripts/ci.sh"]));
    assert_eq!(argv(plan_verification(&none, &Probes { ci_script: false, ..all })), strings(&["make", "ci"]));
    let all = Probes {
        ci_script: false,
        makefile: MakefileProbe::Text("build:\n\ttrue\n".to_string()),
        tests_script: true,
        pytest_available: true,
        python_tests: true,
    };
    assert_eq!(argv(plan_verification(&none, &all)), strings(&["./tests/run.sh"]));
    assert_eq!(argv(plan_verification(&none, &Probes { tests_script: false, ..all })), strings(&["pytest", "-q"]));
    let all = Probes { makefile: MakefileProbe::Missing, tests_script: false, pytest_available: true, python_tests: false, ..nothing() };
    assert!(matches!(plan_verification(&none, &all), Ok(VerificationPlan::Nothing)));
    let all = Probes { makefile: MakefileProbe::Missing, pytest_available: false, python_tests: true, ..nothing() };
    assert!(matches!(plan_verification(&none, &all), Ok(VerificationPlan::Nothing)));
    let unreadable = Probes { makefile: MakefileProbe::Unreadable, tests_script: true, ..nothing() };
    assert!(matches!(plan_verification(&none, &unreadable), Err(VerifyError::MakefileUnreadable)));
    let unreadable = Probes { ci_script: true, makefile: MakefileProbe::Unreadable, ..nothing() };
    assert_eq!(argv(plan_verification(&none, &unreadable)), strings(&["./scripts/ci.sh"]));
    assert!(matches!(plan_verification(&own, &Probes { makefile: MakefileProbe::Unreadable, ..nothing() }), Ok(VerificationPlan::Script { .. })));
}

#[test]
fn verification_results_and_probes() {
    assert_eq!(VerificationResult::skipped(), VerificationResult { ok: true, log_command: None });
    let script = VerificationPlan::Script { script: "x".to_string() };
    assert_eq!(
        run_verification(&script, false),
        VerificationResult { ok: false, log_command: Some("task.verification.commands".to_string()) }
    );
    let command = VerificationPlan::Command { argv: strings(&["make", "ci"]) };
    assert_eq!(
        run_verification(&command, true),
        VerificationResult { ok: true, log_command: Some("make ci".to_string()) }
    );
    assert_eq!(run_verification(&VerificationPlan::Nothing, false), VerificationResult::skipped());

    assert!(makefile_has_ci("all:\n  ci: deps\n"));
    assert!(makefile_has_ci("ci:"));
    assert!(!makefile_has_ci("all: ci\n# ci:\n"));
    assert!(!makefile_has_ci("c i:\n"));
    assert!(!makefile_has_ci(""));
    assert!(is_executable(true, Some(0o755)));
    assert!(is_executable(true, Some(0o001)));
    assert!(!is_executable(true, Some(0o644)));
    assert!(is_executable(true, None));
    assert!(!is_executable(false, Some(0o755)));
    assert!(has_python_tests(true, None));
    assert!(has_python_tests(false, Some(true)));
    assert!(!has_python_tests(false, Some(false)));
    assert!(!has_python_tests(false, None));
    for name in ["a.py", "a.b.py", "test_x.py", ".py", "py", "a.pyc", "a.py.txt", "a.", "", ".a.py", "a.PY"] {
        let expected =
            std::path::Path::new(name).extension().and_then(|e| e.to_str()) == Some("py");
        assert_eq!(is_python_file(name), expected, "name {:?}", name);
    }
}

#[test]
fn paths_are_resolved_by_rule() {
    assert_eq!(resolve_relative_to_workspace("a/b", "/w"), "/w/a/b");
    assert_eq!(resolve_relative_to_workspace("/a/b", "/w"), "/a/b");
    assert_eq!(default_prompt_path("/w"), "/w/prompts/autonomous-senior-engineer.prompt.md");
    assert_eq!(workspace_candidate(None), ".");
    assert_eq!(workspace_candidate(Some("/w")), "/w");
    assert_eq!(resolve_workspace("/w", true).unwrap(), "/w");
    let err = resolve_workspace("/w", false).unwrap_err();
    assert_eq!(err.message("/w"), "Workspace not found: /w");
    assert_eq!(prompt_candidate(Some("p.md"), "/w"), "/w/p.md");
    assert_eq!(prompt_candidate(None, "/w"), "/w/prompts/autonomous-senior-engineer.prompt.md");
    assert_eq!(resolve_prompt_path("/w/p.md", true).unwrap(), "/w/p.md");
    assert_eq!(resolve_prompt_path("/w/p.md", false).unwrap_err().message(""), "Prompt file not found: /w/p.md");

    assert_eq!(resolve_tasks_path(Some("t.json"), "/w", true, true, true).unwrap(), "/w/t.json");
    let err = resolve_tasks_path(Some("t.json"), "/w", false, true, true).unwrap_err();
    assert!(matches!(&err, PathError::TasksFileMissing { named } if named == "t.json"));
    assert_eq!(err.message("/w"), "The specified tasks file t.json does not exist or is not a file");
    assert_eq!(resolve_tasks_path(None, "/w", false, true, true).unwrap(), "/w/prd.json");
    assert_eq!(resolve_tasks_path(None, "/w", false, false, true).unwrap(), "/w/tasks.json");
    let err = resolve_tasks_path(None, "/w", true, false, false).unwrap_err();
    assert_eq!(
        err.message(&workspace_location("/w", true)),
        "No tasks file specified and neither prd.json nor tasks.json exist in the current directory"
    );
    assert_eq!(
        err.message(&workspace_location("/w", false)),
        "No tasks file specified and neither prd.json nor tasks.json exist in /w"
    );

    assert!(is_internal_task_agent("internal"));
    assert!(!is_internal_task_agent("./internal"));
    assert!(is_legacy_task_agent_path("bin/task-agent.sh"));
    assert!(is_legacy_task_agent_path("bin\\task-agent.sh"));
    assert!(is_legacy_task_agent_path("/repo/bin/task-agent.sh"));
    assert!(is_legacy_task_agent_path("C:\\repo\\bin\\task-agent.sh"));
    assert!(!is_legacy_task_agent_path("sbin/task-agent.sh"));
    assert!(!is_legacy_task_agent_path("task-agent.sh"));
    assert!(!is_legacy_task_agent_path(""));

    assert!(matches!(resolve_command_path("internal", "/w"), CommandPathPlan::Keep { path } if path == "internal"));
    assert!(matches!(resolve_command_path("bin/agent", "/w"), CommandPathPlan::Resolve { candidate } if candidate == "/w/bin/agent"));
    assert!(matches!(resolve_command_path("/usr/bin/agent", "/w"), CommandPathPlan::Resolve { candidate } if candidate == "/usr/bin/agent"));
    assert!(matches!(resolve_command_path("bin\\agent", "/w"), CommandPathPlan::Resolve { candidate } if candidate == "/w/bin\\agent"));
    assert!(matches!(canonicalize_or_fallback("/w/bin/agent", "bin/agent", Some("/real/agent")), CommandPath::Found { path } if path == "/real/agent"));
    assert!(matches!(canonicalize_or_fallback("/w/bin/task-agent.sh", "bin/task-agent.sh", None), CommandPath::LegacyFallback));
    assert!(matches!(canonicalize_or_fallback("/w/bin/agent", "bin/agent", None), CommandPath::Missing { candidate } if candidate == "/w/bin/agent"));
}
