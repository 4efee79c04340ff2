use lever::decimal::{micros_text, parse_ceiling, parse_i64, parse_micros};
use lever::json_text::parse_json;
use lever::ledger::{extract_requests, read_rate_limit_payload, record_entry};
use lever::rate_limit::{
    estimate_prompt_tokens, ledger_record, ledger_sleep_seconds, rate_limit_settings,
    rate_limit_sleep_seconds, record_rate_usage, select_recent, sleep_seconds_for, sort_by_time,
    RateLimitEntry, Usage,
};

const SECOND: u64 = 1_000_000;
const WINDOW: u64 = 60 * SECOND;
const NOW: i64 = 1000 * 1_000_000;

fn requests_of(text: &str) -> Vec<serde_json::Value> {
    let written: serde_json::Value = serde_json::from_str(text).unwrap();
    written.get("requests").and_then(serde_json::Value::as_array).unwrap().clone()
}

#[test]
fn sleep_respects_rpm_limit() {
    let payload = r#"{"requests":[
        {"ts":950.0,"model":"gpt-5.2-codex","tokens":10},
        {"ts":980.0,"model":"gpt-5.2-codex","tokens":20},
        {"ts":990.0,"model":"gpt-5.2-codex","tokens":30}
    ]}"#;
    let sleep_seconds =
        rate_limit_sleep_seconds(Some(payload), "gpt-5.2-codex", WINDOW, 0, 2, 0, NOW);
    assert_eq!(sleep_seconds, 40);
}

#[test]
fn sleep_respects_tpm_limit() {
    let payload = r#"{"requests":[
        {"ts":950.0,"model":"gpt-5.2-codex","tokens":50},
        {"ts":980.0,"model":"gpt-5.2-codex","tokens":30}
    ]}"#;
    let sleep_seconds =
        rate_limit_sleep_seconds(Some(payload), "gpt-5.2-codex", WINDOW, 100, 0, 40, NOW);
    assert_eq!(sleep_seconds, 10);
}

#[test]
fn record_rate_usage_prunes_old_entries() {
    let payload = r#"{"requests":[
        {"ts":800.0,"model":"gpt-5.2-codex","tokens":10},
        {"ts":990.0,"model":"gpt-5.1-codex","tokens":20}
    ],"extra":"keep"}"#;
    let written = record_rate_usage(Some(payload), "gpt-5.2-codex", WINDOW, 5, NOW);

    let value: serde_json::Value = serde_json::from_str(&written).unwrap();
    let requests = requests_of(&written);
    assert_eq!(value.get("extra").and_then(serde_json::Value::as_str), Some("keep"));
    assert_eq!(requests.len(), 2);
    assert_eq!(
        requests[0].get("model").and_then(serde_json::Value::as_str),
        Some("gpt-5.1-codex")
    );
    assert_eq!(
        requests[1].get("model").and_then(serde_json::Value::as_str),
        Some("gpt-5.2-codex")
    );
}

#[test]
fn public_helpers_smoke() {
    let (tpm, rpm) = rate_limit_settings("gpt-5.2-codex");
    assert_eq!(tpm, 500_000);
    assert_eq!(rpm, 500);
    assert!(estimate_prompt_tokens(3) >= 1000);

    let sleep_seconds = rate_limit_sleep_seconds(None, "gpt-5.2-codex", WINDOW, tpm, rpm, 0, NOW);
    assert_eq!(sleep_seconds, 0);

    let written = record_rate_usage(None, "gpt-5.2-codex", WINDOW, 25, NOW);
    assert_eq!(requests_of(&written).len(), 1);
}

#[test]
fn settings_per_model() {
    assert_eq!(rate_limit_settings("gpt-5.1-codex-mini"), (200_000, 500));
    assert_eq!(rate_limit_settings("gpt-5.1-codex"), (500_000, 500));
    assert_eq!(rate_limit_settings("gpt-5.2-codex"), (500_000, 500));
    assert_eq!(rate_limit_settings("something-else"), (200_000, 500));
    assert_eq!(rate_limit_settings(""), (200_000, 500));
}

#[test]
fn prompt_estimate_has_a_floor() {
    assert_eq!(estimate_prompt_tokens(0), 1000);
    assert_eq!(estimate_prompt_tokens(1), 1000);
    assert_eq!(estimate_prompt_tokens(4000), 1000);
    assert_eq!(estimate_prompt_tokens(4001), 1001);
    assert_eq!(estimate_prompt_tokens(4004), 1001);
    assert_eq!(estimate_prompt_tokens(8000), 2000);
    assert_eq!(estimate_prompt_tokens(u64::MAX), u64::MAX / 4 + 1);
}

#[test]
fn sleep_rounds_up_part_of_a_second() {
    // one request in a window of one request: it leaves the window 0.25 s from now
    let recent = vec![Usage { ts: NOW - WINDOW as i64 + 250_000, tokens: 1 }];
    assert_eq!(sleep_seconds_for(&recent, 0, 1, 0, NOW, WINDOW), 1);
    // exactly on the second
    let recent = vec![Usage { ts: NOW - WINDOW as i64 + 2_000_000, tokens: 1 }];
    assert_eq!(sleep_seconds_for(&recent, 0, 1, 0, NOW, WINDOW), 2);
    // one microsecond more
    let recent = vec![Usage { ts: NOW - WINDOW as i64 + 2_000_001, tokens: 1 }];
    assert_eq!(sleep_seconds_for(&recent, 0, 1, 0, NOW, WINDOW), 3);
    // just expired: nothing to wait for
    let recent = vec![Usage { ts: NOW - WINDOW as i64, tokens: 1 }];
    assert_eq!(sleep_seconds_for(&recent, 0, 1, 0, NOW, WINDOW), 0);
}

#[test]
fn sleep_is_zero_below_both_limits() {
    let recent = vec![
        Usage { ts: NOW - 5 * SECOND as i64, tokens: 10 },
        Usage { ts: NOW - 3 * SECOND as i64, tokens: 10 },
    ];
    assert_eq!(sleep_seconds_for(&recent, 100, 3, 80, NOW, WINDOW), 0);
    assert_eq!(sleep_seconds_for(&Vec::new(), 100, 3, 80, NOW, WINDOW), 0);
    // limits of zero are not enforced
    assert_eq!(sleep_seconds_for(&recent, 0, 0, 1_000_000, NOW, WINDOW), 0);
}

#[test]
fn sleep_takes_the_longer_of_the_two_waits() {
    let recent = vec![
        Usage { ts: NOW - 50 * SECOND as i64, tokens: 10 },
        Usage { ts: NOW - 20 * SECOND as i64, tokens: 90 },
    ];
    // requests: 2 of 2 used, the older leaves in 10 s; tokens: 100 + 50 > 100,
    // 50 must go: the first gives 10, the second reaches it and leaves in 40 s
    assert_eq!(sleep_seconds_for(&recent, 100, 2, 50, NOW, WINDOW), 40);
    // tokens only: 100 + 5 > 100, 5 must go: the first request is enough
    assert_eq!(sleep_seconds_for(&recent, 100, 0, 5, NOW, WINDOW), 10);
}

#[test]
fn sleep_leaves_room_after_waiting() {
    let recent = vec![
        Usage { ts: NOW - 59 * SECOND as i64, tokens: 40 },
        Usage { ts: NOW - 30 * SECOND as i64, tokens: 40 },
        Usage { ts: NOW - 10 * SECOND as i64 + 123_456, tokens: 40 },
    ];
    let (tpm, rpm, estimated) = (100u64, 2u64, 30u64);
    let sleep = sleep_seconds_for(&recent, tpm, rpm, estimated, NOW, WINDOW);
    let later = NOW + (sleep * SECOND) as i64;
    let live: Vec<&Usage> =
        recent.iter().filter(|u| later - u.ts < WINDOW as i64).collect();
    assert!((live.len() as u64) < rpm);
    let tokens: i64 = live.iter().map(|u| u.tokens).sum();
    assert!(tokens as u64 + estimated <= tpm);
    assert_eq!(sleep, 30);
}

#[test]
fn sort_is_by_time_and_stable() {
    let list = vec![
        Usage { ts: 5, tokens: 1 },
        Usage { ts: 3, tokens: 2 },
        Usage { ts: 5, tokens: 3 },
        Usage { ts: 1, tokens: 4 },
        Usage { ts: 3, tokens: 5 },
    ];
    let sorted = sort_by_time(&list);
    let pairs: Vec<(i64, i64)> = sorted.iter().map(|u| (u.ts, u.tokens)).collect();
    assert_eq!(pairs, vec![(1, 4), (3, 2), (3, 5), (5, 1), (5, 3)]);
}

#[test]
fn recent_requests_are_those_of_the_model_in_the_window() {
    let entries = vec![
        RateLimitEntry { ts_micros: NOW - WINDOW as i64, model: "m".to_string(), tokens: 1 },
        RateLimitEntry { ts_micros: NOW - WINDOW as i64 + 1, model: "m".to_string(), tokens: 2 },
        RateLimitEntry { ts_micros: NOW - 1, model: "other".to_string(), tokens: 3 },
        RateLimitEntry { ts_micros: NOW + 5, model: "m".to_string(), tokens: 4 },
    ];
    let recent = select_recent(&entries, "m", NOW, WINDOW);
    let tokens: Vec<i64> = recent.iter().map(|u| u.tokens).collect();
    assert_eq!(tokens, vec![2, 4]);
}

#[test]
fn ledger_entries_are_read_leniently() {
    let payload = parse_json(
        r#"{"requests":[
            {"ts":12,"model":"a","tokens":7},
            "not an object",
            {"ts":"1.5","tokens":"-3"},
            {"ts":-2.25,"model":5,"tokens":2.5},
            {"ts":true,"model":"z","tokens":18446744073709551615}
        ]}"#,
    )
    .unwrap();
    let entries = extract_requests(&payload);
    assert_eq!(
        entries,
        vec![
            RateLimitEntry { ts_micros: 12_000_000, model: "a".to_string(), tokens: 7 },
            RateLimitEntry { ts_micros: 1_500_000, model: String::new(), tokens: -3 },
            RateLimitEntry { ts_micros: -2_250_000, model: String::new(), tokens: 0 },
            RateLimitEntry { ts_micros: 0, model: "z".to_string(), tokens: i64::MAX },
        ]
    );
    assert!(extract_requests(&parse_json(r#"{"requests":5}"#).unwrap()).is_empty());
    assert!(extract_requests(&parse_json(r#"[1,2]"#).unwrap()).is_empty());
}

#[test]
fn unreadable_ledger_counts_as_empty() {
    let (payload, entries) = read_rate_limit_payload(Some("this is no json"));
    assert!(entries.is_empty());
    assert_eq!(payload, parse_json(r#"{"requests":[]}"#).unwrap());
    let (payload, entries) = read_rate_limit_payload(None);
    assert!(entries.is_empty());
    assert_eq!(payload, parse_json(r#"{"requests":[]}"#).unwrap());
    assert_eq!(rate_limit_sleep_seconds(Some("{{{"), "m", WINDOW, 1, 1, 5, NOW), 0);
}

#[test]
fn record_drops_stale_and_appends() {
    let entries = vec![
        RateLimitEntry { ts_micros: NOW - WINDOW as i64, model: "a".to_string(), tokens: 1 },
        RateLimitEntry { ts_micros: NOW - WINDOW as i64 + 1, model: "b".to_string(), tokens: 2 },
    ];
    let kept = record_entry(&entries, "c", 9, NOW, WINDOW);
    assert_eq!(
        kept,
        vec![
            RateLimitEntry { ts_micros: NOW - WINDOW as i64 + 1, model: "b".to_string(), tokens: 2 },
            RateLimitEntry { ts_micros: NOW, model: "c".to_string(), tokens: 9 },
        ]
    );
    let kept = record_entry(&entries, "c", u64::MAX, NOW, WINDOW);
    assert_eq!(kept[1].tokens, i64::MAX);
}

#[test]
fn record_writes_the_new_request_with_its_time() {
    let written = record_rate_usage(Some(r#"{"requests":[]}"#), "m", WINDOW, 5, 1_000_500_000);
    let requests = requests_of(&written);
    assert_eq!(requests.len(), 1);
    assert_eq!(requests[0].get("ts").and_then(serde_json::Value::as_f64), Some(1000.5));
    assert_eq!(requests[0].get("tokens").and_then(serde_json::Value::as_i64), Some(5));
    assert_eq!(requests[0].get("model").and_then(serde_json::Value::as_str), Some("m"));
    // what is written is read back as the same request
    let (_, entries) = read_rate_limit_payload(Some(&written));
    assert_eq!(
        entries,
        vec![RateLimitEntry { ts_micros: 1_000_500_000, model: "m".to_string(), tokens: 5 }]
    );
}

#[test]
fn record_replaces_a_ledger_that_is_no_object() {
    let written = record_rate_usage(Some("[1,2,3]"), "m", WINDOW, 5, NOW);
    let value: serde_json::Value = serde_json::from_str(&written).unwrap();
    assert_eq!(value.as_object().unwrap().len(), 1);
    assert_eq!(requests_of(&written).len(), 1);
}

#[test]
fn ledger_functions_on_trees() {
    let payload = parse_json(
        r#"{"keep":{"a":[1,2]},"requests":[{"ts":950.0,"model":"m","tokens":10},{"ts":990.0,"model":"m","tokens":30}]}"#,
    )
    .unwrap();
    assert_eq!(ledger_sleep_seconds(&payload, "m", WINDOW, 0, 2, 0, NOW), 10);
    assert_eq!(ledger_sleep_seconds(&payload, "m", WINDOW, 0, 1, 0, NOW), 50);
    let after = ledger_record(&payload, "n", WINDOW, 3, NOW);
    assert_eq!(after.get("keep"), payload.get("keep"));
    let entries = extract_requests(&after);
    assert_eq!(entries.len(), 3);
    assert_eq!(entries[2], RateLimitEntry { ts_micros: NOW, model: "n".to_string(), tokens: 3 });
}

#[test]
fn decimal_text_to_microseconds() {
    assert_eq!(parse_micros("950.0"), Some(950_000_000));
    assert_eq!(parse_micros("950"), Some(950_000_000));
    assert_eq!(parse_micros("0.000001"), Some(1));
    assert_eq!(parse_micros("0.0000019"), Some(1));
    assert_eq!(parse_micros("-1.5"), Some(-1_500_000));
    assert_eq!(parse_micros("+1.5"), Some(1_500_000));
    assert_eq!(parse_micros(".5"), Some(500_000));
    assert_eq!(parse_micros("5."), Some(5_000_000));
    assert_eq!(parse_micros("."), None);
    assert_eq!(parse_micros(""), None);
    assert_eq!(parse_micros("-"), None);
    assert_eq!(parse_micros("1e3"), None);
    assert_eq!(parse_micros("1.2.3"), None);
    assert_eq!(parse_micros("12a"), None);
    assert_eq!(parse_micros("9223372036854.775807"), Some(i64::MAX));
    assert_eq!(parse_micros("9223372036854.775808"), Some(i64::MAX));
    assert_eq!(parse_micros("99999999999999999999999999"), Some(i64::MAX));
    assert_eq!(parse_micros("-99999999999999999999999999"), Some(-i64::MAX));
}

#[test]
fn microseconds_to_decimal_text() {
    assert_eq!(micros_text(0), "0.000000");
    assert_eq!(micros_text(1), "0.000001");
    assert_eq!(micros_text(1_000_500_000), "1000.500000");
    assert_eq!(micros_text(-1_500_000), "-1.500000");
    assert_eq!(micros_text(i64::MAX), "9223372036854.775807");
    assert_eq!(micros_text(i64::MIN), "-9223372036854.775808");
    for m in [0i64, 1, 999_999, 1_000_000, 123_456_789_012, -42, i64::MAX, -i64::MAX] {
        assert_eq!(parse_micros(&micros_text(m)), Some(m));
    }
}

#[test]
fn whole_numbers_and_ceilings() {
    assert_eq!(parse_i64("42"), Some(42));
    assert_eq!(parse_i64("-42"), Some(-42));
    assert_eq!(parse_i64("+42"), Some(42));
    assert_eq!(parse_i64("9223372036854775807"), Some(i64::MAX));
    assert_eq!(parse_i64("9223372036854775808"), None);
    assert_eq!(parse_i64("-9223372036854775808"), Some(i64::MIN));
    assert_eq!(parse_i64("-9223372036854775809"), None);
    assert_eq!(parse_i64(""), None);
    assert_eq!(parse_i64("-"), None);
    assert_eq!(parse_i64("4.2"), None);
    assert_eq!(parse_i64(" 4"), None);

    let ceil = |s: &str| parse_ceiling(&s.chars().collect::<Vec<char>>());
    assert_eq!(ceil("2.3"), Some(3));
    assert_eq!(ceil("2.0"), Some(2));
    assert_eq!(ceil("2"), Some(2));
    assert_eq!(ceil("0.001"), Some(1));
    assert_eq!(ceil("0"), Some(0));
    assert_eq!(ceil(".5"), Some(1));
    assert_eq!(ceil("7."), Some(7));
    assert_eq!(ceil("."), None);
    assert_eq!(ceil(""), None);
    assert_eq!(ceil("1.2.3"), None);
    assert_eq!(ceil("18446744073709551615"), Some(u64::MAX));
    assert_eq!(ceil("18446744073709551615.5"), Some(u64::MAX));
    assert_eq!(ceil("99999999999999999999999"), Some(u64::MAX));
}
