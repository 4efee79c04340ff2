//! What is handed to the agent and what is read from its log.

use vstd::prelude::*;
use vstd::string::StringExecFns;
use crate::decimal::{char_is_digit, is_digit, parse_ceiling, text_ceiling};
use crate::context_compile::{context_failure_policy_arg, ContextCompileConfig, ContextFailurePolicy};
use crate::json::{
    copy_string, item_views, lemma_array_view, lemma_object_view, member_views, Json, JsonView,
    Member,
};
use crate::json_text::{parse_json, parsed};
use crate::select::SelectedTask;
use crate::text::{char_is_space, chars_contain, chars_of, contains, decimal, find_from, join_seq, join_strings, occurs_at, slice_chars, string_of, string_texts, trim_start, u64_text};

verus! {

/// The small letter of a capital of the basic alphabet; any other character
/// is itself.
pub open spec fn lower_char(c: char) -> char {
    if 'A' <= c <= 'Z' {
        ((c as u8) + 32) as char
    } else {
        c
    }
}

/// `s` with the capitals of the basic alphabet made small.
pub open spec fn lowered(s: Seq<char>) -> Seq<char> {
    Seq::new(s.len(), |i: int| lower_char(s[i]))
}

/// Makes the capitals of the basic alphabet small.
pub fn lower_chars(chars: &Vec<char>) -> (out: Vec<char>)
    ensures
        out@ == lowered(chars@),
{
    let mut out: Vec<char> = Vec::new();
    let mut i: usize = 0;
    while i < chars.len()
        invariant
            i <= chars.len(),
            out@.len() == i,
            forall|k: int| 0 <= k < i ==> out@[k] == lower_char(chars@[k]),
        decreases chars.len() - i,
    {
        let c = chars[i];
        if 'A' <= c && c <= 'Z' {
            out.push(((c as u8) + 32) as char);
        } else {
            out.push(c);
        }
        i += 1;
    }
    assert(out@ =~= lowered(chars@));
    out
}

/// How many characters at the start of `s` are digits or points.
pub open spec fn number_run(s: Seq<char>) -> nat
    decreases s.len(),
{
    if s.len() > 0 && (is_digit(s[0]) || s[0] == '.') {
        1 + number_run(s.drop_first())
    } else {
        0
    }
}

/// The log speaks of a rate limit, in small or capital letters.
pub open spec fn mentions_rate_limit(log: Seq<char>) -> bool {
    contains(lowered(log), "rate limit"@) || contains(lowered(log), "rate-limit"@)
}

/// `i` is the first place where the log asks to try again.
pub open spec fn first_hint(log: Seq<char>, i: int) -> bool {
    &&& occurs_at(lowered(log), "please try again in "@, i)
    &&& forall|j: int| 0 <= j < i ==> !occurs_at(lowered(log), "please try again in "@, j)
}

/// The delay that a hint at `i` names: the number written behind it, rounded
/// up to whole seconds.
pub open spec fn hint_delay(log: Seq<char>, i: int) -> Option<int> {
    let tail = log.skip(i + "please try again in "@.len());
    text_ceiling(tail.take(number_run(tail) as int))
}

/// The seconds to wait before the agent is started again: the log must speak
/// of a rate limit and ask to try again in a number of seconds; the first
/// such request counts.
pub open spec fn retry_delay(log: Seq<char>, r: Option<u64>) -> bool {
    if !mentions_rate_limit(log) {
        r is None
    } else if forall|j: int| 0 <= j ==> !occurs_at(lowered(log), "please try again in "@, j) {
        r is None
    } else {
        exists|i: int|
            first_hint(log, i) && match hint_delay(log, i) {
                Some(v) => r == Some(v as u64),
                None => r is None,
            }
    }
}

/// How many characters of `chars` from `from` on are digits or points.
pub(crate) fn count_number_chars(chars: &Vec<char>, from: usize) -> (n: usize)
    requires
        from <= chars.len(),
    ensures
        n == number_run(chars@.skip(from as int)),
        from + n <= chars.len(),
{
    let mut i: usize = from;
    while i < chars.len() && (char_is_digit(chars[i]) || chars[i] == '.')
        invariant
            from <= i <= chars.len(),
            number_run(chars@.skip(from as int)) == (i - from) + number_run(chars@.skip(i as int)),
        decreases chars.len() - i,
    {
        assert(chars@.skip(i as int).drop_first() =~= chars@.skip(i + 1));
        assert(chars@.skip(i as int)[0] == chars@[i as int]);
        i += 1;
    }
    proof {
        if i < chars.len() {
            assert(chars@.skip(i as int)[0] == chars@[i as int]);
        }
    }
    i - from
}

/// The seconds to wait before the agent is started again, read from its log.
/// `log_text` is what the log holds, or nothing where it cannot be read.
pub fn rate_limit_retry_delay(log_text: Option<&str>) -> (r: Option<u64>)
    ensures
        match log_text {
            Some(t) => retry_delay(t@, r),
            None => r is None,
        },
{
    let text = match log_text {
        Some(t) => t,
        None => {
            return None;
        },
    };
    let raw = chars_of(text);
    let lower = lower_chars(&raw);
    let limit_a = chars_of("rate limit");
    let limit_b = chars_of("rate-limit");
    if !chars_contain(&lower, &limit_a) && !chars_contain(&lower, &limit_b) {
        return None;
    }
    let needle = chars_of("please try again in ");
    let at = match find_from(&lower, &needle, 0) {
        Some(i) => i,
        None => {
            return None;
        },
    };
    assert(first_hint(text@, at as int));
    assert(at + needle.len() <= lower.len());
    assert(lower.len() == raw.len());
    let start = at + needle.len();
    let n = count_number_chars(&raw, start);
    let number = slice_chars(&raw, start, start + n);
    assert(raw@.subrange(start as int, start + n) =~= raw@.skip(start as int).take(n as int));
    parse_ceiling(&number)
}

/// `s` with line feeds and carriage returns turned into spaces.
pub open spec fn on_one_line(s: Seq<char>) -> Seq<char> {
    Seq::new(
        s.len(),
        |i: int| if s[i] == '\n' || s[i] == '\r' {
            ' '
        } else {
            s[i]
        },
    )
}

/// `s` on one line, cut to `limit` characters with three points behind
/// where it is longer.
pub open spec fn compacted(s: Seq<char>, limit: int) -> Seq<char> {
    if s.len() > limit {
        on_one_line(s).take(limit) + "..."@
    } else {
        on_one_line(s)
    }
}

/// Puts a text on one line.
pub fn one_line_chars(chars: &Vec<char>) -> (out: Vec<char>)
    ensures
        out@ == on_one_line(chars@),
{
    let mut out: Vec<char> = Vec::new();
    let mut i: usize = 0;
    while i < chars.len()
        invariant
            i <= chars.len(),
            out@.len() == i,
            forall|k: int| 0 <= k < i ==> out@[k] == on_one_line(chars@)[k],
        decreases chars.len() - i,
    {
        let c = chars[i];
        if c == '\n' || c == '\r' {
            out.push(' ');
        } else {
            out.push(c);
        }
        i += 1;
    }
    assert(out@ =~= on_one_line(chars@));
    out
}

/// Puts a text on one line and cuts it to `limit` characters, with three
/// points behind where it was longer.
pub fn compact_text(input: &str, limit: usize) -> (out: String)
    ensures
        out@ == compacted(input@, limit as int),
{
    let chars = chars_of(input);
    let line = one_line_chars(&chars);
    if line.len() > limit {
        let kept = slice_chars(&line, 0, limit);
        assert(line@.subrange(0, limit as int) =~= on_one_line(input@).take(limit as int));
        let mut out = string_of(&kept);
        out.append("...");
        out
    } else {
        string_of(&line)
    }
}

/// How many characters stand before the first line feed of `s`.
pub open spec fn line_len(s: Seq<char>) -> nat
    decreases s.len(),
{
    if s.len() > 0 && s[0] != '\n' {
        1 + line_len(s.drop_first())
    } else {
        0
    }
}

/// `line` without a carriage return at its end.
pub open spec fn without_return(line: Seq<char>) -> Seq<char> {
    if line.len() > 0 && line.last() == '\r' {
        line.drop_last()
    } else {
        line
    }
}

/// The lines of a text: what stands between its line feeds, each without
/// the carriage return that may precede the line feed. Nothing follows the
/// last line feed; what follows it without a line feed is the last line.
pub open spec fn lines_of(s: Seq<char>) -> Seq<Seq<char>>
    decreases s.len(),
{
    if s.len() == 0 {
        Seq::empty()
    } else {
        let n = line_len(s) as int;
        if n < s.len() {
            seq![without_return(s.take(n))] + lines_of(s.skip(n + 1))
        } else {
            seq![s]
        }
    }
}

/// The view of a list of lines.
pub open spec fn line_views(lines: Seq<Vec<char>>) -> Seq<Seq<char>> {
    Seq::new(lines.len(), |i: int| lines[i]@)
}

proof fn lemma_line_len(s: Seq<char>)
    ensures
        line_len(s) <= s.len(),
        forall|k: int| 0 <= k < line_len(s) ==> s[k] != '\n',
        line_len(s) < s.len() ==> s[line_len(s) as int] == '\n',
    decreases s.len(),
{
    if s.len() > 0 && s[0] != '\n' {
        let t = s.drop_first();
        lemma_line_len(t);
        assert forall|k: int| 0 <= k < line_len(s) implies s[k] != '\n' by {
            if k > 0 {
                assert(s[k] == t[k - 1]);
            }
        }
        if line_len(s) < s.len() {
            assert(s[line_len(s) as int] == t[line_len(t) as int]);
        }
    }
}

proof fn lemma_line_len_is(s: Seq<char>, n: int)
    requires
        0 <= n <= s.len(),
        forall|k: int| 0 <= k < n ==> s[k] != '\n',
        n < s.len() ==> s[n] == '\n',
    ensures
        line_len(s) == n,
{
    lemma_line_len(s);
    let m = line_len(s) as int;
    if m < n {
        assert(s[m] == '\n');
    } else if n < m {
        assert(s[n] != '\n');
    }
}

/// Splits a text into its lines.
pub fn split_lines(chars: &Vec<char>) -> (lines: Vec<Vec<char>>)
    ensures
        line_views(lines@) == lines_of(chars@),
{
    let mut lines: Vec<Vec<char>> = Vec::new();
    let mut pos: usize = 0;
    assert(chars@.skip(0) =~= chars@);
    assert(line_views(lines@) + lines_of(chars@.skip(0)) =~= lines_of(chars@));
    while pos < chars.len()
        invariant
            pos <= chars.len(),
            line_views(lines@) + lines_of(chars@.skip(pos as int)) == lines_of(chars@),
        decreases chars.len() - pos,
    {
        let mut end: usize = pos;
        while end < chars.len() && chars[end] != '\n'
            invariant
                pos <= end <= chars.len(),
                forall|k: int| pos <= k < end ==> chars@[k] != '\n',
            decreases chars.len() - end,
        {
            end += 1;
        }
        let ghost rest = chars@.skip(pos as int);
        proof {
            assert forall|k: int| 0 <= k < end - pos implies rest[k] != '\n' by {
                assert(rest[k] == chars@[pos + k]);
            }
            if end < chars.len() {
                assert(rest[end - pos] == chars@[end as int]);
            }
            lemma_line_len_is(rest, end - pos);
            assert(rest.take(end - pos) =~= chars@.subrange(pos as int, end as int));
        }
        let ghost before = line_views(lines@);
        if end < chars.len() {
            let stop = if end > pos && chars[end - 1] == '\r' {
                end - 1
            } else {
                end
            };
            let line = slice_chars(chars, pos, stop);
            proof {
                let whole = chars@.subrange(pos as int, end as int);
                if end > pos {
                    assert(whole.last() == chars@[end - 1]);
                }
                assert(line@ =~= without_return(whole));
                assert(rest.skip(end - pos + 1) =~= chars@.skip(end + 1));
            }
            lines.push(line);
            assert(line_views(lines@) =~= before.push(line@));
            assert(before.push(line@) + lines_of(chars@.skip(end + 1)) =~= before + (seq![line@]
                + lines_of(chars@.skip(end + 1))));
            pos = end + 1;
        } else {
            let line = slice_chars(chars, pos, end);
            proof {
                assert(line@ =~= rest);
                assert(chars@.skip(chars.len() as int) =~= Seq::<char>::empty());
            }
            lines.push(line);
            assert(line_views(lines@) =~= before.push(line@));
            assert(before.push(line@) + lines_of(chars@.skip(end as int)) =~= before + seq![rest]);
            pos = end;
        }
    }
    assert(chars@.skip(chars.len() as int) =~= Seq::<char>::empty());
    assert(line_views(lines@) + Seq::<Seq<char>>::empty() =~= line_views(lines@));
    lines
}

/// What one record of the log says of the run's usage.
#[derive(Debug, Copy, Clone, PartialEq, Eq, Structural)]
pub enum RecordUsage {
    /// The record is no completed turn, or names no positive total.
    Skip,
    /// The record names this total of tokens.
    Tokens(u64),
}

/// The whole number of the member `name` of `usage`, or of the member
/// `alias` where there is no `name`; zero where the one looked at is no
/// whole number in the signed range.
pub open spec fn count_field(usage: JsonView, name: Seq<char>, alias: Seq<char>) -> int {
    let field = match usage.get(name) {
        Some(v) => Some(v),
        None => usage.get(alias),
    };
    match field {
        Some(v) => match v.as_i64() {
            Some(n) => n as int,
            None => 0,
        },
        None => 0,
    }
}

/// The total of tokens that a usage names: its total where it has one, else
/// input and output together.
pub open spec fn usage_total(usage: JsonView) -> int {
    let total = match usage.get("total_tokens"@) {
        Some(v) => v.as_i64(),
        None => None,
    };
    match total {
        Some(t) => t as int,
        None => count_field(usage, "input_tokens"@, "prompt_tokens"@) + count_field(
            usage,
            "output_tokens"@,
            "completion_tokens"@,
        ),
    }
}

/// What a record says of the run's usage.
pub open spec fn record_usage(payload: JsonView) -> RecordUsage {
    if payload.get("type"@) != Some(JsonView::String("turn.completed"@)) {
        RecordUsage::Skip
    } else {
        match payload.get("usage"@) {
            None => RecordUsage::Skip,
            Some(usage) => if usage_total(usage) > 0 {
                RecordUsage::Tokens(usage_total(usage) as u64)
            } else {
                RecordUsage::Skip
            },
        }
    }
}

/// The line may hold a record: its first character that is no white space
/// opens an object.
pub open spec fn opens_object(line: Seq<char>) -> bool {
    trim_start(line).len() > 0 && trim_start(line)[0] == '{'
}

/// The usage after the lines from `from` on are scanned, `found` being what
/// the lines before gave: the last total named wins.
pub open spec fn scan_usage(lines: Seq<Seq<char>>, from: int, found: Option<u64>) -> Option<u64>
    decreases lines.len() - from,
{
    if from < 0 || from >= lines.len() {
        found
    } else if !opens_object(lines[from]) {
        scan_usage(lines, from + 1, found)
    } else {
        match parsed(lines[from]) {
            None => scan_usage(lines, from + 1, found),
            Some(payload) => match record_usage(payload) {
                RecordUsage::Skip => scan_usage(lines, from + 1, found),
                RecordUsage::Tokens(t) => scan_usage(lines, from + 1, Some(t)),
            },
        }
    }
}

/// The tokens that the log of a run reports.
pub open spec fn usage_tokens(log: Seq<char>) -> Option<u64> {
    scan_usage(lines_of(log), 0, None)
}

/// The whole number of a member of a usage.
pub fn read_count_field(usage: &Json, name: &str, alias: &str) -> (n: i64)
    ensures
        n == count_field(usage@, name@, alias@),
{
    let field = match usage.get(name) {
        Some(v) => Some(v),
        None => usage.get(alias),
    };
    match field {
        Some(v) => match v.as_i64() {
            Some(n) => n,
            None => 0,
        },
        None => 0,
    }
}

/// What a record says of the run's usage.
pub fn usage_of_record(payload: &Json) -> (r: RecordUsage)
    ensures
        r == record_usage(payload@),
{
    let is_turn = match payload.get("type") {
        Some(Json::String(t)) => crate::text::str_eq(t.as_str(), "turn.completed"),
        _ => false,
    };
    if !is_turn {
        return RecordUsage::Skip;
    }
    let usage = match payload.get("usage") {
        Some(u) => u,
        None => {
            return RecordUsage::Skip;
        },
    };
    let named = match usage.get("total_tokens") {
        Some(v) => v.as_i64(),
        None => None,
    };
    let total: i128 = match named {
        Some(t) => t as i128,
        None => read_count_field(usage, "input_tokens", "prompt_tokens") as i128 + read_count_field(
            usage,
            "output_tokens",
            "completion_tokens",
        ) as i128,
    };
    if total > 0 {
        RecordUsage::Tokens(total as u64)
    } else {
        RecordUsage::Skip
    }
}

/// Whether the first character of a line that is no white space opens an
/// object.
pub fn line_opens_object(line: &Vec<char>) -> (r: bool)
    ensures
        r == opens_object(line@),
{
    let n = line.len();
    let mut i: usize = 0;
    assert(line@.subrange(0, n as int) =~= line@);
    while i < n && char_is_space(line[i])
        invariant
            i <= n == line.len(),
            trim_start(line@) == trim_start(line@.subrange(i as int, n as int)),
        decreases n - i,
    {
        assert(line@.subrange(i as int, n as int).drop_first() =~= line@.subrange(i + 1, n as int));
        i += 1;
    }
    i < n && line[i] == '{'
}

/// The tokens that the log of a run reports. `log_text` is what the log
/// holds, or nothing where it cannot be read.
pub fn parse_usage_tokens(log_text: Option<&str>) -> (r: Option<u64>)
    ensures
        r == match log_text {
            Some(t) => usage_tokens(t@),
            None => None,
        },
{
    let text = match log_text {
        Some(t) => t,
        None => {
            return None;
        },
    };
    let chars = chars_of(text);
    let lines = split_lines(&chars);
    let mut found: Option<u64> = None;
    let mut i: usize = 0;
    while i < lines.len()
        invariant
            i <= lines.len(),
            log_text == Some(text),
            line_views(lines@) == lines_of(text@),
            scan_usage(line_views(lines@), 0, None) == scan_usage(line_views(lines@), i as int, found),
        decreases lines.len() - i,
    {
        let line = &lines[i];
        assert(line_views(lines@)[i as int] == line@);
        if line_opens_object(line) {
            let line_text = string_of(line);
            match parse_json(line_text.as_str()) {
                Some(payload) => match usage_of_record(&payload) {
                    RecordUsage::Skip => {},
                    RecordUsage::Tokens(t) => {
                        found = Some(t);
                    },
                },
                None => {},
            }
        }
        i += 1;
    }
    found
}

/// Adds one argument at the end of a command line.
pub fn push_arg(args: &mut Vec<String>, value: &str)
    ensures
        string_texts(final(args)@) == string_texts(old(args)@).push(value@),
{
    let ghost before = string_texts(args@);
    args.push(String::from_str(value));
    assert(string_texts(args@) =~= before.push(value@));
}

/// `flag` before each of `values`, in order.
pub open spec fn flagged(flag: Seq<char>, values: Seq<Seq<char>>) -> Seq<Seq<char>>
    decreases values.len(),
{
    if values.len() == 0 {
        Seq::empty()
    } else {
        flagged(flag, values.drop_last()).push(flag).push(values.last())
    }
}

/// The command line that builds the context pack.
pub open spec fn assembly_args(
    workspace: Seq<char>,
    task_id: Seq<char>,
    task_input: Seq<char>,
    pack_dir: Seq<char>,
    summary_json: Seq<char>,
    token_budget: u64,
    exclude: Seq<Seq<char>>,
    exclude_runtime: Seq<Seq<char>>,
) -> Seq<Seq<char>> {
    seq![
        "build"@,
        "--repo"@,
        workspace,
        "--task"@,
        "@"@ + task_input,
        "--task-id"@,
        task_id,
        "--out"@,
        pack_dir,
        "--token-budget"@,
        decimal(token_budget as nat),
    ] + flagged("--exclude"@, exclude) + flagged("--exclude-runtime"@, exclude_runtime) + seq![
        "--summary-json"@,
        summary_json,
    ]
}

/// Adds `flag` and a value for each of `values`.
pub fn push_flagged(args: &mut Vec<String>, flag: &str, values: &Vec<String>)
    ensures
        string_texts(final(args)@) == string_texts(old(args)@) + flagged(
            flag@,
            string_texts(values@),
        ),
{
    let ghost before = string_texts(args@);
    let ghost all = string_texts(values@);
    let mut i: usize = 0;
    assert(before + flagged(flag@, all.take(0)) =~= before);
    while i < values.len()
        invariant
            i <= values.len(),
            all == string_texts(values@),
            string_texts(args@) == before + flagged(flag@, all.take(i as int)),
        decreases values.len() - i,
    {
        assert(all.take(i + 1).drop_last() =~= all.take(i as int));
        assert(all.take(i + 1).last() == values@[i as int]@);
        push_arg(args, flag);
        push_arg(args, values[i].as_str());
        assert(string_texts(args@) =~= before + flagged(flag@, all.take(i + 1)));
        i += 1;
    }
    assert(all.take(values.len() as int) =~= all);
}

/// The command line that builds the context pack for a task.
pub fn build_assembly_command_args(
    workspace: &str,
    task_id: &str,
    task_input: &str,
    pack_dir: &str,
    summary_json: &str,
    config: &ContextCompileConfig,
) -> (args: Vec<String>)
    ensures
        string_texts(args@) == assembly_args(
            workspace@,
            task_id@,
            task_input@,
            pack_dir@,
            summary_json@,
            config.token_budget,
            string_texts(config.exclude_globs@),
            string_texts(config.exclude_runtime_globs@),
        ),
{
    let mut args: Vec<String> = Vec::new();
    assert(string_texts(args@) =~= Seq::<Seq<char>>::empty());
    push_arg(&mut args, "build");
    push_arg(&mut args, "--repo");
    push_arg(&mut args, workspace);
    push_arg(&mut args, "--task");
    let mut task_arg = String::from_str("@");
    task_arg.append(task_input);
    push_arg(&mut args, task_arg.as_str());
    push_arg(&mut args, "--task-id");
    push_arg(&mut args, task_id);
    push_arg(&mut args, "--out");
    push_arg(&mut args, pack_dir);
    push_arg(&mut args, "--token-budget");
    let budget = u64_text(config.token_budget);
    push_arg(&mut args, budget.as_str());
    push_flagged(&mut args, "--exclude", &config.exclude_globs);
    push_flagged(&mut args, "--exclude-runtime", &config.exclude_runtime_globs);
    push_arg(&mut args, "--summary-json");
    push_arg(&mut args, summary_json);
    assert(string_texts(args@) =~= assembly_args(
        workspace@,
        task_id@,
        task_input@,
        pack_dir@,
        summary_json@,
        config.token_budget,
        string_texts(config.exclude_globs@),
        string_texts(config.exclude_runtime_globs@),
    ));
    args
}

/// The command line that starts the agent.
pub open spec fn agent_args(model: Seq<char>, schema_path: Seq<char>, result_path: Seq<char>) -> Seq<
    Seq<char>,
> {
    seq![
        "exec"@,
        "--yolo"@,
        "--model"@,
        model,
        "--output-schema"@,
        schema_path,
        "--output-last-message"@,
        result_path,
        "--json"@,
        "--skip-git-repo-check"@,
        "-"@,
    ]
}

/// The command line that starts the agent: it reads its prompt from the
/// standard input and writes its last message to `result_path`.
pub fn codex_args(model: &str, schema_path: &str, result_path: &str) -> (args: Vec<String>)
    ensures
        string_texts(args@) == agent_args(model@, schema_path@, result_path@),
{
    let mut args: Vec<String> = Vec::new();
    assert(string_texts(args@) =~= Seq::<Seq<char>>::empty());
    push_arg(&mut args, "exec");
    push_arg(&mut args, "--yolo");
    push_arg(&mut args, "--model");
    push_arg(&mut args, model);
    push_arg(&mut args, "--output-schema");
    push_arg(&mut args, schema_path);
    push_arg(&mut args, "--output-last-message");
    push_arg(&mut args, result_path);
    push_arg(&mut args, "--json");
    push_arg(&mut args, "--skip-git-repo-check");
    push_arg(&mut args, "-");
    assert(string_texts(args@) =~= agent_args(model@, schema_path@, result_path@));
    args
}

/// The identifier of a run: the time stamp, a hyphen, and the number of the
/// process.
pub fn run_id(stamp: &str, process_id: u32) -> (out: String)
    ensures
        out@ == stamp@ + "-"@ + decimal(process_id as nat),
{
    let mut out = String::from_str(stamp);
    out.append("-");
    let digits = u64_text(process_id as u64);
    out.append(digits.as_str());
    out
}

/// The lines that list a definition of done, one item to a line.
pub open spec fn dod_lines(items: Seq<Seq<char>>) -> Seq<char>
    decreases items.len(),
{
    if items.len() == 0 {
        Seq::empty()
    } else {
        dod_lines(items.drop_last()) + "  - "@ + items.last() + "\n"@
    }
}

/// `s`, with a line feed added where it does not end in one.
pub open spec fn ending_in_feed(s: Seq<char>) -> Seq<char> {
    if s.len() > 0 && s.last() == '\n' {
        s
    } else {
        s.push('\n')
    }
}

/// The prompt for a task: the base prompt, then the task's title, its
/// definition of done, the recommended approach and the task as JSON; the
/// prompt ends in a line feed.
pub open spec fn prompt_text(
    base: Seq<char>,
    title: Seq<char>,
    dod: Seq<Seq<char>>,
    recommended: Seq<char>,
    snapshot: Seq<char>,
) -> Seq<char> {
    ending_in_feed(
        base + "\n\n"@ + "Task title: "@ + title + "\n"@ + "\nDefinition of done:\n"@ + dod_lines(dod)
            + "\nRecommended approach:\n"@ + recommended + "\n"@ + "\nTask JSON (authoritative):\n"@
            + snapshot,
    )
}

/// Writes the prompt for a task.
pub fn build_prompt(base: &str, title: &str, dod: &Vec<String>, recommended: &str, snapshot: &str) -> (out:
    String)
    ensures
        out@ == prompt_text(base@, title@, string_texts(dod@), recommended@, snapshot@),
{
    let mut out = String::from_str(base);
    out.append("\n\n");
    out.append("Task title: ");
    out.append(title);
    out.append("\n");
    out.append("\nDefinition of done:\n");
    let ghost head = out@;
    let ghost all = string_texts(dod@);
    let mut i: usize = 0;
    assert(head + dod_lines(all.take(0)) =~= head);
    while i < dod.len()
        invariant
            i <= dod.len(),
            all == string_texts(dod@),
            out@ == head + dod_lines(all.take(i as int)),
        decreases dod.len() - i,
    {
        assert(all.take(i + 1).drop_last() =~= all.take(i as int));
        assert(all.take(i + 1).last() == dod@[i as int]@);
        out.append("  - ");
        out.append(dod[i].as_str());
        out.append("\n");
        assert(out@ =~= head + dod_lines(all.take(i + 1)));
        i += 1;
    }
    assert(all.take(dod.len() as int) =~= all);
    out.append("\nRecommended approach:\n");
    out.append(recommended);
    out.append("\n");
    out.append("\nTask JSON (authoritative):\n");
    out.append(snapshot);
    let ghost body = out@;
    assert(body =~= base@ + "\n\n"@ + "Task title: "@ + title@ + "\n"@ + "\nDefinition of done:\n"@
        + dod_lines(all) + "\nRecommended approach:\n"@ + recommended@ + "\n"@
        + "\nTask JSON (authoritative):\n"@ + snapshot@);
    let chars = chars_of(out.as_str());
    if !(chars.len() > 0 && chars[chars.len() - 1] == '\n') {
        out.push('\n');
    }
    out
}

/// `s` with line feeds turned into spaces.
pub open spec fn without_feeds(s: Seq<char>) -> Seq<char> {
    Seq::new(
        s.len(),
        |i: int| if s[i] == '\n' {
            ' '
        } else {
            s[i]
        },
    )
}

/// A line of the run's log: time, level, the name of the agent, the message
/// on one line, and the details.
pub open spec fn log_text(ts: Seq<char>, level: Seq<char>, message: Seq<char>, details: Seq<Seq<char>>) -> Seq<
    char,
> {
    let head = ts + " "@ + level + " task-agent "@ + without_feeds(message);
    if details.len() > 0 {
        head + " "@ + join_seq(details, " "@)
    } else {
        head
    }
}

/// Whether a line of this level goes to the standard output where that is a
/// terminal: errors and warnings never do.
pub fn prefers_stdout(level: &str) -> (r: bool)
    ensures
        r == !(level@ == "ERROR"@ || level@ == "WARN"@),
{
    !(crate::text::str_eq(level, "ERROR") || crate::text::str_eq(level, "WARN"))
}

/// Writes a line of the run's log.
pub fn log_line(ts: &str, level: &str, message: &str, details: &Vec<String>) -> (out: String)
    ensures
        out@ == log_text(ts@, level@, message@, string_texts(details@)),
{
    let mut out = String::from_str(ts);
    out.append(" ");
    out.append(level);
    out.append(" task-agent ");
    let chars = chars_of(message);
    let mut flat: Vec<char> = Vec::new();
    let mut i: usize = 0;
    while i < chars.len()
        invariant
            i <= chars.len(),
            flat@.len() == i,
            forall|k: int| 0 <= k < i ==> flat@[k] == without_feeds(chars@)[k],
        decreases chars.len() - i,
    {
        if chars[i] == '\n' {
            flat.push(' ');
        } else {
            flat.push(chars[i]);
        }
        i += 1;
    }
    assert(flat@ =~= without_feeds(message@));
    let flat_text = string_of(&flat);
    out.append(flat_text.as_str());
    if details.len() > 0 {
        out.append(" ");
        let list = join_strings(details, " ");
        out.append(list.as_str());
    }
    out
}

/// A line of the agent's own log as it is shown while the agent runs.
pub fn stream_line(ts: &str, raw: &str, task_id: &str, run_id: &str) -> (out: String)
    ensures
        out@ == ts@ + " INFO codex raw "@ + compacted(raw@, 400) + " task_id="@ + task_id@
            + " run_id="@ + run_id@,
{
    let mut out = String::from_str(ts);
    out.append(" INFO codex raw ");
    let shown = compact_text(raw, 400);
    out.append(shown.as_str());
    out.append(" task_id=");
    out.append(task_id);
    out.append(" run_id=");
    out.append(run_id);
    out
}

/// The string values of a list of texts.
pub open spec fn string_values(list: Seq<Seq<char>>) -> Seq<JsonView> {
    Seq::new(list.len(), |i: int| JsonView::String(list[i]))
}

/// A list of strings as a JSON list.
pub fn strings_value(list: &Vec<String>) -> (out: Json)
    ensures
        out@ == JsonView::Array(string_values(string_texts(list@))),
{
    let mut items: Vec<Json> = Vec::new();
    let mut i: usize = 0;
    while i < list.len()
        invariant
            i <= list.len(),
            items@.len() == i,
            forall|k: int| 0 <= k < i ==> items@[k]@ == JsonView::String(list@[k]@),
        decreases list.len() - i,
    {
        items.push(Json::String(copy_string(&list[i])));
        i += 1;
    }
    proof {
        lemma_array_view(items);
        assert(item_views(items@) =~= string_values(string_texts(list@)));
    }
    Json::Array(items)
}

/// An object with one member.
pub fn single_member(name: &str, value: Json) -> (out: Json)
    ensures
        out@ == JsonView::Object(seq![(name@, value@)]),
{
    let mut members: Vec<Member> = Vec::new();
    members.push(Member { name: String::from_str(name), value });
    proof {
        lemma_object_view(members);
        assert(member_views(members@) =~= seq![(name@, value@)]);
    }
    Json::Object(members)
}

/// What the builder of the context pack is told of a task: its identifier,
/// title, status, model, definition of done and recommended approach, and
/// its verification commands where it has any.
pub open spec fn assembly_input(task: SelectedTask) -> JsonView {
    let always = seq![
        ("task_id"@, JsonView::String(task.task_id@)),
        ("title"@, JsonView::String(task.title@)),
        ("status"@, JsonView::String(task.status@)),
        ("model"@, JsonView::String(task.model@)),
        (
            "definition_of_done"@,
            JsonView::Array(string_values(string_texts(task.definition_of_done@))),
        ),
        (
            "recommended"@,
            JsonView::Object(seq![("approach"@, JsonView::String(task.recommended_approach@))]),
        ),
    ];
    if task.verification_commands@.len() > 0 {
        JsonView::Object(
            always.push(
                (
                    "verification"@,
                    JsonView::Object(
                        seq![
                            (
                                "commands"@,
                                JsonView::Array(
                                    string_values(string_texts(task.verification_commands@)),
                                ),
                            ),
                        ],
                    ),
                ),
            ),
        )
    } else {
        JsonView::Object(always)
    }
}

/// What the builder of the context pack is told of a task.
pub fn build_assembly_task_input(task: &SelectedTask) -> (out: Json)
    ensures
        out@ == assembly_input(*task),
{
    let mut members: Vec<Member> = Vec::new();
    members.push(
        Member { name: String::from_str("task_id"), value: Json::String(copy_string(&task.task_id)) },
    );
    members.push(
        Member { name: String::from_str("title"), value: Json::String(copy_string(&task.title)) },
    );
    members.push(
        Member { name: String::from_str("status"), value: Json::String(copy_string(&task.status)) },
    );
    members.push(
        Member { name: String::from_str("model"), value: Json::String(copy_string(&task.model)) },
    );
    members.push(
        Member {
            name: String::from_str("definition_of_done"),
            value: strings_value(&task.definition_of_done),
        },
    );
    members.push(
        Member {
            name: String::from_str("recommended"),
            value: single_member(
                "approach",
                Json::String(copy_string(&task.recommended_approach)),
            ),
        },
    );
    if task.verification_commands.len() > 0 {
        members.push(
            Member {
                name: String::from_str("verification"),
                value: single_member("commands", strings_value(&task.verification_commands)),
            },
        );
    }
    proof {
        lemma_object_view(members);
        assert(member_views(members@) =~= assembly_input(*task)->Object_0);
    }
    Json::Object(members)
}

/// The options that tell an outside agent which task to run: the task the
/// iteration chose, else the task asked for, else the next task where that
/// is allowed.
pub open spec fn selector_args(
    task_id_override: Option<Seq<char>>,
    explicit_task_id: Option<Seq<char>>,
    allow_next: bool,
) -> Seq<Seq<char>> {
    match task_id_override {
        Some(t) => seq!["--task-id"@, t],
        None => match explicit_task_id {
            Some(t) => seq!["--task-id"@, t],
            None => if allow_next {
                seq!["--next"@]
            } else {
                Seq::empty()
            },
        },
    }
}

/// The options that name the task list, the workspace and the prompt.
pub open spec fn place_args(tasks_path: Seq<char>, workspace: Seq<char>, prompt_path: Seq<char>) -> Seq<
    Seq<char>,
> {
    seq!["--tasks"@, tasks_path, "--workspace"@, workspace, "--prompt"@, prompt_path]
}

/// The option that names the assignee, where there is one.
pub open spec fn assignee_args(assignee: Option<Seq<char>>) -> Seq<Seq<char>> {
    match assignee {
        Some(a) => seq!["--assignee"@, a],
        None => Seq::empty(),
    }
}

/// The options that hand on the settings of the run: the reset of the task,
/// the switch of the context pack, and the policy for its failure.
pub open spec fn setting_args(
    reset_task: bool,
    context_compile: Option<bool>,
    policy: Option<ContextFailurePolicy>,
) -> Seq<Seq<char>> {
    (if reset_task {
        seq!["--reset-task"@]
    } else {
        Seq::<Seq<char>>::empty()
    }) + (match context_compile {
        Some(enabled) => if enabled {
            seq!["--context-compile"@]
        } else {
            seq!["--no-context-compile"@]
        },
        None => Seq::<Seq<char>>::empty(),
    }) + (match policy {
        Some(p) => seq![
            "--context-failure-policy"@,
            match p {
                ContextFailurePolicy::BestEffort => "best-effort"@,
                ContextFailurePolicy::Required => "required"@,
            },
        ],
        None => Seq::<Seq<char>>::empty(),
    })
}

/// The command line of an outside agent.
pub open spec fn outside_agent_args(
    tasks_path: Seq<char>,
    workspace: Seq<char>,
    prompt_path: Seq<char>,
    assignee: Option<Seq<char>>,
    task_id_override: Option<Seq<char>>,
    explicit_task_id: Option<Seq<char>>,
    allow_next: bool,
    reset_task: bool,
    context_compile: Option<bool>,
    policy: Option<ContextFailurePolicy>,
) -> Seq<Seq<char>> {
    place_args(tasks_path, workspace, prompt_path) + assignee_args(assignee) + selector_args(
        task_id_override,
        explicit_task_id,
        allow_next,
    ) + setting_args(reset_task, context_compile, policy)
}

/// The view of an optional slice.
pub open spec fn opt_str(s: Option<&str>) -> Option<Seq<char>> {
    match s {
        Some(t) => Some(t@),
        None => None,
    }
}

fn push_place_args(args: &mut Vec<String>, tasks_path: &str, workspace: &str, prompt_path: &str)
    ensures
        string_texts(final(args)@) == string_texts(old(args)@) + place_args(
            tasks_path@,
            workspace@,
            prompt_path@,
        ),
{
    let ghost before = string_texts(args@);
    push_arg(args, "--tasks");
    push_arg(args, tasks_path);
    push_arg(args, "--workspace");
    push_arg(args, workspace);
    push_arg(args, "--prompt");
    push_arg(args, prompt_path);
    assert(string_texts(args@) =~= before + place_args(tasks_path@, workspace@, prompt_path@));
}

fn push_assignee_args(args: &mut Vec<String>, assignee: Option<&str>)
    ensures
        string_texts(final(args)@) == string_texts(old(args)@) + assignee_args(opt_str(assignee)),
{
    let ghost before = string_texts(args@);
    match assignee {
        Some(a) => {
            push_arg(args, "--assignee");
            push_arg(args, a);
        },
        None => {},
    }
    assert(string_texts(args@) =~= before + assignee_args(opt_str(assignee)));
}

fn push_selector_args(
    args: &mut Vec<String>,
    task_id_override: Option<&str>,
    explicit_task_id: Option<&str>,
    allow_next: bool,
)
    ensures
        string_texts(final(args)@) == string_texts(old(args)@) + selector_args(
            opt_str(task_id_override),
            opt_str(explicit_task_id),
            allow_next,
        ),
{
    let ghost before = string_texts(args@);
    match task_id_override {
        Some(t) => {
            push_arg(args, "--task-id");
            push_arg(args, t);
        },
        None => match explicit_task_id {
            Some(t) => {
                push_arg(args, "--task-id");
                push_arg(args, t);
            },
            None => {
                if allow_next {
                    push_arg(args, "--next");
                }
            },
        },
    }
    assert(string_texts(args@) =~= before + selector_args(
        opt_str(task_id_override),
        opt_str(explicit_task_id),
        allow_next,
    ));
}

fn push_setting_args(
    args: &mut Vec<String>,
    reset_task: bool,
    context_compile: Option<bool>,
    policy: Option<ContextFailurePolicy>,
)
    ensures
        string_texts(final(args)@) == string_texts(old(args)@) + setting_args(
            reset_task,
            context_compile,
            policy,
        ),
{
    let ghost before = string_texts(args@);
    if reset_task {
        push_arg(args, "--reset-task");
    }
    match context_compile {
        Some(enabled) => {
            if enabled {
                push_arg(args, "--context-compile");
            } else {
                push_arg(args, "--no-context-compile");
            }
        },
        None => {},
    }
    match policy {
        Some(p) => {
            push_arg(args, "--context-failure-policy");
            push_arg(args, context_failure_policy_arg(p));
        },
        None => {},
    }
    assert(string_texts(args@) =~= before + setting_args(reset_task, context_compile, policy));
}

/// The command line of an outside agent.
pub fn task_agent_args(
    tasks_path: &str,
    workspace: &str,
    prompt_path: &str,
    assignee: Option<&str>,
    task_id_override: Option<&str>,
    explicit_task_id: Option<&str>,
    allow_next: bool,
    reset_task: bool,
    context_compile: Option<bool>,
    policy: Option<ContextFailurePolicy>,
) -> (args: Vec<String>)
    ensures
        string_texts(args@) == outside_agent_args(
            tasks_path@,
            workspace@,
            prompt_path@,
            opt_str(assignee),
            opt_str(task_id_override),
            opt_str(explicit_task_id),
            allow_next,
            reset_task,
            context_compile,
            policy,
        ),
{
    let mut args: Vec<String> = Vec::new();
    assert(string_texts(args@) =~= Seq::<Seq<char>>::empty());
    push_place_args(&mut args, tasks_path, workspace, prompt_path);
    push_assignee_args(&mut args, assignee);
    push_selector_args(&mut args, task_id_override, explicit_task_id, allow_next);
    push_setting_args(&mut args, reset_task, context_compile, policy);
    let ghost places = place_args(tasks_path@, workspace@, prompt_path@);
    let ghost assigned = assignee_args(opt_str(assignee));
    let ghost chosen = selector_args(
        opt_str(task_id_override),
        opt_str(explicit_task_id),
        allow_next,
    );
    let ghost settings = setting_args(reset_task, context_compile, policy);
    assert(string_texts(args@) =~= places + assigned + chosen + settings);
    args
}

} // verus!
