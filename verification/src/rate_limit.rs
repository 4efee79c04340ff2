//! The sliding-window budget of requests and tokens per model.
//!
//! Times are whole microseconds since the epoch; a window is a length in
//! microseconds.

use vstd::prelude::*;
use crate::json::Json;
use crate::json_text::{compact, to_text};
use crate::ledger::{
    extract_requests, ledger_entries, payload_of, read_rate_limit_payload, record_entry, recorded,
    store_requests, with_requests,
};
use crate::text::str_eq;

verus! {

/// Microseconds in one second.
pub const MICROS_PER_SECOND: u64 = 1_000_000;

/// The least number of tokens that a prompt is taken to cost.
pub const MIN_PROMPT_TOKENS: u64 = 1000;

/// One recorded request.
#[derive(Debug, Clone, PartialEq, Eq)]
pub struct RateLimitEntry {
    pub ts_micros: i64,
    pub model: String,
    pub tokens: i64,
}

/// View of a [`RateLimitEntry`].
pub struct EntryView {
    pub ts: int,
    pub model: Seq<char>,
    pub tokens: int,
}

impl View for RateLimitEntry {
    type V = EntryView;

    open spec fn view(&self) -> EntryView {
        EntryView { ts: self.ts_micros as int, model: self.model@, tokens: self.tokens as int }
    }
}

/// The views of a list of entries, in order.
pub open spec fn entry_views(entries: Seq<RateLimitEntry>) -> Seq<EntryView> {
    Seq::new(entries.len(), |i: int| entries[i]@)
}

/// When a request was made and what it cost.
#[derive(Debug, Copy, Clone, PartialEq, Eq, Structural)]
pub struct Usage {
    pub ts: i64,
    pub tokens: i64,
}

/// The limits of a model: tokens per minute, then requests per minute.
pub open spec fn settings(model: Seq<char>) -> (u64, u64) {
    if model == "gpt-5.1-codex-mini"@ {
        (200_000, 500)
    } else if model == "gpt-5.1-codex"@ || model == "gpt-5.2-codex"@ {
        (500_000, 500)
    } else {
        (200_000, 500)
    }
}

/// The limits of a model: tokens per minute, then requests per minute.
pub fn rate_limit_settings(model: &str) -> (limits: (u64, u64))
    ensures
        limits == settings(model@),
{
    if str_eq(model, "gpt-5.1-codex-mini") {
        (200_000, 500)
    } else if str_eq(model, "gpt-5.1-codex") || str_eq(model, "gpt-5.2-codex") {
        (500_000, 500)
    } else {
        (200_000, 500)
    }
}

/// A quarter of `byte_size`, rounded up, but at least the minimum.
pub open spec fn prompt_tokens(byte_size: nat) -> nat {
    let quarter = (byte_size + 3) / 4;
    if quarter < MIN_PROMPT_TOKENS {
        MIN_PROMPT_TOKENS as nat
    } else {
        quarter
    }
}

/// The tokens that a prompt of `byte_size` bytes is taken to cost.
pub fn estimate_prompt_tokens(byte_size: u64) -> (tokens: u64)
    ensures
        tokens == prompt_tokens(byte_size as nat),
        tokens >= MIN_PROMPT_TOKENS,
{
    let quarter = byte_size / 4 + if byte_size % 4 == 0 {
        0
    } else {
        1
    };
    if quarter < MIN_PROMPT_TOKENS {
        MIN_PROMPT_TOKENS
    } else {
        quarter
    }
}

/// A request made at `ts` still counts at `now`: it is younger than `window`.
pub open spec fn is_recent(ts: int, now: int, window: int) -> bool {
    now - ts < window
}

/// Whether a request made at `ts` still counts at `now`.
pub fn check_recent(ts: i64, now: i64, window: u64) -> (r: bool)
    ensures
        r == is_recent(ts as int, now as int, window as int),
{
    (now as i128) - (ts as i128) < (window as i128)
}

/// The requests among `entries` that `model` made and that still count at
/// `now`, in ledger order.
pub open spec fn recent_usage(entries: Seq<EntryView>, model: Seq<char>, now: int, window: int) -> Seq<
    Usage,
>
    decreases entries.len(),
{
    if entries.len() == 0 {
        Seq::empty()
    } else {
        let rest = recent_usage(entries.drop_last(), model, now, window);
        let e = entries.last();
        if e.model == model && is_recent(e.ts, now, window) {
            rest.push(Usage { ts: e.ts as i64, tokens: e.tokens as i64 })
        } else {
            rest
        }
    }
}

/// The requests among `entries` that `model` made and that still count.
pub fn select_recent(entries: &Vec<RateLimitEntry>, model: &str, now: i64, window: u64) -> (out: Vec<
    Usage,
>)
    ensures
        out@ == recent_usage(entry_views(entries@), model@, now as int, window as int),
{
    let mut out: Vec<Usage> = Vec::new();
    let mut i: usize = 0;
    while i < entries.len()
        invariant
            i <= entries.len(),
            out@ == recent_usage(
                entry_views(entries@).take(i as int),
                model@,
                now as int,
                window as int,
            ),
        decreases entries.len() - i,
    {
        let ghost before = entry_views(entries@).take(i as int);
        let ghost after = entry_views(entries@).take(i + 1);
        assert(after.drop_last() =~= before);
        assert(after.last() == entries@[i as int]@);
        let e = &entries[i];
        if str_eq(e.model.as_str(), model) && check_recent(e.ts_micros, now, window) {
            out.push(Usage { ts: e.ts_micros, tokens: e.tokens });
        }
        i += 1;
    }
    assert(entry_views(entries@).take(entries.len() as int) =~= entry_views(entries@));
    out
}

/// `u` put into the time-ordered list `s`, behind every request that is not
/// younger than it.
pub open spec fn inserted(s: Seq<Usage>, u: Usage) -> Seq<Usage>
    decreases s.len(),
{
    if s.len() == 0 {
        seq![u]
    } else if s.last().ts <= u.ts {
        s.push(u)
    } else {
        inserted(s.drop_last(), u).push(s.last())
    }
}

/// `s` ordered by time, oldest first; requests of equal time keep their
/// order.
pub open spec fn by_time(s: Seq<Usage>) -> Seq<Usage>
    decreases s.len(),
{
    if s.len() == 0 {
        Seq::empty()
    } else {
        inserted(by_time(s.drop_last()), s.last())
    }
}

/// No request in `s` stands before an older one.
pub open spec fn ordered(s: Seq<Usage>) -> bool {
    forall|i: int, j: int| 0 <= i <= j < s.len() ==> s[i].ts <= s[j].ts
}

/// Putting `u` into `s` means placing it at `p`, where everything from `p` on
/// is younger than `u` and the request before `p` is not.
pub proof fn lemma_inserted_at(s: Seq<Usage>, u: Usage, p: int)
    requires
        0 <= p <= s.len(),
        forall|k: int| p <= k < s.len() ==> s[k].ts > u.ts,
        p == 0 || s[p - 1].ts <= u.ts,
    ensures
        inserted(s, u) == s.insert(p, u),
    decreases s.len(),
{
    if s.len() == 0 {
        assert(s.insert(0, u) =~= seq![u]);
    } else if p == s.len() {
        assert(s.insert(p, u) =~= s.push(u));
    } else {
        lemma_inserted_at(s.drop_last(), u, p);
        assert(s.drop_last().insert(p, u).push(s.last()) =~= s.insert(p, u));
    }
}

/// Puts `u` into the time-ordered list `list`.
pub fn insert_by_time(list: &mut Vec<Usage>, u: Usage)
    ensures
        final(list)@ == inserted(old(list)@, u),
{
    let mut p: usize = list.len();
    while p > 0 && list[p - 1].ts > u.ts
        invariant
            p <= list.len(),
            *list == *old(list),
            forall|k: int| p <= k < list.len() ==> list@[k].ts > u.ts,
        decreases p,
    {
        p -= 1;
    }
    proof {
        lemma_inserted_at(list@, u, p as int);
    }
    list.insert(p, u);
}

/// Orders requests by time, oldest first.
pub fn sort_by_time(requests: &Vec<Usage>) -> (out: Vec<Usage>)
    ensures
        out@ == by_time(requests@),
{
    let mut out: Vec<Usage> = Vec::new();
    let mut i: usize = 0;
    while i < requests.len()
        invariant
            i <= requests.len(),
            out@ == by_time(requests@.take(i as int)),
        decreases requests.len() - i,
    {
        assert(requests@.take(i + 1).drop_last() =~= requests@.take(i as int));
        insert_by_time(&mut out, requests[i]);
        i += 1;
    }
    assert(requests@.take(requests.len() as int) =~= requests@);
    out
}

/// The tokens of the first `k` requests of `s`.
pub open spec fn prefix_tokens(s: Seq<Usage>, k: int) -> int
    decreases k,
{
    if k <= 0 {
        0
    } else {
        prefix_tokens(s, k - 1) + s[k - 1].tokens
    }
}

/// The tokens of all requests of `s`.
pub open spec fn total_tokens(s: Seq<Usage>) -> int {
    prefix_tokens(s, s.len() as int)
}

/// How long until the request budget has room: with `rpm` or more requests
/// in the window, the time until the one that stands `rpm` from the end
/// leaves the window.
pub open spec fn rpm_wait(sorted: Seq<Usage>, rpm: int, now: int, window: int) -> int {
    if rpm > 0 && sorted.len() >= rpm {
        sorted[sorted.len() - rpm].ts + window - now
    } else {
        0
    }
}

/// Walking `sorted` from `from` with `dropped` tokens already let go: the
/// time of the first request with which the tokens let go reach `over`.
pub open spec fn drop_until(sorted: Seq<Usage>, over: int, from: int, dropped: int) -> Option<int>
    decreases sorted.len() - from,
{
    if from < 0 || from >= sorted.len() {
        None
    } else if dropped + sorted[from].tokens >= over {
        Some(sorted[from].ts as int)
    } else {
        drop_until(sorted, over, from + 1, dropped + sorted[from].tokens)
    }
}

/// How long until the token budget has room for `estimated` more tokens.
pub open spec fn tpm_wait(sorted: Seq<Usage>, tpm: int, estimated: int, now: int, window: int) -> int {
    let over = total_tokens(sorted) + estimated - tpm;
    if tpm > 0 && over > 0 {
        match drop_until(sorted, over, 0, 0) {
            Some(ts) => ts + window - now,
            None => 0,
        }
    } else {
        0
    }
}

/// The longer of the two waits, and never less than nothing.
pub open spec fn wait_micros(
    sorted: Seq<Usage>,
    tpm: int,
    rpm: int,
    estimated: int,
    now: int,
    window: int,
) -> int {
    let a = rpm_wait(sorted, rpm, now, window);
    let b = tpm_wait(sorted, tpm, estimated, now, window);
    let longer = if a >= b {
        a
    } else {
        b
    };
    if longer > 0 {
        longer
    } else {
        0
    }
}

/// A length in microseconds as whole seconds, rounded up.
pub open spec fn whole_seconds(micros: int) -> int {
    (micros + (MICROS_PER_SECOND - 1)) / (MICROS_PER_SECOND as int)
}

/// The seconds to sleep before the next request, given the requests that
/// still count.
pub open spec fn sleep_seconds(
    recent: Seq<Usage>,
    tpm: int,
    rpm: int,
    estimated: int,
    now: int,
    window: int,
) -> int {
    whole_seconds(wait_micros(by_time(recent), tpm, rpm, estimated, now, window))
}

/// The tokens of all requests of `list`.
pub fn sum_tokens(list: &Vec<Usage>) -> (total: i128)
    ensures
        total == total_tokens(list@),
        -(list.len() * 0x8000_0000_0000_0000) <= total <= list.len() * 0x7fff_ffff_ffff_ffff,
{
    let mut total: i128 = 0;
    let mut i: usize = 0;
    while i < list.len()
        invariant
            i <= list.len(),
            total == prefix_tokens(list@, i as int),
            -(i * 0x8000_0000_0000_0000) <= total <= i * 0x7fff_ffff_ffff_ffff,
        decreases list.len() - i,
    {
        total = total + list[i].tokens as i128;
        i += 1;
    }
    total
}

/// The time of the first request with which the tokens let go reach `over`.
pub fn find_drop_time(sorted: &Vec<Usage>, over: i128) -> (r: Option<i64>)
    ensures
        match r {
            Some(ts) => drop_until(sorted@, over as int, 0, 0) == Some(ts as int),
            None => drop_until(sorted@, over as int, 0, 0) is None,
        },
{
    let mut dropped: i128 = 0;
    let mut i: usize = 0;
    while i < sorted.len()
        invariant
            i <= sorted.len(),
            -(i * 0x8000_0000_0000_0000) <= dropped <= i * 0x7fff_ffff_ffff_ffff,
            drop_until(sorted@, over as int, 0, 0) == drop_until(
                sorted@,
                over as int,
                i as int,
                dropped as int,
            ),
        decreases sorted.len() - i,
    {
        dropped = dropped + sorted[i].tokens as i128;
        if dropped >= over {
            return Some(sorted[i].ts);
        }
        i += 1;
    }
    None
}

/// The seconds to sleep before a request that is expected to cost
/// `estimated_tokens`, so that neither limit is passed. `recent` holds the
/// requests of the model that still count; a limit of zero is not enforced.
pub fn sleep_seconds_for(
    recent: &Vec<Usage>,
    tpm_limit: u64,
    rpm_limit: u64,
    estimated_tokens: u64,
    now: i64,
    window: u64,
) -> (seconds: u64)
    ensures
        seconds == sleep_seconds(
            recent@,
            tpm_limit as int,
            rpm_limit as int,
            estimated_tokens as int,
            now as int,
            window as int,
        ),
{
    let sorted = sort_by_time(recent);
    let mut wait: i128 = 0;
    let n = sorted.len();
    if rpm_limit > 0 && n as u64 >= rpm_limit {
        let idx: usize = n - rpm_limit as usize;
        let expire = sorted[idx].ts as i128 + window as i128 - now as i128;
        if expire > wait {
            wait = expire;
        }
    }
    if tpm_limit > 0 {
        let used = sum_tokens(&sorted);
        assert(n <= 0xffff_ffff_ffff_ffff);
        let room: i128 = tpm_limit as i128 - estimated_tokens as i128;
        if used > room {
            let over: i128 = used - room;
            match find_drop_time(&sorted, over) {
                Some(ts) => {
                    let expire = ts as i128 + window as i128 - now as i128;
                    if expire > wait {
                        wait = expire;
                    }
                },
                None => {},
            }
        }
    }
    let seconds = (wait + 999_999) / 1_000_000;
    seconds as u64
}

/// How many requests of `s` still count at `at`.
pub open spec fn live_count(s: Seq<Usage>, at: int, window: int) -> int
    decreases s.len(),
{
    if s.len() == 0 {
        0
    } else {
        live_count(s.drop_last(), at, window) + if is_recent(s.last().ts as int, at, window) {
            1int
        } else {
            0int
        }
    }
}

/// The tokens of the requests of `s` that still count at `at`.
pub open spec fn live_tokens(s: Seq<Usage>, at: int, window: int) -> int
    decreases s.len(),
{
    if s.len() == 0 {
        0
    } else {
        live_tokens(s.drop_last(), at, window) + if is_recent(s.last().ts as int, at, window) {
            s.last().tokens as int
        } else {
            0int
        }
    }
}

/// No request of `s` has a negative token count.
pub open spec fn tokens_nonneg(s: Seq<Usage>) -> bool {
    forall|i: int| 0 <= i < s.len() ==> s[i].tokens >= 0
}

proof fn lemma_prefix_same(a: Seq<Usage>, b: Seq<Usage>, k: int)
    requires
        0 <= k <= a.len(),
        k <= b.len(),
        forall|i: int| 0 <= i < k ==> a[i] == b[i],
    ensures
        prefix_tokens(a, k) == prefix_tokens(b, k),
    decreases k,
{
    if k > 0 {
        lemma_prefix_same(a, b, k - 1);
    }
}

proof fn lemma_total_push(s: Seq<Usage>, u: Usage)
    ensures
        total_tokens(s.push(u)) == total_tokens(s) + u.tokens,
{
    lemma_prefix_same(s.push(u), s, s.len() as int);
}

proof fn lemma_inserted(s: Seq<Usage>, u: Usage, at: int, window: int)
    ensures
        inserted(s, u).len() == s.len() + 1,
        ordered(s) ==> ordered(inserted(s, u)),
        tokens_nonneg(s) && u.tokens >= 0 ==> tokens_nonneg(inserted(s, u)),
        total_tokens(inserted(s, u)) == total_tokens(s) + u.tokens,
        live_count(inserted(s, u), at, window) == live_count(s, at, window) + if is_recent(
            u.ts as int,
            at,
            window,
        ) {
            1int
        } else {
            0int
        },
        live_tokens(inserted(s, u), at, window) == live_tokens(s, at, window) + if is_recent(
            u.ts as int,
            at,
            window,
        ) {
            u.tokens as int
        } else {
            0int
        },
        forall|i: int|
            0 <= i < inserted(s, u).len() ==> #[trigger] inserted(s, u)[i] == u || s.contains(
                inserted(s, u)[i],
            ),
    decreases s.len(),
{
    let r = inserted(s, u);
    if s.len() == 0 {
        assert(r =~= seq![u]);
        assert(r.drop_last() =~= s);
        lemma_total_push(s, u);
        assert(r =~= s.push(u));
    } else if s.last().ts <= u.ts {
        assert(r.drop_last() =~= s);
        lemma_total_push(s, u);
        assert forall|i: int| 0 <= i < r.len() implies #[trigger] r[i] == u || s.contains(r[i]) by {
            if i < s.len() {
                assert(s[i] == r[i]);
            }
        }
    } else {
        let init = s.drop_last();
        let ri = inserted(init, u);
        lemma_inserted(init, u, at, window);
        assert(r.drop_last() =~= ri);
        lemma_total_push(ri, s.last());
        lemma_total_push(init, s.last());
        assert(init.push(s.last()) =~= s);
        assert(r.last() == s.last());
        assert forall|i: int| 0 <= i < r.len() implies #[trigger] r[i] == u || s.contains(r[i]) by {
            if i < ri.len() {
                assert(r[i] == ri[i]);
                if ri[i] != u {
                    assert(init.contains(ri[i]));
                    let j = choose|j: int| 0 <= j < init.len() && init[j] == ri[i];
                    assert(s[j] == ri[i]);
                }
            } else {
                assert(s[s.len() - 1] == r[i]);
            }
        }
        if ordered(s) {
            assert(ordered(init)) by {
                assert forall|i: int, j: int| 0 <= i <= j < init.len() implies init[i].ts
                    <= init[j].ts by {
                    assert(s[i].ts <= s[j].ts);
                }
            }
            assert forall|i: int, j: int| 0 <= i <= j < r.len() implies r[i].ts <= r[j].ts by {
                if j < ri.len() {
                    assert(ri[i].ts <= ri[j].ts);
                } else if i < ri.len() {
                    if ri[i] == u {
                    } else {
                        assert(init.contains(ri[i]));
                        let k = choose|k: int| 0 <= k < init.len() && init[k] == ri[i];
                        assert(s[k].ts <= s[s.len() - 1].ts);
                    }
                }
            }
        }
        if tokens_nonneg(s) && u.tokens >= 0 {
            assert(tokens_nonneg(init)) by {
                assert forall|i: int| 0 <= i < init.len() implies init[i].tokens >= 0 by {
                    assert(s[i].tokens >= 0);
                }
            }
            assert forall|i: int| 0 <= i < r.len() implies r[i].tokens >= 0 by {
                if i < ri.len() {
                    assert(r[i] == ri[i]);
                } else {
                    assert(s[s.len() - 1].tokens >= 0);
                }
            }
        }
    }
}

/// Ordering by time keeps the requests: as many as before, with the same
/// tokens, and the same ones still count at any time.
pub proof fn lemma_by_time(s: Seq<Usage>, at: int, window: int)
    ensures
        by_time(s).len() == s.len(),
        ordered(by_time(s)),
        tokens_nonneg(s) ==> tokens_nonneg(by_time(s)),
        total_tokens(by_time(s)) == total_tokens(s),
        live_count(by_time(s), at, window) == live_count(s, at, window),
        live_tokens(by_time(s), at, window) == live_tokens(s, at, window),
    decreases s.len(),
{
    if s.len() > 0 {
        let init = s.drop_last();
        lemma_by_time(init, at, window);
        lemma_inserted(by_time(init), s.last(), at, window);
        lemma_total_push(init, s.last());
        assert(init.push(s.last()) =~= s);
        if tokens_nonneg(s) {
            assert(tokens_nonneg(init)) by {
                assert forall|i: int| 0 <= i < init.len() implies init[i].tokens >= 0 by {
                    assert(s[i].tokens >= 0);
                }
            }
            assert(s[s.len() - 1].tokens >= 0);
        }
    }
}

proof fn lemma_live_bounds(s: Seq<Usage>, at: int, window: int)
    requires
        tokens_nonneg(s),
    ensures
        0 <= live_count(s, at, window) <= s.len(),
        0 <= live_tokens(s, at, window) <= total_tokens(s),
    decreases s.len(),
{
    if s.len() > 0 {
        let init = s.drop_last();
        assert(tokens_nonneg(init)) by {
            assert forall|i: int| 0 <= i < init.len() implies init[i].tokens >= 0 by {
                assert(s[i].tokens >= 0);
            }
        }
        lemma_live_bounds(init, at, window);
        lemma_total_push(init, s.last());
        assert(init.push(s.last()) =~= s);
        assert(s[s.len() - 1].tokens >= 0);
    }
}

proof fn lemma_expired_prefix(s: Seq<Usage>, k: int, at: int, window: int)
    requires
        ordered(s),
        tokens_nonneg(s),
        0 <= k < s.len(),
        !is_recent(s[k].ts as int, at, window),
    ensures
        live_count(s, at, window) <= s.len() - k - 1,
        live_tokens(s, at, window) <= total_tokens(s) - prefix_tokens(s, k + 1),
    decreases s.len(),
{
    let init = s.drop_last();
    assert(tokens_nonneg(init)) by {
        assert forall|i: int| 0 <= i < init.len() implies init[i].tokens >= 0 by {
            assert(s[i].tokens >= 0);
        }
    }
    assert(ordered(init)) by {
        assert forall|i: int, j: int| 0 <= i <= j < init.len() implies init[i].ts <= init[j].ts by {
            assert(s[i].ts <= s[j].ts);
        }
    }
    lemma_total_push(init, s.last());
    assert(init.push(s.last()) =~= s);
    assert(s[s.len() - 1].tokens >= 0);
    if k == s.len() - 1 {
        lemma_all_expired(init, s[k].ts as int, at, window);
    } else {
        assert(init[k] == s[k]);
        lemma_expired_prefix(init, k, at, window);
        lemma_prefix_same(s, init, k + 1);
    }
}

proof fn lemma_all_expired(s: Seq<Usage>, bound: int, at: int, window: int)
    requires
        forall|i: int| 0 <= i < s.len() ==> s[i].ts <= bound,
        !is_recent(bound, at, window),
    ensures
        live_count(s, at, window) == 0,
        live_tokens(s, at, window) == 0,
    decreases s.len(),
{
    if s.len() > 0 {
        let init = s.drop_last();
        assert forall|i: int| 0 <= i < init.len() implies init[i].ts <= bound by {
            assert(s[i].ts <= bound);
        }
        lemma_all_expired(init, bound, at, window);
        assert(s[s.len() - 1].ts <= bound);
    }
}

proof fn lemma_drop_until(s: Seq<Usage>, over: int, from: int, dropped: int)
    requires
        tokens_nonneg(s),
        0 <= from <= s.len(),
        dropped == prefix_tokens(s, from),
        dropped < over,
    ensures
        match drop_until(s, over, from, dropped) {
            Some(t) => exists|k: int|
                from <= k < s.len() && #[trigger] s[k].ts == t && prefix_tokens(s, k + 1) >= over,
            None => total_tokens(s) < over,
        },
    decreases s.len() - from,
{
    if from < s.len() {
        if dropped + s[from].tokens >= over {
            assert(s[from].ts == s[from].ts && prefix_tokens(s, from + 1) >= over);
        } else {
            lemma_drop_until(s, over, from + 1, dropped + s[from].tokens);
        }
    }
}

/// Rounding up to whole seconds: nothing stays nothing, any wait of up to a
/// second becomes one second, and the result is the least number of seconds
/// that covers the wait.
pub proof fn lemma_whole_seconds(micros: int)
    requires
        micros >= 0,
    ensures
        micros == 0 ==> whole_seconds(micros) == 0,
        0 < micros <= MICROS_PER_SECOND ==> whole_seconds(micros) == 1,
        whole_seconds(micros) * MICROS_PER_SECOND >= micros,
        micros > 0 ==> (whole_seconds(micros) - 1) * MICROS_PER_SECOND < micros,
        whole_seconds(micros) >= 0,
{
}

/// After the sleep that is computed for them, the requests that still count
/// leave room for one more request and for the estimated tokens: fewer than
/// `rpm` requests remain in the window, and their tokens with the estimate
/// are within `tpm`. This holds where both limits are enforced, the estimate
/// alone fits the token limit, and no request has a negative token count.
pub proof fn lemma_sleep_respects_limits(
    recent: Seq<Usage>,
    tpm: int,
    rpm: int,
    estimated: int,
    now: int,
    window: int,
)
    requires
        rpm > 0,
        tpm > 0,
        0 <= estimated <= tpm,
        tokens_nonneg(recent),
    ensures
        ({
            let sleep = sleep_seconds(recent, tpm, rpm, estimated, now, window);
            let at = now + sleep * MICROS_PER_SECOND;
            &&& sleep >= 0
            &&& live_count(recent, at, window) < rpm
            &&& live_tokens(recent, at, window) + estimated <= tpm
        }),
{
    let s = by_time(recent);
    let wait = wait_micros(s, tpm, rpm, estimated, now, window);
    let sleep = whole_seconds(wait);
    let at = now + sleep * MICROS_PER_SECOND;
    lemma_whole_seconds(wait);
    lemma_by_time(recent, at, window);
    lemma_live_bounds(s, at, window);
    if s.len() >= rpm {
        let idx = s.len() - rpm;
        assert(wait >= s[idx].ts + window - now);
        lemma_expired_prefix(s, idx, at, window);
    }
    let over = total_tokens(s) + estimated - tpm;
    if over > 0 {
        lemma_drop_until(s, over, 0, 0);
        match drop_until(s, over, 0, 0) {
            Some(t) => {
                let k = choose|k: int|
                    0 <= k < s.len() && #[trigger] s[k].ts == t && prefix_tokens(s, k + 1) >= over;
                assert(wait >= s[k].ts + window - now);
                lemma_expired_prefix(s, k, at, window);
            },
            None => {},
        }
    }
}

/// The text of a file, or nothing where there is none.
pub open spec fn file_text(text: Option<&str>) -> Option<Seq<char>> {
    match text {
        Some(t) => Some(t@),
        None => None,
    }
}

/// The seconds to sleep before the next request of `model`, given the ledger
/// `payload`.
pub fn ledger_sleep_seconds(
    payload: &Json,
    model: &str,
    window: u64,
    tpm_limit: u64,
    rpm_limit: u64,
    estimated_tokens: u64,
    now: i64,
) -> (seconds: u64)
    ensures
        seconds == sleep_seconds(
            recent_usage(ledger_entries(payload@), model@, now as int, window as int),
            tpm_limit as int,
            rpm_limit as int,
            estimated_tokens as int,
            now as int,
            window as int,
        ),
{
    let entries = extract_requests(payload);
    let recent = select_recent(&entries, model, now, window);
    sleep_seconds_for(&recent, tpm_limit, rpm_limit, estimated_tokens, now, window)
}

/// The ledger `payload` after a request of `model` that cost `tokens` is
/// recorded at `now`: the requests that no longer count are dropped, the new
/// one is added last, and the other members of the ledger stay.
pub fn ledger_record(payload: &Json, model: &str, window: u64, tokens: u64, now: i64) -> (out: Json)
    ensures
        out@ == with_requests(
            payload@,
            recorded(ledger_entries(payload@), model@, tokens, now as int, window as int),
        ),
{
    let entries = extract_requests(payload);
    let kept = record_entry(&entries, model, tokens, now, window);
    store_requests(payload, &kept)
}

/// The seconds to sleep before the next request of `model` so that neither
/// its token limit nor its request limit is passed. `ledger_text` is what the
/// ledger file holds, or nothing where it is missing or unreadable; a text
/// that is no JSON counts as an empty ledger.
pub fn rate_limit_sleep_seconds(
    ledger_text: Option<&str>,
    model: &str,
    window: u64,
    tpm_limit: u64,
    rpm_limit: u64,
    estimated_tokens: u64,
    now: i64,
) -> (seconds: u64)
    ensures
        seconds == sleep_seconds(
            recent_usage(
                ledger_entries(payload_of(file_text(ledger_text))),
                model@,
                now as int,
                window as int,
            ),
            tpm_limit as int,
            rpm_limit as int,
            estimated_tokens as int,
            now as int,
            window as int,
        ),
{
    let (payload, _) = read_rate_limit_payload(ledger_text);
    ledger_sleep_seconds(&payload, model, window, tpm_limit, rpm_limit, estimated_tokens, now)
}

/// The new text of the ledger file after a request of `model` that cost
/// `tokens` is recorded at `now`.
pub fn record_rate_usage(
    ledger_text: Option<&str>,
    model: &str,
    window: u64,
    tokens: u64,
    now: i64,
) -> (text: String)
    ensures
        text@ == compact(
            with_requests(
                payload_of(file_text(ledger_text)),
                recorded(
                    ledger_entries(payload_of(file_text(ledger_text))),
                    model@,
                    tokens,
                    now as int,
                    window as int,
                ),
            ),
        ),
{
    let (payload, _) = read_rate_limit_payload(ledger_text);
    let updated = ledger_record(&payload, model, window, tokens, now);
    to_text(&updated)
}

} // verus!
