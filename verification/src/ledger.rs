//! The rate-limit ledger as a JSON document: an object whose member
//! `requests` lists the recorded requests; its other members are kept as
//! they are.

use vstd::prelude::*;
use crate::decimal::{
    lemma_micros_round_trip, micros_decimal, parse_i64, parse_micros, seconds_number,
    text_integer, text_micros, MAX_MICROS,
};
use crate::json::{
    copy_string, item_views, lemma_array_view, lemma_object_view, lemma_set_member, lookup,
    member_views, set_member, with_member, Json, JsonNumber, JsonView, Member, NumberView,
};
use crate::json_text::{parsed, parse_json};
use crate::rate_limit::{check_recent, entry_views, is_recent, EntryView, RateLimitEntry};

verus! {

/// A number of microseconds cut to the range that is kept.
pub open spec fn clamp_micros(v: int) -> int {
    if v > MAX_MICROS {
        MAX_MICROS as int
    } else if v < -MAX_MICROS {
        -MAX_MICROS
    } else {
        v
    }
}

/// The time that a member holds, in microseconds: a number of seconds, or a
/// string that writes one; anything else counts as the epoch.
pub open spec fn value_micros(field: Option<JsonView>) -> int {
    match field {
        Some(JsonView::Number(NumberView::PosInt(n))) => clamp_micros(n * 1_000_000),
        Some(JsonView::Number(NumberView::NegInt(n))) => clamp_micros(n * 1_000_000),
        Some(JsonView::Number(NumberView::Float(t))) => match text_micros(t) {
            Some(v) => v,
            None => 0,
        },
        Some(JsonView::String(t)) => match text_micros(t) {
            Some(v) => v,
            None => 0,
        },
        _ => 0,
    }
}

/// The token count that a member holds: a whole number, cut to the signed
/// range, or a string that writes one; anything else counts as zero.
pub open spec fn value_tokens(field: Option<JsonView>) -> int {
    match field {
        Some(JsonView::Number(NumberView::PosInt(n))) => if n > i64::MAX {
            i64::MAX as int
        } else {
            n as int
        },
        Some(JsonView::Number(NumberView::NegInt(n))) => n as int,
        Some(JsonView::String(t)) => match text_integer(t) {
            Some(v) => v,
            None => 0,
        },
        _ => 0,
    }
}

/// The model that a member names: a string, or else the empty name.
pub open spec fn value_model(field: Option<JsonView>) -> Seq<char> {
    match field {
        Some(JsonView::String(t)) => t,
        _ => Seq::empty(),
    }
}

/// The request that an item of the ledger records; an item that is no object
/// records none.
pub open spec fn entry_of(item: JsonView) -> Option<EntryView> {
    match item {
        JsonView::Object(members) => Some(
            EntryView {
                ts: value_micros(lookup(members, "ts"@)),
                model: value_model(lookup(members, "model"@)),
                tokens: value_tokens(lookup(members, "tokens"@)),
            },
        ),
        _ => None,
    }
}

/// The requests that a list of items records, in order.
pub open spec fn entries_of(items: Seq<JsonView>) -> Seq<EntryView>
    decreases items.len(),
{
    if items.len() == 0 {
        Seq::empty()
    } else {
        match entry_of(items.last()) {
            Some(e) => entries_of(items.drop_last()).push(e),
            None => entries_of(items.drop_last()),
        }
    }
}

/// The requests that a ledger records: those of its member `requests` where
/// that is a list, else none.
pub open spec fn ledger_entries(payload: JsonView) -> Seq<EntryView> {
    match payload.get("requests"@) {
        Some(JsonView::Array(items)) => entries_of(items),
        _ => Seq::empty(),
    }
}

/// A ledger without requests.
pub open spec fn empty_ledger() -> JsonView {
    JsonView::Object(seq![("requests"@, JsonView::Array(Seq::empty()))])
}

/// The ledger that a file holds: what its text reads as, or the empty ledger
/// where there is no text or it is no JSON.
pub open spec fn payload_of(text: Option<Seq<char>>) -> JsonView {
    match text {
        Some(t) => match parsed(t) {
            Some(j) => j,
            None => empty_ledger(),
        },
        None => empty_ledger(),
    }
}

/// The time that a member holds, in microseconds.
pub fn micros_of_field(field: Option<&Json>) -> (v: i64)
    ensures
        v == value_micros(crate::json::opt_view(field)),
{
    match field {
        Some(Json::Number(JsonNumber::PosInt(n))) => {
            if *n > 9_223_372_036_854 {
                MAX_MICROS
            } else {
                (*n * 1_000_000) as i64
            }
        },
        Some(Json::Number(JsonNumber::NegInt(n))) => {
            if *n < -9_223_372_036_854 {
                -MAX_MICROS
            } else if *n > 9_223_372_036_854 {
                MAX_MICROS
            } else {
                *n * 1_000_000
            }
        },
        Some(Json::Number(JsonNumber::Float(t))) => match parse_micros(t.as_str()) {
            Some(v) => v,
            None => 0,
        },
        Some(Json::String(t)) => match parse_micros(t.as_str()) {
            Some(v) => v,
            None => 0,
        },
        _ => 0,
    }
}

/// The token count that a member holds.
pub fn tokens_of_field(field: Option<&Json>) -> (v: i64)
    ensures
        v == value_tokens(crate::json::opt_view(field)),
{
    match field {
        Some(Json::Number(JsonNumber::PosInt(n))) => {
            if *n > 0x7fff_ffff_ffff_ffff {
                0x7fff_ffff_ffff_ffff
            } else {
                *n as i64
            }
        },
        Some(Json::Number(JsonNumber::NegInt(n))) => *n,
        Some(Json::String(t)) => match parse_i64(t.as_str()) {
            Some(v) => v,
            None => 0,
        },
        _ => 0,
    }
}

/// The model that a member names.
pub fn model_of_field(field: Option<&Json>) -> (v: String)
    ensures
        v@ == value_model(crate::json::opt_view(field)),
{
    match field {
        Some(Json::String(t)) => copy_string(t),
        _ => String::new(),
    }
}

/// The requests that a ledger records, in the order of its list.
pub fn extract_requests(payload: &Json) -> (out: Vec<RateLimitEntry>)
    ensures
        entry_views(out@) == ledger_entries(payload@),
{
    let mut out: Vec<RateLimitEntry> = Vec::new();
    let items = match payload.get("requests") {
        Some(Json::Array(items)) => items,
        _ => {
            assert(entry_views(out@) =~= Seq::<EntryView>::empty());
            return out;
        },
    };
    proof {
        lemma_array_view(*items);
    }
    let ghost views = item_views(items@);
    let mut i: usize = 0;
    assert(entry_views(out@) =~= entries_of(views.take(0)));
    while i < items.len()
        invariant
            i <= items.len(),
            views == item_views(items@),
            entry_views(out@) == entries_of(views.take(i as int)),
        decreases items.len() - i,
    {
        assert(views.take(i + 1).drop_last() =~= views.take(i as int));
        assert(views.take(i + 1).last() == items@[i as int]@);
        let item = &items[i];
        match item {
            Json::Object(members) => {
                proof {
                    lemma_object_view(*members);
                }
                let ts = micros_of_field(item.get("ts"));
                let tokens = tokens_of_field(item.get("tokens"));
                let model = model_of_field(item.get("model"));
                let ghost before = entry_views(out@);
                out.push(RateLimitEntry { ts_micros: ts, model, tokens });
                assert(entry_views(out@) =~= before.push(entry_of(item@)->0));
            },
            _ => {},
        }
        i += 1;
    }
    assert(views.take(items.len() as int) =~= views);
    out
}

/// The ledger that a file holds and the requests it records. `text` is what
/// the file holds, or nothing where it is missing or cannot be read.
pub fn read_rate_limit_payload(text: Option<&str>) -> (r: (Json, Vec<RateLimitEntry>))
    ensures
        r.0@ == payload_of(
            match text {
                Some(t) => Some(t@),
                None => None,
            },
        ),
        entry_views(r.1@) == ledger_entries(r.0@),
{
    let read = match text {
        Some(t) => parse_json(t),
        None => None,
    };
    match read {
        Some(payload) => {
            let requests = extract_requests(&payload);
            (payload, requests)
        },
        None => {
            let payload = blank_ledger();
            let requests = extract_requests(&payload);
            (payload, requests)
        },
    }
}

/// A ledger without requests.
pub fn blank_ledger() -> (out: Json)
    ensures
        out@ == empty_ledger(),
{
    let items: Vec<Json> = Vec::new();
    let mut members: Vec<Member> = Vec::new();
    proof {
        lemma_array_view(items);
        assert(item_views(items@) =~= Seq::<JsonView>::empty());
    }
    members.push(Member { name: "requests".to_owned(), value: Json::Array(items) });
    proof {
        lemma_object_view(members);
        assert(member_views(members@) =~= seq![("requests"@, JsonView::Array(Seq::empty()))]);
    }
    Json::Object(members)
}

/// The requests of `entries` that still count at `now`, in order.
pub open spec fn kept_entries(entries: Seq<EntryView>, now: int, window: int) -> Seq<EntryView>
    decreases entries.len(),
{
    if entries.len() == 0 {
        Seq::empty()
    } else if is_recent(entries.last().ts, now, window) {
        kept_entries(entries.drop_last(), now, window).push(entries.last())
    } else {
        kept_entries(entries.drop_last(), now, window)
    }
}

/// The token count that is recorded for a request: the count itself, cut to
/// the signed range.
pub open spec fn recorded_tokens(tokens: u64) -> int {
    if tokens > i64::MAX {
        i64::MAX as int
    } else {
        tokens as int
    }
}

/// The ledger's requests after one more is recorded at `now`: those that
/// still count, then the new one.
pub open spec fn recorded(
    entries: Seq<EntryView>,
    model: Seq<char>,
    tokens: u64,
    now: int,
    window: int,
) -> Seq<EntryView> {
    kept_entries(entries, now, window).push(
        EntryView { ts: now, model, tokens: recorded_tokens(tokens) },
    )
}

/// Drops the requests that no longer count and adds the new one.
pub fn record_entry(
    entries: &Vec<RateLimitEntry>,
    model: &str,
    tokens: u64,
    now: i64,
    window: u64,
) -> (out: Vec<RateLimitEntry>)
    ensures
        entry_views(out@) == recorded(entry_views(entries@), model@, tokens, now as int, window as int),
{
    let mut out: Vec<RateLimitEntry> = Vec::new();
    let mut i: usize = 0;
    let ghost views = entry_views(entries@);
    assert(entry_views(out@) =~= kept_entries(views.take(0), now as int, window as int));
    while i < entries.len()
        invariant
            i <= entries.len(),
            views == entry_views(entries@),
            entry_views(out@) == kept_entries(views.take(i as int), now as int, window as int),
        decreases entries.len() - i,
    {
        assert(views.take(i + 1).drop_last() =~= views.take(i as int));
        assert(views.take(i + 1).last() == entries@[i as int]@);
        let e = &entries[i];
        if check_recent(e.ts_micros, now, window) {
            let ghost before = entry_views(out@);
            out.push(
                RateLimitEntry { ts_micros: e.ts_micros, model: copy_string(&e.model), tokens: e.tokens },
            );
            assert(entry_views(out@) =~= before.push(e@));
        }
        i += 1;
    }
    assert(views.take(entries.len() as int) =~= views);
    let kept: i64 = if tokens > 0x7fff_ffff_ffff_ffff {
        0x7fff_ffff_ffff_ffff
    } else {
        tokens as i64
    };
    let ghost before = entry_views(out@);
    out.push(RateLimitEntry { ts_micros: now, model: model.to_owned(), tokens: kept });
    assert(entry_views(out@) =~= before.push(
        EntryView { ts: now as int, model: model@, tokens: recorded_tokens(tokens) },
    ));
    out
}

/// The whole number `n` as a JSON number.
pub open spec fn integer_json(n: int) -> JsonView {
    if n >= 0 {
        JsonView::Number(NumberView::PosInt(n as u64))
    } else {
        JsonView::Number(NumberView::NegInt(n as i64))
    }
}

/// The item that records a request: its time in seconds, its model and its
/// tokens.
pub open spec fn entry_json(e: EntryView) -> JsonView {
    JsonView::Object(
        seq![
            ("ts"@, JsonView::Number(NumberView::Float(micros_decimal(e.ts)))),
            ("model"@, JsonView::String(e.model)),
            ("tokens"@, integer_json(e.tokens)),
        ],
    )
}

/// The items that record a list of requests.
pub open spec fn entries_json(entries: Seq<EntryView>) -> Seq<JsonView> {
    Seq::new(entries.len(), |i: int| entry_json(entries[i]))
}

/// The ledger `payload` with `entries` as its requests: an object keeps its
/// other members; anything else gives way to a new object.
pub open spec fn with_requests(payload: JsonView, entries: Seq<EntryView>) -> JsonView {
    match payload {
        JsonView::Object(members) => JsonView::Object(
            set_member(members, "requests"@, JsonView::Array(entries_json(entries))),
        ),
        _ => JsonView::Object(seq![("requests"@, JsonView::Array(entries_json(entries)))]),
    }
}

/// The item that records a request.
pub fn rate_limit_entry_value(entry: &RateLimitEntry) -> (out: Json)
    ensures
        out@ == entry_json(entry@),
{
    let mut members: Vec<Member> = Vec::new();
    members.push(
        Member {
            name: "ts".to_owned(),
            value: Json::Number(JsonNumber::Float(seconds_number(entry.ts_micros))),
        },
    );
    members.push(Member { name: "model".to_owned(), value: Json::String(copy_string(&entry.model)) });
    let tokens = if entry.tokens >= 0 {
        JsonNumber::PosInt(entry.tokens as u64)
    } else {
        JsonNumber::NegInt(entry.tokens)
    };
    members.push(Member { name: "tokens".to_owned(), value: Json::Number(tokens) });
    proof {
        lemma_object_view(members);
        assert(member_views(members@) =~= entry_json(entry@)->Object_0);
    }
    Json::Object(members)
}

/// The ledger `payload` with `entries` as its requests.
pub fn store_requests(payload: &Json, entries: &Vec<RateLimitEntry>) -> (out: Json)
    ensures
        out@ == with_requests(payload@, entry_views(entries@)),
{
    let mut items: Vec<Json> = Vec::new();
    let mut i: usize = 0;
    while i < entries.len()
        invariant
            i <= entries.len(),
            items@.len() == i,
            forall|k: int| 0 <= k < i ==> items@[k]@ == entry_json(entries@[k]@),
        decreases entries.len() - i,
    {
        items.push(rate_limit_entry_value(&entries[i]));
        i += 1;
    }
    proof {
        lemma_array_view(items);
        assert(item_views(items@) =~= entries_json(entry_views(entries@)));
    }
    let list = Json::Array(items);
    match payload {
        Json::Object(members) => {
            proof {
                lemma_object_view(*members);
            }
            let updated = with_member(members, "requests", list);
            proof {
                lemma_object_view(updated);
            }
            Json::Object(updated)
        },
        _ => {
            let mut members: Vec<Member> = Vec::new();
            members.push(Member { name: "requests".to_owned(), value: list });
            proof {
                lemma_object_view(members);
                assert(member_views(members@) =~= seq![
                    ("requests"@, JsonView::Array(entries_json(entry_views(entries@)))),
                ]);
            }
            Json::Object(members)
        },
    }
}

/// Recording keeps exactly the requests that still count, in their order,
/// and puts the new request last.
pub proof fn lemma_recorded(
    entries: Seq<EntryView>,
    model: Seq<char>,
    tokens: u64,
    now: int,
    window: int,
)
    ensures
        ({
            let after = recorded(entries, model, tokens, now, window);
            &&& after.len() >= 1
            &&& after.last() == (EntryView { ts: now, model, tokens: recorded_tokens(tokens) })
            &&& forall|i: int|
                0 <= i < after.len() - 1 ==> entries.contains(#[trigger] after[i]) && is_recent(
                    after[i].ts,
                    now,
                    window,
                )
            &&& forall|i: int|
                0 <= i < entries.len() && is_recent(entries[i].ts, now, window)
                    ==> after.drop_last().contains(#[trigger] entries[i])
        }),
{
    lemma_kept(entries, now, window);
    let after = recorded(entries, model, tokens, now, window);
    assert(after.drop_last() =~= kept_entries(entries, now, window));
    assert forall|i: int| 0 <= i < after.len() - 1 implies entries.contains(#[trigger] after[i])
        && is_recent(after[i].ts, now, window) by {
        assert(after[i] == kept_entries(entries, now, window)[i]);
    }
}

/// What is kept is exactly what still counts.
pub proof fn lemma_kept(entries: Seq<EntryView>, now: int, window: int)
    ensures
        forall|i: int|
            0 <= i < kept_entries(entries, now, window).len() ==> entries.contains(
                #[trigger] kept_entries(entries, now, window)[i],
            ) && is_recent(kept_entries(entries, now, window)[i].ts, now, window),
        forall|i: int|
            0 <= i < entries.len() && is_recent(entries[i].ts, now, window) ==> kept_entries(
                entries,
                now,
                window,
            ).contains(#[trigger] entries[i]),
        kept_entries(entries, now, window).len() <= entries.len(),
    decreases entries.len(),
{
    if entries.len() > 0 {
        let init = entries.drop_last();
        let last = entries.last();
        lemma_kept(init, now, window);
        let k = kept_entries(entries, now, window);
        let ki = kept_entries(init, now, window);
        assert forall|i: int| 0 <= i < k.len() implies entries.contains(#[trigger] k[i])
            && is_recent(k[i].ts, now, window) by {
            if i < ki.len() {
                assert(k[i] == ki[i]);
                assert(init.contains(ki[i]));
                let j = choose|j: int| 0 <= j < init.len() && init[j] == ki[i];
                assert(entries[j] == ki[i]);
            } else {
                assert(entries[entries.len() - 1] == k[i]);
            }
        }
        assert forall|i: int|
            0 <= i < entries.len() && is_recent(entries[i].ts, now, window) implies k.contains(
            #[trigger] entries[i],
        ) by {
            if i < init.len() {
                assert(init[i] == entries[i]);
                assert(ki.contains(init[i]));
                let j = choose|j: int| 0 <= j < ki.len() && ki[j] == init[i];
                assert(k[j] == entries[i]);
            } else {
                assert(k[k.len() - 1] == entries[i]);
            }
        }
    }
}

/// Storing requests in a ledger that is an object changes its member
/// `requests` and no other: every other name is found as before.
pub proof fn lemma_with_requests(payload: JsonView, entries: Seq<EntryView>, other: Seq<char>)
    ensures
        with_requests(payload, entries).get("requests"@) == Some(
            JsonView::Array(entries_json(entries)),
        ),
        payload is Object && other != "requests"@ ==> with_requests(payload, entries).get(other)
            == payload.get(other),
{
    match payload {
        JsonView::Object(members) => {
            lemma_set_member(members, "requests"@, JsonView::Array(entries_json(entries)), other);
        },
        _ => {
            let members = seq![("requests"@, JsonView::Array(entries_json(entries)))];
            assert(crate::json::is_first(members, "requests"@, 0));
            crate::json::lemma_first_is_key_index(members, "requests"@, 0);
        },
    }
}

/// The request can be written to the ledger as it is: its time is one that
/// is kept, and its token count is in the signed range.
pub open spec fn storable(e: EntryView) -> bool {
    &&& -MAX_MICROS <= e.ts <= MAX_MICROS
    &&& i64::MIN <= e.tokens <= i64::MAX
}

/// Every request of `entries` can be written to the ledger as it is.
pub open spec fn all_storable(entries: Seq<EntryView>) -> bool {
    forall|i: int| 0 <= i < entries.len() ==> storable(#[trigger] entries[i])
}

/// The item that records a request reads back as that request.
pub proof fn lemma_entry_reads_back(e: EntryView)
    requires
        storable(e),
    ensures
        entry_of(entry_json(e)) == Some(e),
{
    let members = entry_json(e)->Object_0;
    reveal_strlit("ts");
    reveal_strlit("model");
    reveal_strlit("tokens");
    assert("ts"@.len() != "model"@.len());
    assert("ts"@.len() != "tokens"@.len());
    assert("model"@.len() != "tokens"@.len());
    assert(crate::json::is_first(members, "ts"@, 0));
    assert(crate::json::is_first(members, "model"@, 1)) by {
        assert(members[0].0 == "ts"@);
    }
    assert(crate::json::is_first(members, "tokens"@, 2)) by {
        assert(members[0].0 == "ts"@);
        assert(members[1].0 == "model"@);
    }
    crate::json::lemma_first_is_key_index(members, "ts"@, 0);
    crate::json::lemma_first_is_key_index(members, "model"@, 1);
    crate::json::lemma_first_is_key_index(members, "tokens"@, 2);
    lemma_micros_round_trip(e.ts);
    let back = entry_of(entry_json(e))->0;
    assert(back.ts == e.ts);
    assert(back.model == e.model);
    assert(back.tokens == e.tokens);
}

/// The items that record a list of requests read back as that list.
pub proof fn lemma_entries_read_back(entries: Seq<EntryView>)
    requires
        all_storable(entries),
    ensures
        entries_of(entries_json(entries)) == entries,
    decreases entries.len(),
{
    let items = entries_json(entries);
    if entries.len() > 0 {
        let init = entries.drop_last();
        assert(all_storable(init)) by {
            assert forall|i: int| 0 <= i < init.len() implies storable(#[trigger] init[i]) by {
                assert(init[i] == entries[i]);
            }
        }
        lemma_entries_read_back(init);
        assert(items.drop_last() =~= entries_json(init));
        assert(items.last() == entry_json(entries.last()));
        assert(storable(entries[entries.len() - 1]));
        lemma_entry_reads_back(entries.last());
        assert(init.push(entries.last()) =~= entries);
    } else {
        assert(entries_of(items) =~= entries);
    }
}

/// What a ledger records can be written back as it is.
pub proof fn lemma_ledger_entries_storable(payload: JsonView)
    ensures
        all_storable(ledger_entries(payload)),
{
    match payload.get("requests"@) {
        Some(JsonView::Array(items)) => {
            lemma_entries_storable(items);
        },
        _ => {},
    }
}

proof fn lemma_entries_storable(items: Seq<JsonView>)
    ensures
        all_storable(entries_of(items)),
    decreases items.len(),
{
    if items.len() > 0 {
        lemma_entries_storable(items.drop_last());
        let before = entries_of(items.drop_last());
        let now = entries_of(items);
        assert forall|i: int| 0 <= i < now.len() implies storable(#[trigger] now[i]) by {
            if i < before.len() {
                assert(now[i] == before[i]);
            }
        }
    }
}

/// After a request is recorded, the ledger holds exactly the requests that
/// still counted, in their order, and then the new one: reading the new
/// ledger gives that list, for every time of recording that is kept.
pub proof fn lemma_record_then_read(
    payload: JsonView,
    model: Seq<char>,
    tokens: u64,
    now: int,
    window: int,
)
    requires
        -MAX_MICROS <= now <= MAX_MICROS,
    ensures
        ledger_entries(
            with_requests(payload, recorded(ledger_entries(payload), model, tokens, now, window)),
        ) == recorded(ledger_entries(payload), model, tokens, now, window),
{
    let before = ledger_entries(payload);
    let after = recorded(before, model, tokens, now, window);
    lemma_ledger_entries_storable(payload);
    lemma_kept(before, now, window);
    let kept = kept_entries(before, now, window);
    assert(after.drop_last() =~= kept);
    assert forall|i: int| 0 <= i < after.len() implies storable(#[trigger] after[i]) by {
        if i < kept.len() {
            assert(after[i] == kept[i]);
            assert(before.contains(kept[i]));
            let j = choose|j: int| 0 <= j < before.len() && before[j] == kept[i];
            assert(storable(before[j]));
        }
    }
    lemma_entries_read_back(after);
    lemma_with_requests(payload, after, "requests"@);
}

} // verus!
