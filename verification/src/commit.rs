//! The subject line of the commit that records a task's progress.

use vstd::prelude::*;
use crate::text::{
    char_is_space, chars_of, is_space, slice_chars, string_of, trim_end, trim_start, trimmed,
};

verus! {

/// The longest subject, in characters.
pub const MAX_SUBJECT_CHARS: usize = 50;

/// `s` with every run of white space between two words turned into one
/// space, and the white space at its ends dropped.
pub open spec fn collapsed(s: Seq<char>) -> Seq<char>
    decreases s.len(),
{
    if s.len() == 0 {
        Seq::empty()
    } else {
        let before = collapsed(s.drop_last());
        let c = s.last();
        if is_space(c) {
            before
        } else if before.len() > 0 && s.len() >= 2 && is_space(s[s.len() - 2]) {
            before.push(' ').push(c)
        } else {
            before.push(c)
        }
    }
}

/// `s` without the full stops and the white space at its end: they are
/// taken off until the text ends in neither.
pub open spec fn stripped(s: Seq<char>) -> Seq<char>
    decreases s.len(),
{
    if s.len() > 0 && (s.last() == '.' || is_space(s.last())) {
        stripped(s.drop_last())
    } else {
        s
    }
}

/// `s` without the full stops and white space at its end and without the
/// white space at its start.
pub open spec fn tidied(s: Seq<char>) -> Seq<char> {
    trim_start(stripped(s))
}

/// The position of the last white space among the first `n` characters.
pub open spec fn last_space(s: Seq<char>, n: int) -> Option<int>
    decreases n,
{
    if n <= 0 || n > s.len() {
        None
    } else if is_space(s[n - 1]) {
        Some(n - 1)
    } else {
        last_space(s, n - 1)
    }
}

/// `s` cut to at most `max` characters: a text of at most `max` characters
/// stays; a longer one is cut before the last white space among its first
/// `max` characters, or after those characters where they hold none, and
/// loses the white space at its end.
pub open spec fn truncated(s: Seq<char>, max: int) -> Seq<char> {
    if s.len() <= max || max < 0 {
        s
    } else {
        let cut = match last_space(s, max) {
            Some(i) => i,
            None => max,
        };
        trim_end(s.take(cut))
    }
}

/// A small letter of the basic alphabet.
pub open spec fn is_lower(c: char) -> bool {
    'a' <= c <= 'z'
}

/// The capital of a small letter.
pub open spec fn upper_of(c: char) -> char {
    ((c as u8) - 32) as char
}

/// `s` with a small first letter made a capital.
pub open spec fn capitalized(s: Seq<char>) -> Seq<char> {
    if s.len() > 0 && is_lower(s[0]) {
        s.update(0, upper_of(s[0]))
    } else {
        s
    }
}

/// The subject used where a title gives none.
pub open spec fn fallback_subject(task_id: Seq<char>) -> Seq<char> {
    "Update "@ + task_id
}

/// `s`, or the fallback where `s` is empty.
pub open spec fn or_fallback(s: Seq<char>, task_id: Seq<char>) -> Seq<char> {
    if s.len() == 0 {
        fallback_subject(task_id)
    } else {
        s
    }
}

/// The subject line for a task: its title on one line without full stops or
/// white space at the end, cut to the longest subject and freed of full
/// stops at the end again, with a capital first letter; the fallback names
/// the task where the title gives nothing.
pub open spec fn subject_of(title: Seq<char>, task_id: Seq<char>) -> Seq<char> {
    let whole = or_fallback(tidied(collapsed(title)), task_id);
    let cut = or_fallback(tidied(truncated(whole, MAX_SUBJECT_CHARS as int)), task_id);
    capitalized(cut)
}

/// Turns every run of white space between words into one space and drops
/// the white space at the ends.
pub fn collapse_chars(chars: &Vec<char>) -> (out: Vec<char>)
    ensures
        out@ == collapsed(chars@),
{
    let mut out: Vec<char> = Vec::new();
    let mut i: usize = 0;
    while i < chars.len()
        invariant
            i <= chars.len(),
            out@ == collapsed(chars@.take(i as int)),
        decreases chars.len() - i,
    {
        let ghost now = chars@.take(i + 1);
        assert(now.drop_last() =~= chars@.take(i as int));
        assert(now.last() == chars@[i as int]);
        let c = chars[i];
        if !char_is_space(c) {
            if out.len() > 0 && i >= 1 && char_is_space(chars[i - 1]) {
                assert(now[now.len() - 2] == chars@[i - 1]);
                out.push(' ');
                out.push(c);
            } else {
                proof {
                    if i >= 1 {
                        assert(now[now.len() - 2] == chars@[i - 1]);
                    }
                }
                out.push(c);
            }
        }
        i += 1;
    }
    assert(chars@.take(chars.len() as int) =~= chars@);
    out
}

/// Drops the full stops and the white space at the end, then the white
/// space at the start.
pub fn tidy_chars(chars: &Vec<char>) -> (out: Vec<char>)
    ensures
        out@ == tidied(chars@),
{
    let mut n: usize = chars.len();
    assert(chars@.take(n as int) =~= chars@);
    while n > 0 && (chars[n - 1] == '.' || char_is_space(chars[n - 1]))
        invariant
            n <= chars.len(),
            stripped(chars@) == stripped(chars@.take(n as int)),
        decreases n,
    {
        assert(chars@.take(n as int).drop_last() =~= chars@.take(n - 1));
        n -= 1;
    }
    let ghost kept = chars@.take(n as int);
    assert(stripped(chars@) == kept);
    let mut i: usize = 0;
    assert(kept.subrange(0, n as int) =~= kept);
    while i < n && char_is_space(chars[i])
        invariant
            i <= n <= chars.len(),
            kept == chars@.take(n as int),
            trim_start(kept) == trim_start(kept.subrange(i as int, n as int)),
        decreases n - i,
    {
        assert(kept.subrange(i as int, n as int).drop_first() =~= kept.subrange(i + 1, n as int));
        assert(kept.subrange(i as int, n as int)[0] == chars@[i as int]);
        i += 1;
    }
    proof {
        if i < n {
            assert(kept.subrange(i as int, n as int)[0] == chars@[i as int]);
        }
    }
    let out = slice_chars(chars, i, n);
    assert(chars@.subrange(i as int, n as int) =~= kept.subrange(i as int, n as int));
    out
}

/// The position of the last white space among the first `n` characters.
pub(crate) fn find_last_space(chars: &Vec<char>, n: usize) -> (r: Option<usize>)
    requires
        n <= chars.len(),
    ensures
        match r {
            Some(i) => last_space(chars@, n as int) == Some(i as int) && i < n,
            None => last_space(chars@, n as int) is None,
        },
{
    let mut k: usize = n;
    while k > 0
        invariant
            k <= n <= chars.len(),
            last_space(chars@, n as int) == last_space(chars@, k as int),
        decreases k,
    {
        if char_is_space(chars[k - 1]) {
            return Some(k - 1);
        }
        k -= 1;
    }
    None
}

/// Cuts a subject to at most `max_chars` characters, before a word where it
/// can.
pub fn truncate_chars(chars: &Vec<char>, max_chars: usize) -> (out: Vec<char>)
    ensures
        out@ == truncated(chars@, max_chars as int),
{
    if chars.len() <= max_chars {
        return slice_all(chars);
    }
    let cut = match find_last_space(chars, max_chars) {
        Some(i) => i,
        None => max_chars,
    };
    let mut end: usize = cut;
    assert(chars@.take(cut as int).take(end as int) =~= chars@.take(cut as int));
    while end > 0 && char_is_space(chars[end - 1])
        invariant
            end <= cut <= chars.len(),
            trim_end(chars@.take(cut as int)) == trim_end(chars@.take(end as int)),
        decreases end,
    {
        assert(chars@.take(end as int).drop_last() =~= chars@.take(end - 1));
        end -= 1;
    }
    let out = slice_chars(chars, 0, end);
    assert(chars@.subrange(0, end as int) =~= chars@.take(end as int));
    out
}

/// A copy of `chars`.
fn slice_all(chars: &Vec<char>) -> (out: Vec<char>)
    ensures
        out@ == chars@,
{
    let out = slice_chars(chars, 0, chars.len());
    assert(chars@.subrange(0, chars.len() as int) =~= chars@);
    out
}

/// Cuts a subject to at most `max_chars` characters, before a word where it
/// can.
pub fn truncate_commit_subject(subject: &str, max_chars: usize) -> (out: String)
    ensures
        out@ == truncated(subject@, max_chars as int),
{
    let chars = chars_of(subject);
    let kept = truncate_chars(&chars, max_chars);
    string_of(&kept)
}

/// Makes a small first letter a capital.
pub fn capitalize_chars(chars: Vec<char>) -> (out: Vec<char>)
    ensures
        out@ == capitalized(chars@),
{
    let mut out = chars;
    if out.len() > 0 {
        let first = out[0];
        if 'a' <= first && first <= 'z' {
            let upper = ((first as u8) - 32) as char;
            out.set(0, upper);
        }
    }
    out
}

/// Makes a small first letter a capital.
pub fn capitalize_first_char(subject: String) -> (out: String)
    ensures
        out@ == capitalized(subject@),
{
    let chars = chars_of(subject.as_str());
    let done = capitalize_chars(chars);
    string_of(&done)
}

/// The characters of the fallback subject.
fn fallback_chars(task_id: &str) -> (out: Vec<char>)
    ensures
        out@ == fallback_subject(task_id@),
{
    let mut out = chars_of("Update ");
    let id = chars_of(task_id);
    let mut i: usize = 0;
    let ghost head = out@;
    while i < id.len()
        invariant
            i <= id.len(),
            out@ == head + id@.take(i as int),
        decreases id.len() - i,
    {
        out.push(id[i]);
        assert(head + id@.take(i + 1) =~= (head + id@.take(i as int)).push(id@[i as int]));
        i += 1;
    }
    assert(id@.take(id.len() as int) =~= id@);
    out
}

/// The subject line of the commit for a task.
pub fn commit_subject_from_title(title: &str, task_id: &str) -> (out: String)
    ensures
        out@ == subject_of(title@, task_id@),
{
    let chars = chars_of(title);
    let joined = collapse_chars(&chars);
    let mut whole = tidy_chars(&joined);
    if whole.len() == 0 {
        whole = fallback_chars(task_id);
    }
    let cut = truncate_chars(&whole, MAX_SUBJECT_CHARS);
    let mut tidy = tidy_chars(&cut);
    if tidy.len() == 0 {
        tidy = fallback_chars(task_id);
    }
    let done = capitalize_chars(tidy);
    string_of(&done)
}

/// `s` begins with a word, and each white space in it is one space that a
/// word follows or that ends the text.
pub open spec fn spaced(s: Seq<char>) -> bool {
    &&& s.len() > 0 ==> !is_space(s[0])
    &&& forall|i: int|
        0 <= i < s.len() && is_space(#[trigger] s[i]) ==> s[i] == ' ' && (i + 1 < s.len()
            ==> !is_space(s[i + 1]))
}

/// `s` is words with one space between each two, and nothing else.
pub open spec fn neat(s: Seq<char>) -> bool {
    spaced(s) && (s.len() > 0 ==> !is_space(s.last()))
}

proof fn lemma_trim_end(s: Seq<char>)
    ensures
        trim_end(s).len() <= s.len(),
        trim_end(s) == s.take(trim_end(s).len() as int),
        trim_end(s).len() > 0 ==> !is_space(trim_end(s).last()),
        forall|j: int| trim_end(s).len() <= j < s.len() ==> is_space(s[j]),
    decreases s.len(),
{
    if s.len() > 0 && is_space(s.last()) {
        let t = s.drop_last();
        lemma_trim_end(t);
        let k = trim_end(t).len() as int;
        assert(t.take(k) =~= s.take(k));
        assert forall|j: int| trim_end(s).len() <= j < s.len() implies is_space(s[j]) by {
            if j < t.len() {
                assert(t[j] == s[j]);
            }
        }
    } else {
        assert(s.take(s.len() as int) =~= s);
    }
}

proof fn lemma_stripped(s: Seq<char>)
    ensures
        stripped(s).len() <= s.len(),
        stripped(s) == s.take(stripped(s).len() as int),
        stripped(s).len() > 0 ==> stripped(s).last() != '.' && !is_space(stripped(s).last()),
        stripped(stripped(s)) == stripped(s),
    decreases s.len(),
{
    if s.len() > 0 && (s.last() == '.' || is_space(s.last())) {
        let t = s.drop_last();
        lemma_stripped(t);
        let k = stripped(t).len() as int;
        assert(t.take(k) =~= s.take(k));
    } else {
        assert(s.take(s.len() as int) =~= s);
    }
}

proof fn lemma_spaced_take(s: Seq<char>, k: int)
    requires
        spaced(s),
        0 <= k <= s.len(),
    ensures
        spaced(s.take(k)),
{
    let t = s.take(k);
    assert forall|i: int| 0 <= i < t.len() && is_space(#[trigger] t[i]) implies t[i] == ' ' && (i
        + 1 < t.len() ==> !is_space(t[i + 1])) by {
        assert(t[i] == s[i]);
        if i + 1 < t.len() {
            assert(t[i + 1] == s[i + 1]);
        }
    }
}

proof fn lemma_collapsed_neat(s: Seq<char>)
    ensures
        neat(collapsed(s)),
    decreases s.len(),
{
    if s.len() > 0 {
        let before = collapsed(s.drop_last());
        lemma_collapsed_neat(s.drop_last());
        let c = s.last();
        let r = collapsed(s);
        if !is_space(c) {
            assert(is_space(' '));
            if before.len() > 0 && s.len() >= 2 && is_space(s[s.len() - 2]) {
                let n = before.len() as int;
                assert(r =~= before.push(' ').push(c));
                assert forall|i: int| 0 <= i < r.len() && is_space(#[trigger] r[i]) implies r[i]
                    == ' ' && (i + 1 < r.len() ==> !is_space(r[i + 1])) by {
                    if i < n {
                        assert(r[i] == before[i]);
                        if i + 1 < n {
                            assert(r[i + 1] == before[i + 1]);
                        } else {
                            assert(before.last() == before[i]);
                        }
                    }
                }
                assert(r[0] == before[0]);
            } else {
                let n = before.len() as int;
                assert(r =~= before.push(c));
                assert forall|i: int| 0 <= i < r.len() && is_space(#[trigger] r[i]) implies r[i]
                    == ' ' && (i + 1 < r.len() ==> !is_space(r[i + 1])) by {
                    if i < n {
                        assert(r[i] == before[i]);
                        if i + 1 < n {
                            assert(r[i + 1] == before[i + 1]);
                        }
                    }
                }
                if n > 0 {
                    assert(r[0] == before[0]);
                }
            }
        }
    }
}

proof fn lemma_spaced_collapsed(s: Seq<char>)
    requires
        spaced(s),
    ensures
        collapsed(s) == trim_end(s),
    decreases s.len(),
{
    if s.len() > 0 {
        let t = s.drop_last();
        assert(t =~= s.take(s.len() - 1));
        lemma_spaced_take(s, s.len() - 1);
        lemma_spaced_collapsed(t);
        lemma_trim_end(t);
        let c = s.last();
        if !is_space(c) {
            if s.len() >= 2 && is_space(s[s.len() - 2]) {
                assert(t.last() == s[s.len() - 2]);
                let u = t.drop_last();
                assert(trim_end(t) == trim_end(u));
                if u.len() > 0 {
                    assert(u.last() == s[s.len() - 3]);
                    assert(is_space(s[s.len() - 3]) ==> !is_space(s[s.len() - 2]));
                    assert(trim_end(u) == u);
                    assert(collapsed(s) =~= s);
                } else {
                    assert(s[0] == t[0]);
                }
            } else {
                if t.len() > 0 {
                    assert(t.last() == s[s.len() - 2]);
                }
                assert(trim_end(t) == t);
                assert(collapsed(s) =~= s);
            }
        }
    }
}

proof fn lemma_neat_fixed(s: Seq<char>)
    requires
        neat(s),
    ensures
        collapsed(s) == s,
        trimmed(s) == s,
        trim_end(s) == s,
{
    lemma_spaced_collapsed(s);
}

/// Of a text that begins with a word, tidying keeps a start that is again
/// words with single spaces and ends in no full stop, or nothing.
proof fn lemma_tidied_spaced(s: Seq<char>)
    requires
        spaced(s),
    ensures
        neat(tidied(s)),
        tidied(s).len() <= s.len(),
        tidied(s) == s.take(tidied(s).len() as int),
        tidied(s) == stripped(s),
        tidied(s).len() > 0 ==> tidied(s).last() != '.',
{
    lemma_stripped(s);
    let w = stripped(s);
    lemma_spaced_take(s, w.len() as int);
    assert(trim_start(w) == w);
}

proof fn lemma_last_space(s: Seq<char>, n: int)
    requires
        0 <= n <= s.len(),
    ensures
        match last_space(s, n) {
            Some(i) => 0 <= i < n && is_space(s[i]),
            None => forall|j: int| 0 <= j < n ==> !is_space(s[j]),
        },
    decreases n,
{
    if n > 0 && !is_space(s[n - 1]) {
        lemma_last_space(s, n - 1);
    }
}

/// Of words with single spaces, cutting keeps a start that is again words
/// with single spaces, of at most the longest length.
proof fn lemma_truncated_neat(s: Seq<char>, max: int)
    requires
        neat(s),
        max >= 0,
    ensures
        neat(truncated(s, max)),
        truncated(s, max).len() <= max,
        truncated(s, max) == s.take(truncated(s, max).len() as int),
{
    if s.len() <= max {
        assert(s.take(s.len() as int) =~= s);
    } else {
        lemma_last_space(s, max);
        let cut = match last_space(s, max) {
            Some(i) => i,
            None => max,
        };
        let p = s.take(cut);
        lemma_spaced_take(s, cut);
        lemma_trim_end(p);
        let t = trim_end(p);
        lemma_spaced_take(p, t.len() as int);
        assert(p.take(t.len() as int) =~= s.take(t.len() as int));
    }
}

proof fn lemma_capitalized(s: Seq<char>)
    ensures
        capitalized(s).len() == s.len(),
        capitalized(capitalized(s)) == capitalized(s),
        forall|i: int| 0 <= i < s.len() ==> (is_space(#[trigger] capitalized(s)[i]) <==> is_space(s[i])),
        forall|i: int| 0 <= i < s.len() && s[i] == ' ' ==> #[trigger] capitalized(s)[i] == ' ',
        forall|i: int|
            0 <= i < s.len() ==> ((#[trigger] capitalized(s)[i] == '.') <==> s[i] == '.'),
        neat(s) ==> neat(capitalized(s)),
{
    let r = capitalized(s);
    if s.len() > 0 && is_lower(s[0]) {
        let u = upper_of(s[0]);
        assert('A' <= u <= 'Z');
        assert(!is_lower(u));
        assert(!is_space(u));
        assert(!is_space(s[0]));
        assert(capitalized(r) =~= r);
        assert forall|i: int| 0 <= i < s.len() implies (is_space(#[trigger] r[i]) <==> is_space(
            s[i],
        )) by {}
        if neat(s) {
            assert forall|i: int| 0 <= i < r.len() && is_space(#[trigger] r[i]) implies r[i] == ' '
                && (i + 1 < r.len() ==> !is_space(r[i + 1])) by {
                assert(is_space(s[i]));
                if i + 1 < r.len() {
                    assert(is_space(r[i + 1]) <==> is_space(s[i + 1]));
                }
            }
            assert(r.last() == if s.len() == 1 {
                u
            } else {
                s.last()
            });
        }
    }
}

/// A subject that another derivation leaves as it is: words with single
/// spaces, no full stop or white space at the ends, and no longer than the
/// longest subject.
pub open spec fn settled(s: Seq<char>) -> bool {
    &&& collapsed(s) == s
    &&& tidied(s) == s
    &&& s.len() <= MAX_SUBJECT_CHARS
}

/// The title does not give the subject: nothing is left of it once it is
/// tidied, or nothing is left of what the cut keeps, so that the fallback
/// names the task.
pub open spec fn uses_fallback(title: Seq<char>) -> bool {
    let whole = tidied(collapsed(title));
    whole.len() == 0 || tidied(truncated(whole, MAX_SUBJECT_CHARS as int)).len() == 0
}

proof fn lemma_fallback_filled(task_id: Seq<char>)
    ensures
        fallback_subject(task_id).len() > 0,
        !is_lower(fallback_subject(task_id)[0]),
{
    reveal_strlit("Update ");
}

/// A settled text that begins with no small letter is its own subject.
proof fn lemma_settled_fixed(r: Seq<char>, task_id: Seq<char>)
    requires
        settled(r),
        r.len() > 0,
        capitalized(r) == r,
    ensures
        subject_of(r, task_id) == r,
{
}

/// Where the title itself gives the subject, the subject is settled: words
/// with single spaces, without a full stop or white space at its ends, and
/// of at most the longest length.
pub proof fn lemma_title_subject_settled(title: Seq<char>, task_id: Seq<char>)
    requires
        !uses_fallback(title),
    ensures
        settled(subject_of(title, task_id)),
        subject_of(title, task_id).len() > 0,
        capitalized(subject_of(title, task_id)) == subject_of(title, task_id),
{
    let max = MAX_SUBJECT_CHARS as int;
    let c = collapsed(title);
    lemma_collapsed_neat(title);
    let w = tidied(c);
    lemma_tidied_spaced(c);
    let t = truncated(w, max);
    lemma_truncated_neat(w, max);
    let x = tidied(t);
    lemma_tidied_spaced(t);
    lemma_stripped(t);
    let r = capitalized(x);
    assert(r == subject_of(title, task_id));
    lemma_capitalized(x);
    lemma_neat_fixed(r);
    assert(r.last() != '.' && !is_space(r.last())) by {
        assert(x.last() == x[x.len() - 1]);
        assert(r.last() == r[r.len() - 1]);
    }
    assert(stripped(r) == r);
    assert(trim_start(r) == r);
}

/// The subject of a subject is the subject itself. This holds for every
/// title that gives the subject. Where the fallback names the task, the
/// subject is made from the task's identifier as it is, so it holds as long
/// as that subject is settled.
pub proof fn lemma_subject_idempotent(title: Seq<char>, task_id: Seq<char>)
    requires
        uses_fallback(title) ==> settled(subject_of(title, task_id)),
    ensures
        subject_of(subject_of(title, task_id), task_id) == subject_of(title, task_id),
{
    let r = subject_of(title, task_id);
    if !uses_fallback(title) {
        lemma_title_subject_settled(title, task_id);
    } else {
        let whole = or_fallback(tidied(collapsed(title)), task_id);
        let cut = or_fallback(tidied(truncated(whole, MAX_SUBJECT_CHARS as int)), task_id);
        lemma_fallback_filled(task_id);
        assert(cut.len() > 0);
        lemma_capitalized(cut);
    }
    lemma_settled_fixed(r, task_id);
}

/// For a task whose fallback subject is itself settled, the subject of a
/// subject is the subject itself for every title.
pub proof fn lemma_subject_idempotent_plain_id(title: Seq<char>, task_id: Seq<char>)
    requires
        settled(fallback_subject(task_id)),
    ensures
        subject_of(subject_of(title, task_id), task_id) == subject_of(title, task_id),
{
    let f = fallback_subject(task_id);
    lemma_fallback_filled(task_id);
    if uses_fallback(title) {
        assert(capitalized(f) == f);
        assert(truncated(f, MAX_SUBJECT_CHARS as int) == f);
        assert(subject_of(title, task_id) == f);
    }
    lemma_subject_idempotent(title, task_id);
}

} // verus!
