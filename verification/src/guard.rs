//! The guard of the workspace: what is set aside before a run, which branch
//! the run works on, and what is given back afterwards.

use vstd::prelude::*;
use vstd::string::StringExecFns;
use crate::agent::{line_views, lines_of, push_arg, split_lines};
use crate::commit::{commit_subject_from_title, subject_of};
use crate::json::copy_string;
use crate::text::{
    char_is_space, chars_contain, chars_of, contains, decimal, is_space, slice_chars, str_eq,
    string_of, string_texts, trim_chars, trim_start, trim_str, trimmed, u64_text,
};

verus! {

/// The branch that task branches start from unless another is configured.
pub const DEFAULT_BASE_BRANCH: &'static str = "main";

/// What the guard remembers of the workspace as it found it.
#[derive(Debug)]
pub struct GitWorkspaceGuard {
    pub workspace: String,
    pub orig_branch: String,
    pub orig_head: String,
    pub pre_run_head: String,
    pub dirty_files: Option<Vec<String>>,
    pub stash_ref: Option<String>,
}

/// The lines of `lines` without the white space at their ends, those that
/// are then empty left out.
pub open spec fn named(lines: Seq<Seq<char>>) -> Seq<Seq<char>>
    decreases lines.len(),
{
    if lines.len() == 0 {
        Seq::empty()
    } else if trimmed(lines.last()).len() > 0 {
        named(lines.drop_last()).push(trimmed(lines.last()))
    } else {
        named(lines.drop_last())
    }
}

/// The files that an output of git names, one to a line.
pub open spec fn named_files(output: Seq<char>) -> Seq<Seq<char>> {
    named(lines_of(output))
}

/// `list` with those of `more` added that it does not hold yet.
pub open spec fn with_new(list: Seq<Seq<char>>, more: Seq<Seq<char>>) -> Seq<Seq<char>>
    decreases more.len(),
{
    if more.len() == 0 {
        list
    } else {
        let before = with_new(list, more.drop_last());
        if before.contains(more.last()) {
            before
        } else {
            before.push(more.last())
        }
    }
}

/// No file stands twice in the list.
pub open spec fn distinct(list: Seq<Seq<char>>) -> bool {
    forall|i: int, j: int| 0 <= i < j < list.len() ==> list[i] != list[j]
}

/// Adding what is new keeps a list free of repeats, and the result holds
/// exactly the files of the two lists.
pub proof fn lemma_with_new(list: Seq<Seq<char>>, more: Seq<Seq<char>>)
    requires
        distinct(list),
    ensures
        distinct(with_new(list, more)),
        forall|f: Seq<char>| #[trigger]
            with_new(list, more).contains(f) <==> list.contains(f) || more.contains(f),
    decreases more.len(),
{
    if more.len() > 0 {
        let init = more.drop_last();
        let last = more.last();
        lemma_with_new(list, init);
        let before = with_new(list, init);
        let after = with_new(list, more);
        assert forall|f: Seq<char>| #[trigger]
            after.contains(f) <==> list.contains(f) || more.contains(f) by {
            if after.contains(f) {
                let k = choose|k: int| 0 <= k < after.len() && after[k] == f;
                if k < before.len() {
                    assert(before[k] == f);
                    assert(before.contains(f));
                    if init.contains(f) {
                        let m = choose|m: int| 0 <= m < init.len() && init[m] == f;
                        assert(more[m] == f);
                    }
                } else {
                    assert(more[more.len() - 1] == f);
                }
            }
            if list.contains(f) {
                assert(before.contains(f));
                let k = choose|k: int| 0 <= k < before.len() && before[k] == f;
                assert(after[k] == f);
            }
            if more.contains(f) {
                let m = choose|m: int| 0 <= m < more.len() && more[m] == f;
                if m < init.len() {
                    assert(init[m] == f);
                    assert(before.contains(f));
                    let k = choose|k: int| 0 <= k < before.len() && before[k] == f;
                    assert(after[k] == f);
                } else if before.contains(f) {
                    let k = choose|k: int| 0 <= k < before.len() && before[k] == f;
                    assert(after[k] == f);
                } else {
                    assert(after[after.len() - 1] == f);
                }
            }
        }
        if !before.contains(last) {
            assert forall|i: int, j: int| 0 <= i < j < after.len() implies after[i] != after[j] by {
                if j < before.len() {
                    assert(after[i] == before[i] && after[j] == before[j]);
                } else {
                    assert(after[i] == before[i]);
                    assert(before.contains(before[i]));
                }
            }
        }
    }
}

/// Some file is in both lists.
pub open spec fn overlaps(a: Seq<Seq<char>>, b: Seq<Seq<char>>) -> bool {
    exists|i: int, j: int| 0 <= i < a.len() && 0 <= j < b.len() && a[i] == b[j]
}

/// The files that an output of git names.
pub fn parse_file_list(output: &str) -> (files: Vec<String>)
    ensures
        string_texts(files@) == named_files(output@),
{
    let chars = chars_of(output);
    let lines = split_lines(&chars);
    let mut files: Vec<String> = Vec::new();
    let ghost all = line_views(lines@);
    let mut i: usize = 0;
    assert(string_texts(files@) =~= named(all.take(0)));
    while i < lines.len()
        invariant
            i <= lines.len(),
            all == line_views(lines@),
            string_texts(files@) == named(all.take(i as int)),
        decreases lines.len() - i,
    {
        assert(all.take(i + 1).drop_last() =~= all.take(i as int));
        assert(all.take(i + 1).last() == lines@[i as int]@);
        let kept = trim_chars(&lines[i]);
        if kept.len() > 0 {
            let ghost before = string_texts(files@);
            files.push(string_of(&kept));
            assert(string_texts(files@) =~= before.push(kept@));
        }
        i += 1;
    }
    assert(all.take(lines.len() as int) =~= all);
    files
}

/// Whether `list` holds `file`.
pub fn list_contains(list: &Vec<String>, file: &str) -> (r: bool)
    ensures
        r == string_texts(list@).contains(file@),
{
    let mut i: usize = 0;
    while i < list.len()
        invariant
            i <= list.len(),
            forall|k: int| 0 <= k < i ==> string_texts(list@)[k] != file@,
        decreases list.len() - i,
    {
        if str_eq(list[i].as_str(), file) {
            assert(string_texts(list@)[i as int] == file@);
            return true;
        }
        i += 1;
    }
    false
}

/// Adds to `list` those of `more` that it does not hold yet.
pub fn add_new_files(list: &mut Vec<String>, more: &Vec<String>)
    ensures
        string_texts(final(list)@) == with_new(string_texts(old(list)@), string_texts(more@)),
{
    let ghost start = string_texts(list@);
    let ghost all = string_texts(more@);
    let mut i: usize = 0;
    assert(with_new(start, all.take(0)) =~= start);
    while i < more.len()
        invariant
            i <= more.len(),
            all == string_texts(more@),
            string_texts(list@) == with_new(start, all.take(i as int)),
        decreases more.len() - i,
    {
        assert(all.take(i + 1).drop_last() =~= all.take(i as int));
        assert(all.take(i + 1).last() == more@[i as int]@);
        if !list_contains(list, more[i].as_str()) {
            let ghost before = string_texts(list@);
            list.push(copy_string(&more[i]));
            assert(string_texts(list@) =~= before.push(more@[i as int]@));
        }
        i += 1;
    }
    assert(all.take(more.len() as int) =~= all);
}

/// The files that are changed in the workspace: those that the three
/// listings of git name, each once, so that the list stands for their set. The listings are the changed files, the
/// staged files and the files that git does not know.
pub fn record_dirty_files(changed: &str, staged: &str, unknown: &str) -> (files: Vec<String>)
    ensures
        string_texts(files@) == with_new(
            with_new(with_new(Seq::empty(), named_files(changed@)), named_files(staged@)),
            named_files(unknown@),
        ),
        distinct(string_texts(files@)),
        forall|f: Seq<char>| #[trigger]
            string_texts(files@).contains(f) <==> named_files(changed@).contains(f)
                || named_files(staged@).contains(f) || named_files(unknown@).contains(f),
{
    proof {
        let none = Seq::<Seq<char>>::empty();
        let a = with_new(none, named_files(changed@));
        let b = with_new(a, named_files(staged@));
        lemma_with_new(none, named_files(changed@));
        lemma_with_new(a, named_files(staged@));
        lemma_with_new(b, named_files(unknown@));
        assert forall|f: Seq<char>| #[trigger]
            with_new(b, named_files(unknown@)).contains(f) <==> named_files(changed@).contains(f)
                || named_files(staged@).contains(f) || named_files(unknown@).contains(f) by {
            assert(!none.contains(f));
            assert(a.contains(f) <==> named_files(changed@).contains(f));
            assert(b.contains(f) <==> a.contains(f) || named_files(staged@).contains(f));
        }
    }
    let mut files: Vec<String> = Vec::new();
    assert(string_texts(files@) =~= Seq::<Seq<char>>::empty());
    let a = parse_file_list(changed);
    add_new_files(&mut files, &a);
    let b = parse_file_list(staged);
    add_new_files(&mut files, &b);
    let c = parse_file_list(unknown);
    add_new_files(&mut files, &c);
    files
}

/// Whether some file is in both lists.
pub fn lists_overlap(a: &Vec<String>, b: &Vec<String>) -> (r: bool)
    ensures
        r == overlaps(string_texts(a@), string_texts(b@)),
{
    let mut i: usize = 0;
    while i < a.len()
        invariant
            i <= a.len(),
            forall|k: int, j: int|
                0 <= k < i && 0 <= j < b.len() ==> string_texts(a@)[k] != string_texts(b@)[j],
        decreases a.len() - i,
    {
        if list_contains(b, a[i].as_str()) {
            let ghost j = choose|j: int|
                0 <= j < string_texts(b@).len() && string_texts(b@)[j] == a@[i as int]@;
            assert(string_texts(a@)[i as int] == string_texts(b@)[j]);
            return true;
        }
        assert forall|j: int| 0 <= j < b.len() implies string_texts(a@)[i as int] != string_texts(
            b@,
        )[j] by {
            if string_texts(a@)[i as int] == string_texts(b@)[j] {
                assert(string_texts(b@).contains(a@[i as int]@));
            }
        }
        i += 1;
    }
    false
}

/// The status of git shows changes: it is more than white space.
pub fn status_is_dirty(status_output: &str) -> (r: bool)
    ensures
        r == (trimmed(status_output@).len() > 0),
{
    let kept = trim_str(status_output);
    kept.as_str().unicode_len() > 0
}

/// The label of the stash that the guard makes.
pub open spec fn stash_label(stamp: Seq<char>, process_id: u32) -> Seq<char> {
    "ralph(task-agent): auto-stash "@ + stamp + "-"@ + decimal(process_id as nat)
}

/// The label of the stash that the guard makes.
pub fn stash_message(stamp: &str, process_id: u32) -> (out: String)
    ensures
        out@ == stash_label(stamp@, process_id),
{
    let mut out = String::from_str("ralph(task-agent): auto-stash ");
    out.append(stamp);
    out.append("-");
    let digits = u64_text(process_id as u64);
    out.append(digits.as_str());
    out
}

/// How many characters at the start of `s` are no white space.
pub open spec fn word_len(s: Seq<char>) -> nat
    decreases s.len(),
{
    if s.len() > 0 && !is_space(s[0]) {
        1 + word_len(s.drop_first())
    } else {
        0
    }
}

/// The first word of a line: what stands between the white space at its
/// start and the next white space.
pub open spec fn first_word(line: Seq<char>) -> Seq<char> {
    trim_start(line).take(word_len(trim_start(line)) as int)
}

/// The reference of the stash labelled `label` in the list of stashes: the
/// first word of the first line that holds the label and has a word.
pub open spec fn stash_ref_in(lines: Seq<Seq<char>>, label: Seq<char>) -> Option<Seq<char>>
    decreases lines.len(),
{
    if lines.len() == 0 {
        None
    } else if contains(lines[0], label) && first_word(lines[0]).len() > 0 {
        Some(first_word(lines[0]))
    } else {
        stash_ref_in(lines.drop_first(), label)
    }
}

/// The first word of a line.
pub fn read_first_word(line: &Vec<char>) -> (word: Vec<char>)
    ensures
        word@ == first_word(line@),
{
    let n = line.len();
    let mut i: usize = 0;
    assert(line@.subrange(0, n as int) =~= line@);
    while i < n && char_is_space(line[i])
        invariant
            i <= n == line.len(),
            trim_start(line@) == trim_start(line@.subrange(i as int, n as int)),
        decreases n - i,
    {
        assert(line@.subrange(i as int, n as int).drop_first() =~= line@.subrange(i + 1, n as int));
        i += 1;
    }
    let ghost rest = line@.subrange(i as int, n as int);
    assert(trim_start(line@) == rest);
    let mut j: usize = i;
    assert(rest.subrange(0, rest.len() as int) =~= rest);
    while j < n && !char_is_space(line[j])
        invariant
            i <= j <= n == line.len(),
            rest == line@.subrange(i as int, n as int),
            word_len(rest) == (j - i) + word_len(line@.subrange(j as int, n as int)),
        decreases n - j,
    {
        assert(line@.subrange(j as int, n as int).drop_first() =~= line@.subrange(j + 1, n as int));
        j += 1;
    }
    let word = slice_chars(line, i, j);
    assert(line@.subrange(i as int, j as int) =~= rest.take(j - i));
    word
}

/// Finds the reference of the stash labelled `stash_msg` in the list of
/// stashes that git gives.
pub fn find_stash_ref(list_output: &str, stash_msg: &str) -> (r: Option<String>)
    ensures
        match r {
            Some(reference) => stash_ref_in(lines_of(list_output@), stash_msg@) == Some(reference@),
            None => stash_ref_in(lines_of(list_output@), stash_msg@) is None,
        },
{
    let chars = chars_of(list_output);
    let lines = split_lines(&chars);
    let label = chars_of(stash_msg);
    let ghost all = line_views(lines@);
    let mut i: usize = 0;
    assert(all.skip(0) =~= all);
    while i < lines.len()
        invariant
            i <= lines.len(),
            all == line_views(lines@),
            all == lines_of(list_output@),
            label@ == stash_msg@,
            stash_ref_in(all, stash_msg@) == stash_ref_in(all.skip(i as int), stash_msg@),
        decreases lines.len() - i,
    {
        assert(all.skip(i as int)[0] == lines@[i as int]@);
        assert(all.skip(i as int).drop_first() =~= all.skip(i + 1));
        if chars_contain(&lines[i], &label) {
            let word = read_first_word(&lines[i]);
            if word.len() > 0 {
                return Some(string_of(&word));
            }
        }
        i += 1;
    }
    assert(all.skip(lines.len() as int) =~= Seq::<Seq<char>>::empty());
    None
}

/// The branch that task branches start from: the configured one, else the
/// default.
pub fn base_branch(configured: Option<&str>) -> (out: String)
    ensures
        out@ == match configured {
            Some(b) => b@,
            None => DEFAULT_BASE_BRANCH@,
        },
{
    match configured {
        Some(b) => String::from_str(b),
        None => String::from_str(DEFAULT_BASE_BRANCH),
    }
}

/// The branch on which a task is worked.
pub fn task_branch(task_id: &str) -> (out: String)
    ensures
        out@ == "ralph/"@ + task_id@,
{
    let mut out = String::from_str("ralph/");
    out.append(task_id);
    out
}

/// The full name of the reference of a task's branch.
pub fn task_branch_ref(task_id: &str) -> (out: String)
    ensures
        out@ == "refs/heads/ralph/"@ + task_id@,
{
    let mut out = String::from_str("refs/heads/ralph/");
    out.append(task_id);
    out
}

/// The arguments with which git moves to a task's branch: to the branch
/// itself where it exists, else to a new branch of that name.
pub fn checkout_task_branch(task_id: &str, branch_exists: bool) -> (args: Vec<String>)
    ensures
        string_texts(args@) == if branch_exists {
            seq!["checkout"@, "ralph/"@ + task_id@]
        } else {
            seq!["checkout"@, "-b"@, "ralph/"@ + task_id@]
        },
{
    let branch = task_branch(task_id);
    let mut args: Vec<String> = Vec::new();
    assert(string_texts(args@) =~= Seq::<Seq<char>>::empty());
    push_arg(&mut args, "checkout");
    if !branch_exists {
        push_arg(&mut args, "-b");
    }
    push_arg(&mut args, branch.as_str());
    assert(string_texts(args@) =~= if branch_exists {
        seq!["checkout"@, "ralph/"@ + task_id@]
    } else {
        seq!["checkout"@, "-b"@, "ralph/"@ + task_id@]
    });
    args
}

/// The guard of a workspace as it was found: the branch and the commit it
/// stood on, without the white space that git prints around them, and what
/// was set aside.
pub fn remember_workspace(
    workspace: &str,
    branch_output: &str,
    head_output: &str,
    dirty_files: Option<Vec<String>>,
    stash_ref: Option<String>,
) -> (guard: GitWorkspaceGuard)
    ensures
        guard.workspace@ == workspace@,
        guard.orig_branch@ == trimmed(branch_output@),
        guard.orig_head@ == trimmed(head_output@),
        guard.pre_run_head@ == trimmed(head_output@),
        guard.dirty_files == dirty_files,
        guard.stash_ref == stash_ref,
{
    GitWorkspaceGuard {
        workspace: String::from_str(workspace),
        orig_branch: trim_str(branch_output),
        orig_head: trim_str(head_output),
        pre_run_head: trim_str(head_output),
        dirty_files,
        stash_ref,
    }
}

/// How the guard begins to give the workspace back.
#[derive(Debug, Copy, Clone, PartialEq, Eq, Structural)]
pub enum RestoreStart {
    /// Nothing was set aside.
    Nothing,
    /// The list of changed files is missing: the stash is left.
    MissingDirtyList,
    /// The files that the run changed must be listed first.
    ListRunChanges,
}

/// Why the stash is left for the user to apply.
#[derive(Debug, Copy, Clone, PartialEq, Eq, Structural)]
pub enum LeaveReason {
    MissingDirtyList,
    RunChangesUnknown,
    Overlap,
    CheckoutFailed,
    ApplyFailed,
}

/// What follows the listing of the files that the run changed.
#[derive(Debug, Copy, Clone, PartialEq, Eq, Structural)]
pub enum RestoreDecision {
    /// Nothing was set aside: there is nothing to give back.
    Nothing,
    /// Leave the stash where it is.
    Leave(LeaveReason),
    /// Go back to where the workspace stood, then apply the stash; `detach`
    /// tells that it stood on a commit and not on a branch.
    Checkout { detach: bool },
}

impl GitWorkspaceGuard {
    /// How the guard begins to give the workspace back.
    pub fn restore_start(&self) -> (start: RestoreStart)
        ensures
            start == if self.stash_ref is None {
                RestoreStart::Nothing
            } else if self.dirty_files is None {
                RestoreStart::MissingDirtyList
            } else {
                RestoreStart::ListRunChanges
            },
    {
        if self.stash_ref.is_none() {
            RestoreStart::Nothing
        } else if self.dirty_files.is_none() {
            RestoreStart::MissingDirtyList
        } else {
            RestoreStart::ListRunChanges
        }
    }

    /// The arguments with which git lists the files that the run changed.
    pub fn run_changes_args(&self) -> (args: Vec<String>)
        ensures
            string_texts(args@) == seq!["diff"@, "--name-only"@, self.pre_run_head@, "HEAD"@],
    {
        let mut args: Vec<String> = Vec::new();
        assert(string_texts(args@) =~= Seq::<Seq<char>>::empty());
        push_arg(&mut args, "diff");
        push_arg(&mut args, "--name-only");
        push_arg(&mut args, self.pre_run_head.as_str());
        push_arg(&mut args, "HEAD");
        assert(string_texts(args@) =~= seq![
            "diff"@,
            "--name-only"@,
            self.pre_run_head@,
            "HEAD"@,
        ]);
        args
    }

    /// What follows the listing of the files that the run changed.
    /// `run_changes` is the listing, or nothing where git could not give it.
    /// Without a stash there is nothing to give back. The stash is left
    /// where the list of files set aside or the listing is missing, or where
    /// the run changed a file that was set aside: the user's work is never
    /// written over.
    pub fn restore_local_changes(&self, run_changes: Option<&str>) -> (d: RestoreDecision)
        ensures
            d == if self.stash_ref is None {
                RestoreDecision::Nothing
            } else {
                match self.dirty_files {
                    None => RestoreDecision::Leave(LeaveReason::MissingDirtyList),
                    Some(dirty) => match run_changes {
                        None => RestoreDecision::Leave(LeaveReason::RunChangesUnknown),
                        Some(listing) => if overlaps(string_texts(dirty@), named_files(listing@)) {
                            RestoreDecision::Leave(LeaveReason::Overlap)
                        } else {
                            RestoreDecision::Checkout { detach: self.orig_branch@ == "HEAD"@ }
                        },
                    },
                }
            },
    {
        if self.stash_ref.is_none() {
            return RestoreDecision::Nothing;
        }
        let dirty = match &self.dirty_files {
            Some(dirty) => dirty,
            None => {
                return RestoreDecision::Leave(LeaveReason::MissingDirtyList);
            },
        };
        let listing = match run_changes {
            Some(l) => l,
            None => {
                return RestoreDecision::Leave(LeaveReason::RunChangesUnknown);
            },
        };
        let run_files = parse_file_list(listing);
        if lists_overlap(dirty, &run_files) {
            RestoreDecision::Leave(LeaveReason::Overlap)
        } else {
            RestoreDecision::Checkout { detach: str_eq(self.orig_branch.as_str(), "HEAD") }
        }
    }

    /// The arguments with which git goes back to where the workspace stood.
    pub fn checkout_args(&self, detach: bool) -> (args: Vec<String>)
        ensures
            string_texts(args@) == if detach {
                seq!["checkout"@, "--detach"@, self.orig_head@]
            } else {
                seq!["checkout"@, self.orig_branch@]
            },
    {
        let mut args: Vec<String> = Vec::new();
        assert(string_texts(args@) =~= Seq::<Seq<char>>::empty());
        push_arg(&mut args, "checkout");
        if detach {
            push_arg(&mut args, "--detach");
            push_arg(&mut args, self.orig_head.as_str());
        } else {
            push_arg(&mut args, self.orig_branch.as_str());
        }
        assert(string_texts(args@) =~= if detach {
            seq!["checkout"@, "--detach"@, self.orig_head@]
        } else {
            seq!["checkout"@, self.orig_branch@]
        });
        args
    }
}

/// What follows the return to where the workspace stood: the stash is
/// applied where the return succeeded, else left.
pub fn after_checkout(ok: bool) -> (r: Option<LeaveReason>)
    ensures
        r == if ok {
            None::<LeaveReason>
        } else {
            Some(LeaveReason::CheckoutFailed)
        },
{
    if ok {
        None
    } else {
        Some(LeaveReason::CheckoutFailed)
    }
}

/// What follows the attempt to apply the stash: it is dropped where it was
/// applied, else left.
pub fn after_apply(ok: bool) -> (r: Option<LeaveReason>)
    ensures
        r == if ok {
            None::<LeaveReason>
        } else {
            Some(LeaveReason::ApplyFailed)
        },
{
    if ok {
        None
    } else {
        Some(LeaveReason::ApplyFailed)
    }
}

/// The warning that tells why the stash was left.
pub open spec fn leave_warning(reason: LeaveReason, stash_ref: Seq<char>, branch: Seq<char>) -> Seq<
    char,
> {
    match reason {
        LeaveReason::MissingDirtyList => "Warning: missing dirty file list; leaving "@ + stash_ref
            + " for manual apply."@,
        LeaveReason::RunChangesUnknown => "Warning: unable to compute run changes; leaving "@
            + stash_ref + " for manual apply."@,
        LeaveReason::Overlap => "Warning: stash "@ + stash_ref
            + " overlaps run changes; apply manually."@,
        LeaveReason::CheckoutFailed => if branch == "HEAD"@ {
            "Warning: unable to restore detached HEAD; leaving "@ + stash_ref + "."@
        } else {
            "Warning: unable to checkout "@ + branch + "; leaving "@ + stash_ref + "."@
        },
        LeaveReason::ApplyFailed => "Warning: stash "@ + stash_ref
            + " could not be applied cleanly; leaving stash for manual apply."@,
    }
}

/// The warning that tells why the stash was left.
pub fn restore_warning(reason: LeaveReason, stash_ref: &str, branch: &str) -> (out: String)
    ensures
        out@ == leave_warning(reason, stash_ref@, branch@),
{
    match reason {
        LeaveReason::MissingDirtyList => {
            let mut out = String::from_str("Warning: missing dirty file list; leaving ");
            out.append(stash_ref);
            out.append(" for manual apply.");
            out
        },
        LeaveReason::RunChangesUnknown => {
            let mut out = String::from_str("Warning: unable to compute run changes; leaving ");
            out.append(stash_ref);
            out.append(" for manual apply.");
            out
        },
        LeaveReason::Overlap => {
            let mut out = String::from_str("Warning: stash ");
            out.append(stash_ref);
            out.append(" overlaps run changes; apply manually.");
            out
        },
        LeaveReason::CheckoutFailed => {
            if str_eq(branch, "HEAD") {
                let mut out = String::from_str("Warning: unable to restore detached HEAD; leaving ");
                out.append(stash_ref);
                out.append(".");
                out
            } else {
                let mut out = String::from_str("Warning: unable to checkout ");
                out.append(branch);
                out.append("; leaving ");
                out.append(stash_ref);
                out.append(".");
                out
            }
        },
        LeaveReason::ApplyFailed => {
            let mut out = String::from_str("Warning: stash ");
            out.append(stash_ref);
            out.append(" could not be applied cleanly; leaving stash for manual apply.");
            out
        },
    }
}

/// The subject of the commit that records a task's progress, or nothing
/// where the workspace has no changes to commit.
pub fn git_commit_progress(status_output: &str, task_title: &str, task_id: &str) -> (r: Option<
    String,
>)
    ensures
        match r {
            Some(subject) => trimmed(status_output@).len() > 0 && subject@ == subject_of(
                task_title@,
                task_id@,
            ),
            None => trimmed(status_output@).len() == 0,
        },
{
    if status_is_dirty(status_output) {
        Some(commit_subject_from_title(task_title, task_id))
    } else {
        None
    }
}

/// One call of git, with whether its failure is passed over.
#[derive(Debug)]
pub struct GitCall {
    pub args: Vec<String>,
    pub best_effort: bool,
}

/// The calls of git that merge a completed task into the base branch, as
/// argument lists in order.
pub open spec fn finalize_calls(task_id: Seq<char>, base: Seq<char>, subject: Seq<char>) -> Seq<
    Seq<Seq<char>>,
> {
    let branch = "ralph/"@ + task_id;
    seq![
        seq!["checkout"@, branch],
        seq!["rebase"@, base],
        seq!["reset"@, "--soft"@, base],
        seq!["add"@, "-A"@],
        seq!["commit"@, "-m"@, subject],
        seq!["checkout"@, base],
        seq!["merge"@, "--ff-only"@, branch],
        seq!["branch"@, "-D"@, branch],
    ]
}

/// A call of git with two arguments.
fn call2(a: &str, b: &str, best_effort: bool) -> (call: GitCall)
    ensures
        string_texts(call.args@) == seq![a@, b@],
        call.best_effort == best_effort,
{
    let mut args: Vec<String> = Vec::new();
    assert(string_texts(args@) =~= Seq::<Seq<char>>::empty());
    push_arg(&mut args, a);
    push_arg(&mut args, b);
    assert(string_texts(args@) =~= seq![a@, b@]);
    GitCall { args, best_effort }
}

/// A call of git with three arguments.
fn call3(a: &str, b: &str, c: &str) -> (call: GitCall)
    ensures
        string_texts(call.args@) == seq![a@, b@, c@],
        !call.best_effort,
{
    let mut args: Vec<String> = Vec::new();
    assert(string_texts(args@) =~= Seq::<Seq<char>>::empty());
    push_arg(&mut args, a);
    push_arg(&mut args, b);
    push_arg(&mut args, c);
    assert(string_texts(args@) =~= seq![a@, b@, c@]);
    GitCall { args, best_effort: false }
}

/// The calls of git that merge a completed task into the base branch: the
/// task's branch is rebased on the base where that works, squashed into one
/// commit with the task's subject, merged without a merge commit, and
/// removed. Only the failure of the rebase is passed over.
pub fn finalize_successful_task(task_id: &str, task_title: &str, base: &str) -> (calls: Vec<GitCall>)
    ensures
        calls@.len() == 8,
        forall|i: int|
            0 <= i < 8 ==> string_texts((#[trigger] calls@[i]).args@) == finalize_calls(
                task_id@,
                base@,
                subject_of(task_title@, task_id@),
            )[i],
        forall|i: int| 0 <= i < 8 ==> ((#[trigger] calls@[i]).best_effort <==> i == 1),
{
    let branch = task_branch(task_id);
    let subject = commit_subject_from_title(task_title, task_id);
    let mut calls: Vec<GitCall> = Vec::new();
    calls.push(call2("checkout", branch.as_str(), false));
    calls.push(call2("rebase", base, true));
    calls.push(call3("reset", "--soft", base));
    calls.push(call2("add", "-A", false));
    calls.push(call3("commit", "-m", subject.as_str()));
    calls.push(call2("checkout", base, false));
    calls.push(call3("merge", "--ff-only", branch.as_str()));
    calls.push(call3("branch", "-D", branch.as_str()));
    calls
}

} // verus!
